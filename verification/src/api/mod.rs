//! The documents that pass between the host and a package: the description of a package,
//! the input of a run and its result. Each is a YAML document with `apiVersion`, `kind` and
//! a body.

pub mod envelope;
pub mod misthuskresult;
pub mod mistinput;
pub mod mistpackage;
pub mod mistresult;
