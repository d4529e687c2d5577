//! Package host, result envelope and installation tracking of a package manager for
//! Kubernetes manifests.

pub mod api;
pub mod cluster;
pub mod config;
pub mod config_file;
pub mod document;
pub mod guest;
pub mod husk;
pub mod index_map;
pub mod installation;
pub mod installer;
pub mod instance;
pub mod loader;
pub mod mistletoe_core;
pub mod ordered;
pub mod outputs;
pub mod reference;
pub mod registry;
pub mod text;
pub mod yaml;
