//! Loading a package by its reference.

use crate::guest::HostError;
use crate::instance::{is_loaded, MistPackageInstance};
use crate::reference::{
    main_separator, parse_reference, parsed_reference, RefError, RefFault, RefView, Reference,
};
use vstd::prelude::*;
use vstd::string::*;

verus! {

/// The name of a package: a file on this machine, or a package of a registry in a version.
#[derive(Debug)]
pub enum PackageRef {
    Local(String),
    Remote { registry: String, package: String, version: String },
}

impl View for PackageRef {
    type V = RefView;

    open spec fn view(&self) -> RefView {
        match self {
            PackageRef::Local(p) => RefView::Local(p@),
            PackageRef::Remote { registry, package, version } => RefView::Remote {
                registry: registry@,
                package: package@,
                version: version@,
            },
        }
    }
}

pub open spec fn package_ref_view(r: Result<PackageRef, RefError>) -> Result<RefView, RefFault> {
    match r {
        Ok(v) => Ok(v@),
        Err(e) => Err(e@),
    }
}

impl PackageRef {
    /// Parses a reference on a platform whose path separator is `sep`.
    pub fn parse(package: &str, sep: char) -> (r: Result<Self, RefError>)
        ensures
            package_ref_view(r) == parsed_reference(package@, sep),
    {
        match parse_reference(package, sep) {
            Ok(Reference::Local(p)) => Ok(PackageRef::Local(p)),
            Ok(Reference::Remote { registry, package, version }) => Ok(
                PackageRef::Remote { registry, package, version },
            ),
            Err(e) => Err(e),
        }
    }

    /// Parses a reference on this platform: the separator is that of the platform, a slash
    /// or, on Windows, a backslash.
    pub fn from_str(package: &str) -> (r: Result<Self, RefError>)
        ensures
            package_ref_view(r) == parsed_reference(package@, '/') || package_ref_view(r) == parsed_reference(
                package@,
                '\\',
            ),
    {
        Self::parse(package, main_separator())
    }
}

/// Loads the artifact that a reference names. The bytes are those of the file that the
/// reference was resolved to. The package counts as local where the reference names a file
/// on this machine.
pub fn load(package_ref: &PackageRef, wasm: &[u8]) -> (r: Result<MistPackageInstance, HostError>)
    ensures
        is_loaded(package_ref@ is Local, r),
{
    let local = match package_ref {
        PackageRef::Local(_) => true,
        PackageRef::Remote { .. } => false,
    };
    MistPackageInstance::init(local, wasm)
}

} // verus!
