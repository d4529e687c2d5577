//! The package host: a loaded package, its description, and the run that turns an input
//! into a result.

use crate::api::envelope::{read_document, EnvelopeError, EnvelopeFault};
use crate::api::mistpackage::{package_of_mapping, read_package, MistPackage, PackageView};
use crate::api::mistresult::{deserialize_result, deserialized_result, result_view, MistResult};
use crate::config::ConfigLayout;
use crate::document::{mapping_at, mapping_under, text_at, text_under};
use crate::guest::{
    bytes_view, grown, is_description, is_exchanged, since, text_of_bytes, Crossing, EntryNames,
    Guest, GuestBuffer, HostError,
};
use crate::reference::{
    is_local, main_separator, parse_reference, parsed_reference, RefError, RefFault, RefView,
    Reference,
};
use crate::registry::{artifact_path, is_default_remote, RegistryError, Remote};
use crate::yaml::{mapping_entries, parsed_node, shape_of, Node, Shape};
use vstd::prelude::*;
use vstd::string::*;
use vstd::utf8::{decode_utf8, valid_utf8};

verus! {

/// The name of a package: a file on this machine, or a package of a registry in a version.
#[derive(Debug)]
pub enum MistPackageRef {
    Local(String),
    Remote { registry: String, package: String, version: String },
}

impl View for MistPackageRef {
    type V = RefView;

    open spec fn view(&self) -> RefView {
        match self {
            MistPackageRef::Local(p) => RefView::Local(p@),
            MistPackageRef::Remote { registry, package, version } => RefView::Remote {
                registry: registry@,
                package: package@,
                version: version@,
            },
        }
    }
}

pub open spec fn ref_result_view(r: Result<MistPackageRef, RefError>) -> Result<RefView, RefFault> {
    match r {
        Ok(v) => Ok(v@),
        Err(e) => Err(e@),
    }
}

/// Where the artifact of a package is to be found.
#[derive(Debug)]
pub struct Located {
    /// The path of the artifact.
    pub path: String,
    /// The remote to fetch before the path is looked at, for a package of a registry.
    pub remote: Option<Remote>,
}

/// Why a package could not be located.
#[derive(Debug)]
pub enum LocateError {
    Registry(RegistryError),
    /// The registry holds no such package; the text is the package path.
    PackageNotFound(String),
}

impl LocateError {
    pub open spec fn message_text(self) -> Seq<char> {
        match self {
            LocateError::Registry(e) => e.message_text(),
            LocateError::PackageNotFound(package) => "could not find package at "@ + package@,
        }
    }

    /// The text shown to the user.
    pub fn message(&self) -> (r: String)
        ensures
            r@ == self.message_text(),
    {
        match self {
            LocateError::Registry(e) => e.message(),
            LocateError::PackageNotFound(package) => {
                let mut r = String::from_str("could not find package at ");
                r.append(package.as_str());
                r
            },
        }
    }
}

impl MistPackageRef {
    /// Parses a reference on a platform whose path separator is `sep`.
    pub fn parse(package: &str, sep: char) -> (r: Result<Self, RefError>)
        ensures
            ref_result_view(r) == parsed_reference(package@, sep),
    {
        match parse_reference(package, sep) {
            Ok(Reference::Local(p)) => Ok(MistPackageRef::Local(p)),
            Ok(Reference::Remote { registry, package, version }) => Ok(
                MistPackageRef::Remote { registry, package, version },
            ),
            Err(e) => Err(e),
        }
    }

    /// Parses a reference on this platform: the separator is that of the platform, a slash
    /// or, on Windows, a backslash.
    pub fn from_str(package: &str) -> (r: Result<Self, RefError>)
        ensures
            ref_result_view(r) == parsed_reference(package@, '/') || ref_result_view(r) == parsed_reference(
                package@,
                '\\',
            ),
    {
        Self::parse(package, main_separator())
    }

    /// Whether the reference names a file on this machine.
    pub fn is_local(&self) -> (r: bool)
        ensures
            r == (self@ is Local),
    {
        match self {
            MistPackageRef::Local(_) => true,
            MistPackageRef::Remote { .. } => false,
        }
    }

    /// Where the artifact is to be found: the path of a local reference as it stands; for a
    /// package of a registry, the default remote of the registry and the path of the
    /// artifact below the directory of registries.
    pub fn locate(&self, config: &ConfigLayout, registries: &str, sep: char) -> (r: Result<
        Located,
        LocateError,
    >)
        ensures
            match (self@, r) {
                (RefView::Local(p), Ok(found)) => found.path@ == p && found.remote is None,
                (RefView::Local(_), Err(_)) => false,
                (RefView::Remote { registry, package, version }, Ok(found)) => found.remote
                    matches Some(remote) && is_default_remote(*config, registry, remote)
                    && artifact_path(registries@, registry, package, version, sep) == Some(
                    found.path@,
                ),
                (
                    RefView::Remote { registry, package, version },
                    Err(LocateError::Registry(e)),
                ) => crate::registry::is_registry_error(*config, registry, e),
                (
                    RefView::Remote { registry, package, version },
                    Err(LocateError::PackageNotFound(p)),
                ) => crate::registry::default_remote_at(*config, registry) is Ok && artifact_path(
                    registries@,
                    registry,
                    package,
                    version,
                    sep,
                ) is None && p@ == package,
            },
    {
        match self {
            MistPackageRef::Local(path) => Ok(Located { path: path.clone(), remote: None }),
            MistPackageRef::Remote { registry, package, version } => {
                let remote = match Remote::default_for_name(registry.as_str(), config) {
                    Err(e) => { return Err(LocateError::Registry(e)); },
                    Ok(remote) => remote,
                };
                match remote.lookup_package(registries, package.as_str(), version.as_str(), sep) {
                    None => Err(LocateError::PackageNotFound(package.clone())),
                    Some(path) => Ok(Located { path, remote: Some(remote) }),
                }
            },
        }
    }
}

/// The name under which a package exports one of its functions: the name that its
/// description gives under `spec.functions`, else the fixed name.
pub open spec fn function_name(top: Seq<(Node, Node)>, key: Seq<char>, fixed: Seq<char>) -> Seq<
    char,
> {
    match mapping_at(top, "spec"@) {
        None => fixed,
        Some(block) => match mapping_at(block, "functions"@) {
            None => fixed,
            Some(functions) => match text_at(functions, key) {
                None => fixed,
                Some(name) => name,
            },
        },
    }
}

pub struct NamesView {
    pub generate: Seq<char>,
    pub alloc: Seq<char>,
    pub dealloc: Seq<char>,
}

impl View for EntryNames {
    type V = NamesView;

    open spec fn view(&self) -> NamesView {
        NamesView { generate: self.generate@, alloc: self.alloc@, dealloc: self.dealloc@ }
    }
}

/// The names under which the package of a description exports its functions.
pub open spec fn entry_names(top: Seq<(Node, Node)>) -> NamesView {
    NamesView {
        generate: function_name(top, "generate"@, "__mistletoe_generate"@),
        alloc: function_name(top, "alloc"@, "__mistletoe_alloc"@),
        dealloc: function_name(top, "dealloc"@, "__mistletoe_dealloc"@),
    }
}

/// What the text of a description says: the package and the names of its functions.
pub open spec fn described(text: Seq<char>) -> Result<(PackageView, NamesView), EnvelopeFault> {
    match parsed_node(text) {
        None => Err(EnvelopeFault::Parse),
        Some(Node::Dict(top)) => match read_package(Node::Dict(top)) {
            None => Err(EnvelopeFault::Malformed),
            Some(p) => Ok((p, entry_names(top))),
        },
        Some(_) => Err(EnvelopeFault::Malformed),
    }
}

/// The name of one function.
fn named_function(top: &serde_yaml::Mapping, key: &str, fixed: &str) -> (r: String)
    ensures
        r@ == function_name(mapping_entries(*top), key@, fixed@),
{
    let block = match mapping_under(top, "spec") {
        None => { return String::from_str(fixed); },
        Some(block) => block,
    };
    let functions = match mapping_under(&block, "functions") {
        None => { return String::from_str(fixed); },
        Some(functions) => functions,
    };
    match text_under(&functions, key) {
        None => String::from_str(fixed),
        Some(name) => name,
    }
}

/// Reads the description that a package gives of itself, and with it the names under which
/// the package exports its functions.
pub fn read_description(text: &str) -> (r: Result<(MistPackage, EntryNames), EnvelopeError>)
    ensures
        match r {
            Ok((p, names)) => described(text@) == Ok::<_, EnvelopeFault>((p@, names@)),
            Err(e) => described(text@) == Err::<(PackageView, NamesView), _>(e.fault()),
        },
{
    let doc = match read_document(text) {
        Err(e) => { return Err(e); },
        Ok(doc) => doc,
    };
    let top = match shape_of(&doc) {
        Shape::Dict(top) => top,
        _ => {
            return Err(
                EnvelopeError::Malformed(String::from_str("expected a mapping at the root")),
            );
        },
    };
    let package = match package_of_mapping(&top) {
        Err(m) => { return Err(EnvelopeError::Malformed(m)); },
        Ok(p) => p,
    };
    let names = EntryNames {
        generate: named_function(&top, "generate", "__mistletoe_generate"),
        alloc: named_function(&top, "alloc", "__mistletoe_alloc"),
        dealloc: named_function(&top, "dealloc", "__mistletoe_dealloc"),
    };
    Ok((package, names))
}

/// The text that a payload holds; the payload itself where it is no UTF-8.
pub fn payload_text(bytes: Vec<u8>) -> (r: Result<String, HostError>)
    ensures
        match r {
            Ok(text) => valid_utf8(bytes@) && text@ == decode_utf8(bytes@),
            Err(HostError::InvalidUtf8(kept)) => !valid_utf8(bytes@) && kept@ == bytes@,
            Err(_) => false,
        },
{
    let kept = bytes.clone();
    match text_of_bytes(bytes) {
        Some(text) => Ok(text),
        None => Err(HostError::InvalidUtf8(kept)),
    }
}

/// What the payload of a run stands for. A payload that is no UTF-8, or no result document,
/// is an error of the host that keeps the payload. A result document stands for what it
/// says: a failure that the package reports is a result, not an error of the host.
pub fn interpret_payload(bytes: Vec<u8>) -> (r: Result<MistResult, HostError>)
    ensures
        match r {
            Ok(res) => valid_utf8(bytes@) && deserialized_result(decode_utf8(bytes@)) == Ok::<
                _,
                EnvelopeFault,
            >(result_view(res)),
            Err(HostError::InvalidUtf8(kept)) => !valid_utf8(bytes@) && kept@ == bytes@,
            Err(HostError::InvalidEnvelope(kept, _)) => valid_utf8(bytes@) && kept@
                == decode_utf8(bytes@) && deserialized_result(decode_utf8(bytes@)) is Err,
            Err(_) => false,
        },
{
    let text = match payload_text(bytes) {
        Err(e) => { return Err(e); },
        Ok(text) => text,
    };
    match deserialize_result(text.as_str()) {
        Ok(res) => Ok(res),
        Err(e) => Err(HostError::InvalidEnvelope(text, e.message())),
    }
}

/// What the payload of a description stands for.
pub fn interpret_description(bytes: Vec<u8>) -> (r: Result<(MistPackage, EntryNames), HostError>)
    ensures
        match r {
            Ok((p, names)) => valid_utf8(bytes@) && described(decode_utf8(bytes@)) == Ok::<
                _,
                EnvelopeFault,
            >((p@, names@)),
            Err(HostError::InvalidUtf8(kept)) => !valid_utf8(bytes@) && kept@ == bytes@,
            Err(HostError::InvalidEnvelope(kept, _)) => valid_utf8(bytes@) && kept@
                == decode_utf8(bytes@) && described(decode_utf8(bytes@)) is Err,
            Err(_) => false,
        },
{
    let text = match payload_text(bytes) {
        Err(e) => { return Err(e); },
        Ok(text) => text,
    };
    match read_description(text.as_str()) {
        Ok(found) => Ok(found),
        Err(e) => Err(HostError::InvalidEnvelope(text, e.message())),
    }
}

/// What the outcome of a round trip stands for: an error of the round trip is passed on; a
/// payload that is no UTF-8, or no result document, is an error that keeps the payload; a
/// result document stands for what it says.
pub open spec fn is_interpreted(
    got: Result<Seq<u8>, HostError>,
    r: Result<MistResult, HostError>,
) -> bool {
    match got {
        Err(e) => r == Err::<MistResult, _>(e),
        Ok(payload) => match r {
            Ok(res) => valid_utf8(payload) && deserialized_result(decode_utf8(payload)) == Ok::<
                _,
                EnvelopeFault,
            >(result_view(res)),
            Err(HostError::InvalidUtf8(kept)) => !valid_utf8(payload) && kept@ == payload,
            Err(HostError::InvalidEnvelope(kept, _)) => valid_utf8(payload) && kept@
                == decode_utf8(payload) && deserialized_result(decode_utf8(payload)) is Err,
            Err(_) => false,
        },
    }
}

/// What the outcome of asking for a description stands for: an error of the asking is
/// passed on; a payload that is no UTF-8, or no description, is an error that keeps the
/// payload; a description gives the package and the names of its functions.
pub open spec fn is_description_read(
    got: Result<Seq<u8>, HostError>,
    r: Result<(PackageView, NamesView), HostError>,
) -> bool {
    match got {
        Err(e) => r == Err::<(PackageView, NamesView), _>(e),
        Ok(payload) => match r {
            Ok(found) => valid_utf8(payload) && described(decode_utf8(payload)) == Ok::<
                _,
                EnvelopeFault,
            >(found),
            Err(HostError::InvalidUtf8(kept)) => !valid_utf8(payload) && kept@ == payload,
            Err(HostError::InvalidEnvelope(kept, _)) => valid_utf8(payload) && kept@
                == decode_utf8(payload) && described(decode_utf8(payload)) is Err,
            Err(_) => false,
        },
    }
}

/// What loading an artifact gives. A package that is loaded has been asked for its
/// description, once, and holds what the description says; no buffer is owed. A load that
/// fails has failed to compile or instantiate the artifact, or in asking for the
/// description.
pub open spec fn is_loaded(local: bool, r: Result<MistPackageInstance, HostError>) -> bool {
    match r {
        Ok(instance) => instance.local() == local && instance.live() == Seq::<
            GuestBuffer,
        >::empty() && exists|got: Result<Seq<u8>, HostError>|
            is_description(instance.crossings(), got) && is_description_read(
                got,
                Ok((instance.package(), instance.names())),
            ),
        Err(e) => e is Load || exists|made: Seq<Crossing>, got: Result<Seq<u8>, HostError>|
            is_description(made, got) && is_description_read(
                got,
                Err::<(PackageView, NamesView), _>(e),
            ),
    }
}

/// What a package is not allowed to do.
#[derive(Debug, Clone, Copy, PartialEq, Eq, Structural)]
pub enum PolicyError {
    /// A package from a registry asked for a file on this machine.
    LocalModule,
}

impl PolicyError {
    /// The text shown to the user.
    pub fn message(&self) -> (r: String)
        ensures
            r@ == "engine is not permitted to load local module"@,
    {
        String::from_str("engine is not permitted to load local module")
    }
}

/// A loaded package.
pub struct MistPackageInstance {
    local: bool,
    guest: Guest,
    package: MistPackage,
    names: EntryNames,
}

impl MistPackageInstance {
    /// Whether the package came from a file on this machine.
    pub closed spec fn local(&self) -> bool {
        self.local
    }

    /// The description that the package gave when it was loaded.
    pub closed spec fn package(&self) -> PackageView {
        self.package@
    }

    /// The names under which the package exports its functions.
    pub closed spec fn names(&self) -> NamesView {
        self.names@
    }

    /// The buffers in the memory of the package that the host has caused to exist and not
    /// released.
    pub closed spec fn live(&self) -> Seq<GuestBuffer> {
        self.guest.live()
    }

    /// The crossings that the host has made into the package, oldest first.
    pub closed spec fn crossings(&self) -> Seq<Crossing> {
        self.guest.crossings()
    }

    /// Loads the artifact that a reference names. The bytes are those of the file that the
    /// reference was resolved to. The package counts as local where the reference names a
    /// file on this machine.
    pub fn load(package_ref: &MistPackageRef, wasm: &[u8]) -> (r: Result<Self, HostError>)
        ensures
            is_loaded(package_ref@ is Local, r),
    {
        Self::init(package_ref.is_local(), wasm)
    }

    /// Instantiates an artifact and asks it for its description: the package is asked where
    /// the description lies, the descriptor there and the text that it names are read, and
    /// the text is read as a description. No buffer of the package is owed afterwards.
    pub fn init(local: bool, wasm: &[u8]) -> (r: Result<Self, HostError>)
        ensures
            is_loaded(local, r),
    {
        let mut guest = match Guest::instantiate(wasm) {
            Err(e) => { return Err(e); },
            Ok(guest) => guest,
        };
        let ghost c0 = guest.crossings();
        let asked = guest.info_address();
        let ghost c1 = guest.crossings();
        proof {
            assert(c1 =~= seq![c1.last()]);
        }
        let at = match asked {
            Err(e) => {
                proof {
                    assert(is_description(c1, Err::<Seq<u8>, _>(e)));
                    assert(is_description_read(
                        Err::<Seq<u8>, _>(e),
                        Err::<(PackageView, NamesView), _>(e),
                    ));
                }
                return Err(e);
            },
            Ok(at) => at,
        };
        let read = guest.read_described(at);
        let ghost c2 = guest.crossings();
        let ghost got = bytes_view(read);
        proof {
            assert(c2 =~= c1 + since(c1, c2));
            assert(c2.skip(1) =~= since(c1, c2));
            assert(c2[0] == c1[0]);
            assert(is_description(c2, got));
        }
        let payload = match read {
            Err(e) => {
                proof {
                    assert(is_description_read(got, Err::<(PackageView, NamesView), _>(e)));
                }
                return Err(e);
            },
            Ok(payload) => payload,
        };
        match interpret_description(payload) {
            Err(e) => {
                proof {
                    assert(is_description_read(got, Err::<(PackageView, NamesView), _>(e)));
                    assert(is_loaded(local, Err::<MistPackageInstance, _>(e)));
                }
                Err(e)
            },
            Ok((package, names)) => {
                let instance = MistPackageInstance { local, guest, package, names };
                proof {
                    assert(instance.crossings() == c2);
                    assert(instance.live() == Seq::<GuestBuffer>::empty());
                    assert(is_description_read(got, Ok((instance.package(), instance.names()))));
                    assert(is_loaded(local, Ok(instance)));
                }
                Ok(instance)
            },
        }
    }

    /// Whether the package came from a file on this machine.
    pub fn is_local(&self) -> (r: bool)
        ensures
            r == self.local(),
    {
        self.local
    }

    /// Whether this package may have the package of a reference loaded: a package that came
    /// from a registry may not reach for a file on this machine.
    pub fn may_load(&self, package_ref: &MistPackageRef) -> (r: Result<(), PolicyError>)
        ensures
            r is Err <==> !self.local() && package_ref@ is Local,
    {
        if !self.local && package_ref.is_local() {
            Err(PolicyError::LocalModule)
        } else {
            Ok(())
        }
    }

    /// The description of the package, as it was read when the package was loaded. The
    /// package is not called.
    pub fn info(&self) -> (r: Result<MistPackage, HostError>)
        ensures
            r matches Ok(p) && p@ == self.package(),
    {
        Ok(self.package.clone())
    }

    /// Runs the package on an input and reads its result.
    ///
    /// The run is one round trip under the names that the description gave: the package is
    /// asked for a buffer, the input is written to it, the package runs, descriptor and
    /// payload are read, and payload, descriptor and input buffer are handed back in that
    /// order. Whatever the package does, every buffer that the run caused to exist in its
    /// memory has been handed back when this returns, and the instance can be run again. An
    /// input of more bytes than a 32-bit length can say is refused before the package is
    /// called. The result is what the payload of the round trip stands for.
    pub fn generate(&mut self, input: &str) -> (r: Result<MistResult, HostError>)
        ensures
            final(self).live() == old(self).live(),
            final(self).local() == old(self).local(),
            final(self).package() == old(self).package(),
            final(self).names() == old(self).names(),
            grown(old(self).crossings(), final(self).crossings()),
            exists|got: Result<Seq<u8>, HostError>|
                is_exchanged(
                    old(self).names().generate,
                    old(self).names().alloc,
                    old(self).names().dealloc,
                    input.spec_bytes(),
                    since(old(self).crossings(), final(self).crossings()),
                    got,
                ) && is_interpreted(got, r),
            input.spec_bytes().len() > i32::MAX ==> r is Err && r->Err_0 is InputTooLarge,
    {
        let outcome = self.guest.exchange(&self.names, input);
        let ghost got = bytes_view(outcome);
        let payload = match outcome {
            Err(e) => {
                proof {
                    assert(is_interpreted(got, Err::<MistResult, _>(e)));
                }
                return Err(e);
            },
            Ok(payload) => payload,
        };
        let r = interpret_payload(payload);
        proof {
            assert(is_interpreted(got, r));
        }
        r
    }
}

} // verus!
