//! The host for packages that describe themselves in the longer form and hand their output
//! back as text.

use crate::api::envelope::EnvelopeFault;
use crate::api::mistpackage::{deserialized_husk_package, HuskPackageView, MistHuskPackage};
use crate::guest::{
    bytes_view, grown, is_description, is_exchanged, since, Crossing, EntryNames, Guest,
    GuestBuffer, HostError,
};
use crate::instance::payload_text;
use vstd::prelude::*;
use vstd::string::*;
use vstd::utf8::{decode_utf8, valid_utf8};

verus! {

/// A loaded package and its description.
pub struct MistHuskModule {
    guest: Guest,
    package: MistHuskPackage,
}

/// The name that is given, else the fixed name.
pub open spec fn name_or(given: Option<Seq<char>>, fixed: Seq<char>) -> Seq<char> {
    match given {
        Some(name) => name,
        None => fixed,
    }
}

/// What the outcome of a round trip gives as text: an error of the round trip is passed
/// on; a payload that is no UTF-8 is an error that keeps the payload.
pub open spec fn is_text(got: Result<Seq<u8>, HostError>, r: Result<String, HostError>) -> bool {
    match got {
        Err(e) => r == Err::<String, _>(e),
        Ok(payload) => match r {
            Ok(text) => valid_utf8(payload) && text@ == decode_utf8(payload),
            Err(HostError::InvalidUtf8(kept)) => !valid_utf8(payload) && kept@ == payload,
            Err(_) => false,
        },
    }
}

/// What the outcome of asking for a description in the longer form stands for.
pub open spec fn is_husk_description_read(
    got: Result<Seq<u8>, HostError>,
    r: Result<HuskPackageView, HostError>,
) -> bool {
    match got {
        Err(e) => r == Err::<HuskPackageView, _>(e),
        Ok(payload) => match r {
            Ok(found) => valid_utf8(payload) && deserialized_husk_package(decode_utf8(payload))
                == Ok::<_, EnvelopeFault>(found),
            Err(HostError::InvalidUtf8(kept)) => !valid_utf8(payload) && kept@ == payload,
            Err(HostError::InvalidEnvelope(kept, _)) => valid_utf8(payload) && kept@
                == decode_utf8(payload) && deserialized_husk_package(decode_utf8(payload))
                is Err,
            Err(_) => false,
        },
    }
}

/// What loading an artifact gives. A package that is loaded has been asked for its
/// description, once, and holds what the description says; no buffer is owed. A load that
/// fails has failed to compile or instantiate the artifact, or in asking for the
/// description.
pub open spec fn is_husk_loaded(r: Result<MistHuskModule, HostError>) -> bool {
    match r {
        Ok(module) => module.live() == Seq::<GuestBuffer>::empty() && exists|
            got: Result<Seq<u8>, HostError>,
        |
            is_description(module.crossings(), got) && is_husk_description_read(
                got,
                Ok(module.package()),
            ),
        Err(e) => e is Load || exists|made: Seq<Crossing>, got: Result<Seq<u8>, HostError>|
            is_description(made, got) && is_husk_description_read(
                got,
                Err::<HuskPackageView, _>(e),
            ),
    }
}

/// The name that is given, else the fixed name.
pub fn name_or_fixed(given: &Option<String>, fixed: &str) -> (r: String)
    ensures
        r@ == name_or(crate::api::mistpackage::text_view(*given), fixed@),
{
    match given {
        Some(name) => name.clone(),
        None => String::from_str(fixed),
    }
}

impl MistHuskModule {
    /// The description that the package gave when it was loaded.
    pub closed spec fn package(&self) -> HuskPackageView {
        self.package@
    }

    /// The buffers in the memory of the package that the host has caused to exist and not
    /// released.
    pub closed spec fn live(&self) -> Seq<GuestBuffer> {
        self.guest.live()
    }

    /// The crossings that the host has made into the package, oldest first.
    pub closed spec fn crossings(&self) -> Seq<Crossing> {
        self.guest.crossings()
    }

    /// Loads a package from the bytes of its artifact file and asks it for its description:
    /// the package is asked where the description lies, the descriptor there and the text
    /// that it names are read, and the text is read as a description in the longer form.
    pub fn from_file(wasm: &[u8]) -> (r: Result<Self, HostError>)
        ensures
            is_husk_loaded(r),
    {
        let mut guest = match Guest::instantiate(wasm) {
            Err(e) => { return Err(e); },
            Ok(guest) => guest,
        };
        let asked = guest.info_address();
        let ghost c1 = guest.crossings();
        proof {
            assert(c1 =~= seq![c1.last()]);
        }
        let at = match asked {
            Err(e) => {
                proof {
                    assert(is_description(c1, Err::<Seq<u8>, _>(e)));
                    assert(is_husk_description_read(
                        Err::<Seq<u8>, _>(e),
                        Err::<HuskPackageView, _>(e),
                    ));
                }
                return Err(e);
            },
            Ok(at) => at,
        };
        let read = guest.read_described(at);
        let ghost c2 = guest.crossings();
        let ghost got = bytes_view(read);
        proof {
            assert(c2 =~= c1 + since(c1, c2));
            assert(c2.skip(1) =~= since(c1, c2));
            assert(c2[0] == c1[0]);
            assert(is_description(c2, got));
        }
        let payload = match read {
            Err(e) => {
                proof {
                    assert(is_husk_description_read(got, Err::<HuskPackageView, _>(e)));
                }
                return Err(e);
            },
            Ok(payload) => payload,
        };
        let text = match payload_text(payload) {
            Err(e) => {
                proof {
                    assert(is_husk_description_read(got, Err::<HuskPackageView, _>(e)));
                }
                return Err(e);
            },
            Ok(text) => text,
        };
        match MistHuskPackage::deserialize(text.as_str()) {
            Err(e) => {
                let failed = HostError::InvalidEnvelope(text, e.message());
                proof {
                    assert(is_husk_description_read(got, Err::<HuskPackageView, _>(failed)));
                    assert(is_husk_loaded(Err::<MistHuskModule, _>(failed)));
                }
                Err(failed)
            },
            Ok(package) => {
                let module = MistHuskModule { guest, package };
                proof {
                    assert(module.crossings() == c2);
                    assert(module.live() == Seq::<GuestBuffer>::empty());
                    assert(is_husk_description_read(got, Ok(module.package())));
                    assert(is_husk_loaded(Ok(module)));
                }
                Ok(module)
            },
        }
    }

    /// Runs the package on an input and hands back the text of its output. The run is one
    /// round trip; the functions are called under the names that the description gives,
    /// else under the fixed names. Every buffer that the run caused to exist has been handed
    /// back when this returns.
    pub fn generate(&mut self, input: &str) -> (r: Result<String, HostError>)
        ensures
            final(self).live() == old(self).live(),
            final(self).package() == old(self).package(),
            grown(old(self).crossings(), final(self).crossings()),
            exists|got: Result<Seq<u8>, HostError>|
                is_exchanged(
                    name_or(old(self).package().function_generate, "__mistletoe_generate"@),
                    name_or(old(self).package().function_alloc, "__mistletoe_alloc"@),
                    name_or(old(self).package().function_dealloc, "__mistletoe_dealloc"@),
                    input.spec_bytes(),
                    since(old(self).crossings(), final(self).crossings()),
                    got,
                ) && is_text(got, r),
            input.spec_bytes().len() > i32::MAX ==> r is Err && r->Err_0 is InputTooLarge,
    {
        let names = EntryNames {
            generate: name_or_fixed(&self.package.function_generate, "__mistletoe_generate"),
            alloc: name_or_fixed(&self.package.function_alloc, "__mistletoe_alloc"),
            dealloc: name_or_fixed(&self.package.function_dealloc, "__mistletoe_dealloc"),
        };
        let outcome = self.guest.exchange(&names, input);
        let ghost got = bytes_view(outcome);
        let payload = match outcome {
            Err(e) => {
                proof {
                    assert(is_text(got, Err::<String, _>(e)));
                }
                return Err(e);
            },
            Ok(payload) => payload,
        };
        let r = payload_text(payload);
        proof {
            assert(is_text(got, r));
        }
        r
    }
}

} // verus!
