//! A loaded package and the calls across its boundary.
//!
//! The package runs in `wasmer`. The host hands text in and takes text out through the
//! linear memory of the package: a buffer that crosses the boundary is owned by the
//! package, and the host releases every buffer that it caused to exist. [`Guest`] keeps
//! account of those buffers and a record of every crossing of the boundary, with what was
//! asked and what came back. [`Guest::exchange`] is proved to make the crossings of one
//! round trip, in their order, and to leave no buffer behind. What the package answers is
//! up to the package: the contracts say what the host does with each answer.

use vstd::prelude::*;
use vstd::slice::*;
use vstd::string::*;
use vstd::utf8::{decode_utf8, valid_utf8};

verus! {

#[verifier::external_type_specification]
#[verifier::external_body]
pub struct ExStore(wasmer::Store);

#[verifier::external_type_specification]
#[verifier::external_body]
pub struct ExModule(wasmer::Module);

#[verifier::external_type_specification]
#[verifier::external_body]
pub struct ExInstance(wasmer::Instance);

/// What went wrong in a call across the boundary; each message is that of `wasmer`.
#[derive(Debug)]
pub enum GuestFault {
    /// The package does not export the name, or exports it with another type.
    Export(String),
    /// The package stopped with a runtime error.
    Trap(String),
    /// An access fell outside the memory of the package.
    Memory(String),
}

/// The names under which a package exports the functions that the host calls.
pub struct EntryNames {
    pub generate: String,
    pub alloc: String,
    pub dealloc: String,
}

/// `wasmer::Store::new` on the default engine, with `BaseTunables` that make every memory
/// grow on demand: the default reserves the address space of the largest memory that a
/// package could ask for, which a machine with little address space cannot give.
#[verifier::external_body]
fn store_new() -> (r: wasmer::Store) {
    let mut engine = wasmer::Engine::default();
    let mut tunables = wasmer::sys::BaseTunables::for_target(
        wasmer::sys::NativeEngineExt::target(&engine),
    );
    tunables.static_memory_bound = wasmer::Pages(0);
    wasmer::sys::NativeEngineExt::set_tunables(&mut engine, tunables);
    wasmer::Store::new(engine)
}

/// `wasmer::Module::new`: compiles the artifact. Whether it succeeds depends on the bytes
/// and on the engine; the message is the compiler's.
#[verifier::external_body]
fn module_new(store: &wasmer::Store, bytes: &[u8]) -> (r: Result<wasmer::Module, String>) {
    wasmer::Module::new(store, bytes).map_err(|e| e.to_string())
}

/// `wasmer::Instance::new` with an empty set of imports.
#[verifier::external_body]
fn instance_new(store: &mut wasmer::Store, module: &wasmer::Module) -> (r: Result<
    wasmer::Instance,
    String,
>) {
    wasmer::Instance::new(store, module, &wasmer::Imports::new()).map_err(|e| e.to_string())
}

/// `Exports::get_typed_function` and `TypedFunction::call`, for a function without
/// arguments that returns one `i32`. What it returns is up to the package. The fault is
/// `Export` where the lookup failed and `Trap` where the call did.
#[verifier::external_body]
fn call_to_word(store: &mut wasmer::Store, instance: &wasmer::Instance, name: &str) -> (r: Result<
    i32,
    GuestFault,
>)
    ensures
        r matches Err(f) ==> f is Export || f is Trap,
{
    let f: Result<wasmer::TypedFunction<(), i32>, _> = instance.exports.get_typed_function(
        store,
        name,
    );
    match f {
        Err(e) => Err(GuestFault::Export(e.to_string())),
        Ok(f) => f.call(store).map_err(|e| GuestFault::Trap(e.to_string())),
    }
}

/// `Exports::get_typed_function` and `TypedFunction::call`, for a function from one `i32`
/// to one `i32`. What it returns is up to the package. The fault is `Export` where the
/// lookup failed and `Trap` where the call did.
#[verifier::external_body]
fn call_word_to_word(
    store: &mut wasmer::Store,
    instance: &wasmer::Instance,
    name: &str,
    a: i32,
) -> (r: Result<i32, GuestFault>)
    ensures
        r matches Err(f) ==> f is Export || f is Trap,
{
    let f: Result<wasmer::TypedFunction<i32, i32>, _> = instance.exports.get_typed_function(
        store,
        name,
    );
    match f {
        Err(e) => Err(GuestFault::Export(e.to_string())),
        Ok(f) => f.call(store, a).map_err(|e| GuestFault::Trap(e.to_string())),
    }
}

/// `Exports::get_typed_function` and `TypedFunction::call`, for a function from two `i32`
/// to one `i32`. What it returns is up to the package. The fault is `Export` where the
/// lookup failed and `Trap` where the call did.
#[verifier::external_body]
fn call_pair_to_word(
    store: &mut wasmer::Store,
    instance: &wasmer::Instance,
    name: &str,
    a: i32,
    b: i32,
) -> (r: Result<i32, GuestFault>)
    ensures
        r matches Err(f) ==> f is Export || f is Trap,
{
    let f: Result<wasmer::TypedFunction<(i32, i32), i32>, _> =
        instance.exports.get_typed_function(store, name);
    match f {
        Err(e) => Err(GuestFault::Export(e.to_string())),
        Ok(f) => f.call(store, a, b).map_err(|e| GuestFault::Trap(e.to_string())),
    }
}

/// `Exports::get_typed_function` and `TypedFunction::call`, for a function from two `i32`
/// that returns nothing.
#[verifier::external_body]
fn call_pair(
    store: &mut wasmer::Store,
    instance: &wasmer::Instance,
    name: &str,
    a: i32,
    b: i32,
) -> (r: Result<(), GuestFault>) {
    let f: Result<wasmer::TypedFunction<(i32, i32), ()>, _> =
        instance.exports.get_typed_function(store, name);
    match f {
        Err(e) => Err(GuestFault::Export(e.to_string())),
        Ok(f) => f.call(store, a, b).map_err(|e| GuestFault::Trap(e.to_string())),
    }
}

/// `Exports::get_memory` and `MemoryView::read`: `len` bytes at `offset`. Which bytes they
/// are is up to the package; there are `len` of them. The fault is `Export` where the
/// memory was not found and `Memory` where the read failed.
#[verifier::external_body]
fn memory_read(
    store: &wasmer::Store,
    instance: &wasmer::Instance,
    memory: &str,
    offset: u64,
    len: usize,
) -> (r: Result<Vec<u8>, GuestFault>)
    ensures
        r matches Ok(bytes) ==> bytes@.len() == len,
        r matches Err(f) ==> f is Export || f is Memory,
{
    let mut buf = vec![0u8; len];
    match instance.exports.get_memory(memory) {
        Err(e) => Err(GuestFault::Export(e.to_string())),
        Ok(m) => match m.view(store).read(offset, &mut buf) {
            Err(e) => Err(GuestFault::Memory(e.to_string())),
            Ok(()) => Ok(buf),
        },
    }
}

/// `Exports::get_memory` and `MemoryView::write`: the bytes go to `offset`. The fault is
/// `Export` where the memory was not found and `Memory` where the write failed.
#[verifier::external_body]
fn memory_write(
    store: &wasmer::Store,
    instance: &wasmer::Instance,
    memory: &str,
    offset: u64,
    bytes: &[u8],
) -> (r: Result<(), GuestFault>)
    ensures
        r matches Err(f) ==> f is Export || f is Memory,
{
    match instance.exports.get_memory(memory) {
        Err(e) => Err(GuestFault::Export(e.to_string())),
        Ok(m) => m.view(store).write(offset, bytes).map_err(|e| GuestFault::Memory(e.to_string())),
    }
}

/// `String::from_utf8` of the standard library: the text that the bytes encode, where they
/// are UTF-8.
#[verifier::external_body]
pub(crate) fn text_of_bytes(bytes: Vec<u8>) -> (r: Option<String>)
    ensures
        match r {
            Some(s) => valid_utf8(bytes@) && s@ == decode_utf8(bytes@),
            None => !valid_utf8(bytes@),
        },
{
    String::from_utf8(bytes).ok()
}

/// A buffer in the memory of the package.
pub struct GuestBuffer {
    pub ptr: int,
    pub len: int,
}

/// Why a run of the host failed.
#[derive(Debug)]
pub enum HostError {
    /// The artifact could not be compiled or instantiated.
    Load(String),
    /// The package lacks an export, or exports it with another type.
    Export(String),
    /// The package stopped with a runtime error.
    Trap(String),
    /// A read or write fell outside the memory of the package.
    Memory(String),
    /// The input has more bytes than a 32-bit length can say.
    InputTooLarge,
    /// A descriptor names a negative address or length.
    BadDescriptor,
    /// The payload is no UTF-8; it is kept as it came.
    InvalidUtf8(Vec<u8>),
    /// The payload is no document of the kind expected; it is kept as it came, with what the
    /// reader said.
    InvalidEnvelope(String, String),
}

impl HostError {
    /// The text shown to the user.
    pub fn message(&self) -> (r: String)
        ensures
            match *self {
                HostError::Load(m) => r@ == m@,
                HostError::Export(m) => r@ == m@,
                HostError::Trap(m) => r@ == m@,
                HostError::Memory(m) => r@ == m@,
                HostError::InputTooLarge => r@ == "the input is too large to hand to the package"@,
                HostError::BadDescriptor => r@
                    == "the package returned a descriptor with a negative address or length"@,
                HostError::InvalidUtf8(_) => r@
                    == "the package returned a payload that is not valid UTF-8"@,
                HostError::InvalidEnvelope(payload, detail) => r@
                    == "the package returned a malformed document: "@ + detail@ + "\n"@
                    + payload@,
            },
    {
        match self {
            HostError::Load(m) => m.clone(),
            HostError::Export(m) => m.clone(),
            HostError::Trap(m) => m.clone(),
            HostError::Memory(m) => m.clone(),
            HostError::InputTooLarge => String::from_str(
                "the input is too large to hand to the package",
            ),
            HostError::BadDescriptor => String::from_str(
                "the package returned a descriptor with a negative address or length",
            ),
            HostError::InvalidUtf8(_) => String::from_str(
                "the package returned a payload that is not valid UTF-8",
            ),
            HostError::InvalidEnvelope(payload, detail) => {
                let mut r = String::from_str("the package returned a malformed document: ");
                r.append(detail.as_str());
                r.append("\n");
                r.append(payload.as_str());
                r
            },
        }
    }
}

/// The fault as an error of the host.
pub fn host_error(fault: GuestFault) -> (r: HostError)
    ensures
        match fault {
            GuestFault::Export(m) => r == HostError::Export(m),
            GuestFault::Trap(m) => r == HostError::Trap(m),
            GuestFault::Memory(m) => r == HostError::Memory(m),
        },
{
    match fault {
        GuestFault::Export(m) => HostError::Export(m),
        GuestFault::Trap(m) => HostError::Trap(m),
        GuestFault::Memory(m) => HostError::Memory(m),
    }
}

/// The 32-bit word that four bytes hold, lowest byte first, as a signed number.
pub open spec fn le_word(b0: u8, b1: u8, b2: u8, b3: u8) -> int {
    let w = b0 as int + 256 * (b1 as int) + 65536 * (b2 as int) + 16777216 * (b3 as int);
    if w >= 0x8000_0000 {
        w - 0x1_0000_0000
    } else {
        w
    }
}

/// The address and the length that a descriptor holds: two words, lowest byte first.
pub open spec fn descriptor_of(bytes: Seq<u8>) -> (int, int)
    recommends
        bytes.len() == 8,
{
    (
        le_word(bytes[0], bytes[1], bytes[2], bytes[3]),
        le_word(bytes[4], bytes[5], bytes[6], bytes[7]),
    )
}

/// Decodes one word, lowest byte first.
pub fn decode_word(b0: u8, b1: u8, b2: u8, b3: u8) -> (r: i32)
    ensures
        r == le_word(b0, b1, b2, b3),
{
    let w: u64 = (b0 as u64) + 256 * (b1 as u64) + 65536 * (b2 as u64) + 16777216 * (b3 as u64);
    if w >= 0x8000_0000 {
        let back: u64 = 0x1_0000_0000 - w;
        if back == 0x8000_0000 {
            i32::MIN
        } else {
            let small: i32 = back as i32;
            -small
        }
    } else {
        w as i32
    }
}

/// Decodes a descriptor: the address and the length of a buffer.
pub(crate) fn decode_descriptor(bytes: &Vec<u8>) -> (r: (i32, i32))
    requires
        bytes.len() == 8,
    ensures
        (r.0 as int, r.1 as int) == descriptor_of(bytes@),
{
    (
        decode_word(bytes[0], bytes[1], bytes[2], bytes[3]),
        decode_word(bytes[4], bytes[5], bytes[6], bytes[7]),
    )
}

/// One crossing of the boundary between the host and a package: what the host asked for,
/// and what came back.
#[allow(inconsistent_fields)]
pub enum Crossing {
    /// The package was asked where its description lies.
    Ask { name: Seq<char>, outcome: Result<i32, HostError> },
    /// The package was asked for a buffer of `len` bytes.
    Acquire { name: Seq<char>, len: int, outcome: Result<i32, HostError> },
    /// The package was run on the input of `len` bytes at `ptr`.
    Run { name: Seq<char>, ptr: int, len: int, outcome: Result<i32, HostError> },
    /// The buffer was handed back. Whether the package took it is not looked at.
    Release { name: Seq<char>, ptr: int, len: int },
    /// `len` bytes were copied out of the memory of the package.
    Read { ptr: int, len: int, outcome: Result<Seq<u8>, HostError> },
    /// Bytes were copied into the memory of the package.
    Write { ptr: int, bytes: Seq<u8>, outcome: Result<(), HostError> },
}

/// The crossings that were made after those of `before`.
pub open spec fn since(before: Seq<Crossing>, after: Seq<Crossing>) -> Seq<Crossing> {
    after.skip(before.len() as int)
}

/// Whether `after` is `before` with more crossings behind it: nothing is taken back.
pub open spec fn grown(before: Seq<Crossing>, after: Seq<Crossing>) -> bool {
    after == before + since(before, after)
}

pub open spec fn bytes_view(r: Result<Vec<u8>, HostError>) -> Result<Seq<u8>, HostError> {
    match r {
        Ok(bytes) => Ok(bytes@),
        Err(e) => Err(e),
    }
}

/// The crossings of copying `len` bytes out at `ptr`, and what they give: a negative
/// address or length is refused without a crossing; else the memory is read once.
pub open spec fn is_read(ptr: int, len: int, made: Seq<Crossing>, r: Result<Seq<u8>, HostError>) -> bool {
    if ptr < 0 || len < 0 {
        made.len() == 0 && r == Err::<Seq<u8>, _>(HostError::BadDescriptor)
    } else {
        made == seq![Crossing::Read { ptr, len, outcome: r }] && (match r {
            Ok(bytes) => bytes.len() == len,
            Err(e) => e is Export || e is Memory,
        })
    }
}

/// The crossings of copying bytes in at `ptr`: a negative address is refused without a
/// crossing; else the memory is written once.
pub open spec fn is_written(ptr: int, bytes: Seq<u8>, made: Seq<Crossing>, r: Result<(), HostError>) -> bool {
    if ptr < 0 {
        made.len() == 0 && r == Err::<(), _>(HostError::BadDescriptor)
    } else {
        made == seq![Crossing::Write { ptr, bytes, outcome: r }] && (match r {
            Ok(_) => true,
            Err(e) => e is Export || e is Memory,
        })
    }
}

/// The crossings of taking over the payload that the descriptor at `desc` names: the eight
/// bytes of the descriptor are read, and the address and length in them are the result
/// unless one of them is negative.
pub open spec fn is_taken(desc: int, made: Seq<Crossing>, r: Result<(i32, i32), HostError>) -> bool {
    if desc < 0 {
        made.len() == 0 && r == Err::<(i32, i32), _>(HostError::BadDescriptor)
    } else {
        made.len() == 1 && (match made[0] {
            Crossing::Read { ptr, len, outcome } => ptr == desc && len == 8 && (match outcome {
                Err(e) => r == Err::<(i32, i32), _>(e) && (e is Export || e is Memory),
                Ok(bytes) => bytes.len() == 8 && (match r {
                    Ok((p, l)) => p >= 0 && l >= 0 && (p as int, l as int) == descriptor_of(bytes),
                    Err(e) => e is BadDescriptor && (descriptor_of(bytes).0 < 0 || descriptor_of(
                        bytes,
                    ).1 < 0),
                }),
            }),
            _ => false,
        })
    }
}

/// The crossings of reading what the descriptor at `desc` names, without taking anything
/// over: the descriptor is read, then the bytes that it names.
pub open spec fn is_described(desc: int, made: Seq<Crossing>, r: Result<Seq<u8>, HostError>) -> bool {
    if desc < 0 {
        made.len() == 0 && r == Err::<Seq<u8>, _>(HostError::BadDescriptor)
    } else {
        made.len() >= 1 && (match made[0] {
            Crossing::Read { ptr, len, outcome } => ptr == desc && len == 8 && (match outcome {
                Err(e) => made.len() == 1 && r == Err::<Seq<u8>, _>(e) && (e is Export
                    || e is Memory),
                Ok(bytes) => bytes.len() == 8 && is_read(
                    descriptor_of(bytes).0,
                    descriptor_of(bytes).1,
                    made.skip(1),
                    r,
                ),
            }),
            _ => false,
        })
    }
}

/// The crossings of asking a package for its description: the package is asked where the
/// description lies, and what the descriptor there names is read.
pub open spec fn is_description(made: Seq<Crossing>, r: Result<Seq<u8>, HostError>) -> bool {
    made.len() >= 1 && (match made[0] {
        Crossing::Ask { name, outcome } => name == "__mistletoe_info"@ && (match outcome {
            Err(e) => made.len() == 1 && r == Err::<Seq<u8>, _>(e) && (e is Export || e is Trap),
            Ok(at) => is_described(at as int, made.skip(1), r),
        }),
        _ => false,
    })
}

/// The crossings of copying out the payload that the descriptor at `desc` names: the
/// descriptor is read, the payload is taken over and read, and the payload is handed back,
/// whether the read gave its bytes or not.
pub open spec fn is_collected(
    dealloc: Seq<char>,
    desc: int,
    made: Seq<Crossing>,
    r: Result<Seq<u8>, HostError>,
) -> bool {
    if desc < 0 {
        made.len() == 0 && r == Err::<Seq<u8>, _>(HostError::BadDescriptor)
    } else {
        made.len() >= 1 && (match made[0] {
            Crossing::Read { ptr, len, outcome } => ptr == desc && len == 8 && (match outcome {
                Err(e) => made.len() == 1 && r == Err::<Seq<u8>, _>(e) && (e is Export
                    || e is Memory),
                Ok(bytes) => bytes.len() == 8 && ({
                    let at = descriptor_of(bytes).0;
                    let size = descriptor_of(bytes).1;
                    if at < 0 || size < 0 {
                        made.len() == 1 && r == Err::<Seq<u8>, _>(HostError::BadDescriptor)
                    } else {
                        made.len() == 3 && is_read(at, size, made.subrange(1, 2), r) && made[2]
                            == (Crossing::Release { name: dealloc, ptr: at, len: size })
                    }
                }),
            }),
            _ => false,
        })
    }
}

/// The crossings of a round trip once the buffer for the input is there, at `at` and of
/// `size` bytes: the input is written, the package is run, the payload is collected, and
/// the descriptor is handed back.
pub open spec fn is_exchanged_at(
    generate: Seq<char>,
    dealloc: Seq<char>,
    input: Seq<u8>,
    at: int,
    size: int,
    made: Seq<Crossing>,
    r: Result<Seq<u8>, HostError>,
) -> bool {
    if at < 0 {
        made.len() == 0 && r == Err::<Seq<u8>, _>(HostError::BadDescriptor)
    } else {
        made.len() >= 1 && (match made[0] {
            Crossing::Write { ptr, bytes, outcome } => ptr == at && bytes == input && (match outcome {
                Err(e) => made.len() == 1 && r == Err::<Seq<u8>, _>(e) && (e is Export
                    || e is Memory),
                Ok(_) => made.len() >= 2 && (match made[1] {
                    Crossing::Run { name, ptr, len, outcome } => name == generate && ptr == at
                        && len == size && (match outcome {
                        Err(e) => made.len() == 2 && r == Err::<Seq<u8>, _>(e) && (e is Export
                            || e is Trap),
                        Ok(desc) => made.len() >= 3 && made.last() == (Crossing::Release {
                            name: dealloc,
                            ptr: desc as int,
                            len: 8,
                        }) && is_collected(
                            dealloc,
                            desc as int,
                            made.subrange(2, made.len() - 1),
                            r,
                        ),
                    }),
                    _ => false,
                }),
            }),
            _ => false,
        })
    }
}

/// The crossings of one round trip, and what it gives. An input of more bytes than a 32-bit
/// length can say is refused without a crossing. Else the package is asked for a buffer of
/// the length of the input; with the buffer the round trip goes on, and the buffer is
/// handed back last, after the payload and the descriptor.
pub open spec fn is_exchanged(
    generate: Seq<char>,
    alloc: Seq<char>,
    dealloc: Seq<char>,
    input: Seq<u8>,
    made: Seq<Crossing>,
    r: Result<Seq<u8>, HostError>,
) -> bool {
    if input.len() > i32::MAX {
        made.len() == 0 && r == Err::<Seq<u8>, _>(HostError::InputTooLarge)
    } else {
        made.len() >= 1 && (match made[0] {
            Crossing::Acquire { name, len, outcome } => name == alloc && len == input.len()
                && (match outcome {
                Err(e) => made.len() == 1 && r == Err::<Seq<u8>, _>(e) && (e is Export
                    || e is Trap),
                Ok(at) => made.len() >= 2 && made.last() == (Crossing::Release {
                    name: dealloc,
                    ptr: at as int,
                    len: input.len() as int,
                }) && is_exchanged_at(
                    generate,
                    dealloc,
                    input,
                    at as int,
                    input.len() as int,
                    made.subrange(1, made.len() - 1),
                    r,
                ),
            }),
            _ => false,
        })
    }
}

/// What was made after `before`, where more was made behind it.
pub(crate) proof fn lemma_since(before: Seq<Crossing>, more: Seq<Crossing>)
    ensures
        since(before, before + more) == more,
        grown(before, before + more),
{
    assert(since(before, before + more) =~= more);
}

/// Crossings that grow twice have grown by both parts.
pub(crate) proof fn lemma_grown_twice(a: Seq<Crossing>, b: Seq<Crossing>, c: Seq<Crossing>)
    requires
        grown(a, b),
        grown(b, c),
    ensures
        grown(a, c),
        since(a, c) == since(a, b) + since(b, c),
{
    assert(c =~= a + (since(a, b) + since(b, c)));
    assert(since(a, c) =~= since(a, b) + since(b, c));
}

/// A loaded package, with the account of the buffers that the host has caused to exist in
/// its memory and has not released yet, and the record of the crossings that the host has
/// made. Account and record are kept for the proofs alone: each is brought up to date where
/// the crossing is made, and neither is there when the program runs.
pub struct Guest {
    store: wasmer::Store,
    instance: wasmer::Instance,
    live: Ghost<Seq<GuestBuffer>>,
    crossings: Ghost<Seq<Crossing>>,
}

impl Guest {
    /// The buffers that the host has caused to exist and not released, oldest first.
    pub closed spec fn live(&self) -> Seq<GuestBuffer> {
        self.live@
    }

    /// The crossings that the host has made, oldest first.
    pub closed spec fn crossings(&self) -> Seq<Crossing> {
        self.crossings@
    }

    /// Compiles and instantiates an artifact. No buffer is owed yet and no crossing made;
    /// an artifact that cannot be compiled or instantiated is a load error.
    pub fn instantiate(wasm: &[u8]) -> (r: Result<Guest, HostError>)
        ensures
            match r {
                Ok(g) => g.live() == Seq::<GuestBuffer>::empty() && g.crossings() == Seq::<
                    Crossing,
                >::empty(),
                Err(e) => e is Load,
            },
    {
        let mut store = store_new();
        let module = match module_new(&store, wasm) {
            Err(m) => { return Err(HostError::Load(m)); },
            Ok(module) => module,
        };
        match instance_new(&mut store, &module) {
            Err(m) => Err(HostError::Load(m)),
            Ok(instance) => Ok(
                Guest {
                    store,
                    instance,
                    live: Ghost(Seq::empty()),
                    crossings: Ghost(Seq::empty()),
                },
            ),
        }
    }

    /// Asks the package for a buffer of `len` bytes, by the function of the given name. The
    /// buffer is owed from now on.
    pub(crate) fn acquire(&mut self, name: &str, len: i32) -> (r: Result<i32, HostError>)
        ensures
            final(self).crossings() == old(self).crossings().push(
                Crossing::Acquire { name: name@, len: len as int, outcome: r },
            ),
            match r {
                Ok(ptr) => final(self).live() == old(self).live().push(
                    GuestBuffer { ptr: ptr as int, len: len as int },
                ),
                Err(e) => final(self).live() == old(self).live() && (e is Export || e is Trap),
            },
    {
        let r = match call_word_to_word(&mut self.store, &self.instance, name, len) {
            Err(f) => Err(host_error(f)),
            Ok(ptr) => Ok(ptr),
        };
        self.crossings = Ghost(
            self.crossings@.push(Crossing::Acquire { name: name@, len: len as int, outcome: r }),
        );
        match r {
            Ok(ptr) => {
                self.live = Ghost(self.live@.push(GuestBuffer { ptr: ptr as int, len: len as int }));
            },
            Err(_) => {},
        }
        r
    }

    /// Hands the buffer that was acquired last back to the package, by the function of the
    /// given name. A package that fails to take it back is left alone: the buffer is no
    /// longer owed either way.
    pub(crate) fn release(&mut self, name: &str, ptr: i32, len: i32)
        requires
            old(self).live().len() > 0,
            old(self).live().last() == (GuestBuffer { ptr: ptr as int, len: len as int }),
        ensures
            final(self).live() == old(self).live().drop_last(),
            final(self).crossings() == old(self).crossings().push(
                Crossing::Release { name: name@, ptr: ptr as int, len: len as int },
            ),
    {
        let _ = call_pair(&mut self.store, &self.instance, name, ptr, len);
        self.live = Ghost(self.live@.drop_last());
        self.crossings = Ghost(
            self.crossings@.push(
                Crossing::Release { name: name@, ptr: ptr as int, len: len as int },
            ),
        );
    }

    /// Runs the package on the input of `len` bytes at `ptr`, by the function of the given
    /// name. The descriptor that it returns, eight bytes, is owed from now on.
    pub(crate) fn run(&mut self, name: &str, ptr: i32, len: i32) -> (r: Result<i32, HostError>)
        ensures
            final(self).crossings() == old(self).crossings().push(
                Crossing::Run { name: name@, ptr: ptr as int, len: len as int, outcome: r },
            ),
            match r {
                Ok(desc) => final(self).live() == old(self).live().push(
                    GuestBuffer { ptr: desc as int, len: 8 },
                ),
                Err(e) => final(self).live() == old(self).live() && (e is Export || e is Trap),
            },
    {
        let r = match call_pair_to_word(&mut self.store, &self.instance, name, ptr, len) {
            Err(f) => Err(host_error(f)),
            Ok(desc) => Ok(desc),
        };
        self.crossings = Ghost(
            self.crossings@.push(
                Crossing::Run { name: name@, ptr: ptr as int, len: len as int, outcome: r },
            ),
        );
        match r {
            Ok(desc) => {
                self.live = Ghost(self.live@.push(GuestBuffer { ptr: desc as int, len: 8 }));
            },
            Err(_) => {},
        }
        r
    }

    /// Asks the package where its description lies, by the function `__mistletoe_info`. The
    /// description is part of the package and owed to nobody.
    pub(crate) fn info_address(&mut self) -> (r: Result<i32, HostError>)
        ensures
            final(self).crossings() == old(self).crossings().push(
                Crossing::Ask { name: "__mistletoe_info"@, outcome: r },
            ),
            final(self).live() == old(self).live(),
            r matches Err(e) ==> e is Export || e is Trap,
    {
        let r = match call_to_word(&mut self.store, &self.instance, "__mistletoe_info") {
            Err(f) => Err(host_error(f)),
            Ok(ptr) => Ok(ptr),
        };
        self.crossings = Ghost(
            self.crossings@.push(Crossing::Ask { name: "__mistletoe_info"@, outcome: r }),
        );
        r
    }

    /// Copies `len` bytes out of the memory of the package. A negative address or length is
    /// refused before the memory is touched.
    pub(crate) fn read(&mut self, ptr: i32, len: i32) -> (r: Result<Vec<u8>, HostError>)
        ensures
            grown(old(self).crossings(), final(self).crossings()),
            is_read(
                ptr as int,
                len as int,
                since(old(self).crossings(), final(self).crossings()),
                bytes_view(r),
            ),
            final(self).live() == old(self).live(),
    {
        if ptr < 0 || len < 0 {
            proof {
                lemma_since(self.crossings(), Seq::empty());
                assert(self.crossings() + Seq::<Crossing>::empty() =~= self.crossings());
            }
            return Err(HostError::BadDescriptor);
        }
        let r = match memory_read(&self.store, &self.instance, "memory", ptr as u64, len as usize) {
            Err(f) => Err(host_error(f)),
            Ok(bytes) => Ok(bytes),
        };
        let ghost made = seq![
            Crossing::Read { ptr: ptr as int, len: len as int, outcome: bytes_view(r) },
        ];
        proof {
            lemma_since(self.crossings(), made);
        }
        self.crossings = Ghost(self.crossings@ + made);
        r
    }

    /// Copies bytes into the memory of the package. A negative address is refused before
    /// the memory is touched.
    pub(crate) fn write(&mut self, ptr: i32, bytes: &[u8]) -> (r: Result<(), HostError>)
        ensures
            grown(old(self).crossings(), final(self).crossings()),
            is_written(
                ptr as int,
                bytes@,
                since(old(self).crossings(), final(self).crossings()),
                r,
            ),
            final(self).live() == old(self).live(),
    {
        if ptr < 0 {
            proof {
                lemma_since(self.crossings(), Seq::empty());
                assert(self.crossings() + Seq::<Crossing>::empty() =~= self.crossings());
            }
            return Err(HostError::BadDescriptor);
        }
        let r = match memory_write(&self.store, &self.instance, "memory", ptr as u64, bytes) {
            Err(f) => Err(host_error(f)),
            Ok(()) => Ok(()),
        };
        let ghost made = seq![Crossing::Write { ptr: ptr as int, bytes: bytes@, outcome: r }];
        proof {
            lemma_since(self.crossings(), made);
        }
        self.crossings = Ghost(self.crossings@ + made);
        r
    }

    /// Reads the descriptor at `desc` and takes over the payload that it names: the payload
    /// is owed from now on. A descriptor that names a negative address or length is refused.
    pub(crate) fn take_payload(&mut self, desc: i32) -> (r: Result<(i32, i32), HostError>)
        ensures
            grown(old(self).crossings(), final(self).crossings()),
            is_taken(desc as int, since(old(self).crossings(), final(self).crossings()), r),
            match r {
                Ok((ptr, len)) => ptr >= 0 && len >= 0 && final(self).live() == old(self).live().push(
                    GuestBuffer { ptr: ptr as int, len: len as int },
                ),
                Err(_) => final(self).live() == old(self).live(),
            },
    {
        let bytes = match self.read(desc, 8) {
            Err(e) => { return Err(e); },
            Ok(bytes) => bytes,
        };
        let (ptr, len) = decode_descriptor(&bytes);
        if ptr < 0 || len < 0 {
            return Err(HostError::BadDescriptor);
        }
        self.live = Ghost(self.live@.push(GuestBuffer { ptr: ptr as int, len: len as int }));
        Ok((ptr, len))
    }

    /// Reads what the descriptor at `desc` names, without taking anything over: first the
    /// eight bytes of the descriptor, then the bytes at the address and of the length that
    /// they hold.
    pub(crate) fn read_described(&mut self, desc: i32) -> (r: Result<Vec<u8>, HostError>)
        ensures
            grown(old(self).crossings(), final(self).crossings()),
            is_described(
                desc as int,
                since(old(self).crossings(), final(self).crossings()),
                bytes_view(r),
            ),
            final(self).live() == old(self).live(),
    {
        let ghost c0 = self.crossings();
        let bytes = match self.read(desc, 8) {
            Err(e) => { return Err(e); },
            Ok(bytes) => bytes,
        };
        let ghost c1 = self.crossings();
        let (ptr, len) = decode_descriptor(&bytes);
        let r = self.read(ptr, len);
        proof {
            let c2 = self.crossings();
            lemma_grown_twice(c0, c1, c2);
            assert(since(c0, c2).skip(1) =~= since(c1, c2));
        }
        r
    }

    /// One round trip: hands the input to the package, runs it, and copies the payload out.
    ///
    /// Three buffers come to exist on the way: the copy of the input, the descriptor of the
    /// output, and the payload. Each is handed back once the host has copied what it needs,
    /// the payload first, then the descriptor, then the input; and each is handed back on
    /// every way out, so that the account of owed buffers ends as it began.
    pub fn exchange(&mut self, names: &EntryNames, input: &str) -> (r: Result<Vec<u8>, HostError>)
        ensures
            final(self).live() == old(self).live(),
            grown(old(self).crossings(), final(self).crossings()),
            is_exchanged(
                names.generate@,
                names.alloc@,
                names.dealloc@,
                input.spec_bytes(),
                since(old(self).crossings(), final(self).crossings()),
                bytes_view(r),
            ),
            input.spec_bytes().len() > i32::MAX ==> r is Err && r->Err_0 is InputTooLarge,
    {
        let ghost c0 = self.crossings();
        let n: usize = input.as_bytes().len();
        if n > 0x7fff_ffff {
            proof {
                lemma_since(c0, Seq::empty());
                assert(c0 + Seq::<Crossing>::empty() =~= c0);
            }
            return Err(HostError::InputTooLarge);
        }
        let len: i32 = n as i32;
        let got = self.acquire(names.alloc.as_str(), len);
        let ghost c1 = self.crossings();
        proof {
            lemma_since(c0, seq![c1.last()]);
            assert(c1 =~= c0 + seq![c1.last()]);
        }
        let ptr = match got {
            Err(e) => { return Err(e); },
            Ok(ptr) => ptr,
        };
        let outcome = self.exchange_at(names, input, ptr, len);
        let ghost c2 = self.crossings();
        self.release(names.dealloc.as_str(), ptr, len);
        proof {
            let c3 = self.crossings();
            lemma_since(c2, seq![c3.last()]);
            assert(c3 =~= c2 + seq![c3.last()]);
            lemma_grown_twice(c0, c1, c2);
            lemma_grown_twice(c0, c2, c3);
            let made = since(c0, c3);
            assert(made =~= seq![c1.last()] + since(c1, c2) + seq![c3.last()]);
            assert(made.subrange(1, made.len() - 1) =~= since(c1, c2));
        }
        outcome
    }

    /// The round trip once the buffer for the input is there.
    fn exchange_at(&mut self, names: &EntryNames, input: &str, ptr: i32, len: i32) -> (r: Result<
        Vec<u8>,
        HostError,
    >)
        ensures
            final(self).live() == old(self).live(),
            grown(old(self).crossings(), final(self).crossings()),
            is_exchanged_at(
                names.generate@,
                names.dealloc@,
                input.spec_bytes(),
                ptr as int,
                len as int,
                since(old(self).crossings(), final(self).crossings()),
                bytes_view(r),
            ),
    {
        let ghost c0 = self.crossings();
        match self.write(ptr, input.as_bytes()) {
            Err(e) => { return Err(e); },
            Ok(()) => {},
        }
        let ghost c1 = self.crossings();
        let ran = self.run(names.generate.as_str(), ptr, len);
        let ghost c2 = self.crossings();
        proof {
            lemma_since(c1, seq![c2.last()]);
            assert(c2 =~= c1 + seq![c2.last()]);
            lemma_grown_twice(c0, c1, c2);
            assert(since(c0, c2) =~= since(c0, c1) + seq![c2.last()]);
        }
        let desc = match ran {
            Err(e) => { return Err(e); },
            Ok(desc) => desc,
        };
        let outcome = self.collect(names, desc);
        let ghost c3 = self.crossings();
        self.release(names.dealloc.as_str(), desc, 8);
        proof {
            let c4 = self.crossings();
            lemma_since(c3, seq![c4.last()]);
            assert(c4 =~= c3 + seq![c4.last()]);
            lemma_grown_twice(c0, c2, c3);
            lemma_grown_twice(c0, c3, c4);
            let made = since(c0, c4);
            assert(made =~= since(c0, c1) + seq![c2.last()] + since(c2, c3) + seq![c4.last()]);
            assert(made.subrange(2, made.len() - 1) =~= since(c2, c3));
        }
        outcome
    }

    /// Copies out the payload that the descriptor names, and hands the payload back.
    fn collect(&mut self, names: &EntryNames, desc: i32) -> (r: Result<Vec<u8>, HostError>)
        ensures
            final(self).live() == old(self).live(),
            grown(old(self).crossings(), final(self).crossings()),
            is_collected(
                names.dealloc@,
                desc as int,
                since(old(self).crossings(), final(self).crossings()),
                bytes_view(r),
            ),
    {
        let ghost c0 = self.crossings();
        let (ptr, len) = match self.take_payload(desc) {
            Err(e) => { return Err(e); },
            Ok(found) => found,
        };
        let ghost c1 = self.crossings();
        let outcome = self.read(ptr, len);
        let ghost c2 = self.crossings();
        self.release(names.dealloc.as_str(), ptr, len);
        proof {
            let c3 = self.crossings();
            lemma_since(c2, seq![c3.last()]);
            assert(c3 =~= c2 + seq![c3.last()]);
            lemma_grown_twice(c0, c1, c2);
            lemma_grown_twice(c0, c2, c3);
            let made = since(c0, c3);
            assert(made =~= since(c0, c1) + since(c1, c2) + seq![c3.last()]);
            assert(made.subrange(1, 2) =~= since(c1, c2));
        }
        outcome
    }
}

} // verus!
