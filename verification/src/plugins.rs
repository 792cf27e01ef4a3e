//! Community plugins: sandboxed, data-only WebAssembly transforms. A plugin
//! exports `memory`, `abi_version() -> i32` (which must be 1),
//! `alloc(len) -> ptr` and `transform(ptr, len) -> i64`, the result packing
//! the output pointer in its high 32 bits and the output length in its low
//! 32 bits. No host imports are linked and every call is fuel-metered. This
//! module runs that protocol over `wasmi` and decides which plugins are
//! listed, enabled and allowed to run; reading the plugin folders happens at
//! the application edge.
use vstd::prelude::*;
use vstd::string::StringSliceAdditionalSpecFns;
use vstd::utf8::{encode_utf8, valid_utf8};
use crate::text::{chars_of, eq_vec, push_all, push_str, string_of, trim, trim_vec};
use crate::bindings::{lex_less, lex_lt};
use crate::library::{to_lowercase, unicode_lower};

verus! {

/// Fuel a single plugin call may burn: generous for byte shuffling, but
/// finite, so an endless loop ends in an error instead of hanging.
pub const FUEL_BUDGET: u64 = 50_000_000;

/// The largest output a plugin may hand back (8 MiB).
pub const MAX_OUTPUT: u64 = 8388608;

/// The plugin ABI this engine speaks.
pub const ABI_VERSION: i32 = 1;

#[verifier::external_type_specification]
#[verifier::external_body]
pub struct ExWasmModule(wasmi::Module);

#[verifier::external_type_specification]
#[verifier::external_body]
#[verifier::reject_recursive_types(T)]
pub struct ExWasmStore<T>(wasmi::Store<T>);

#[verifier::external_type_specification]
#[verifier::external_body]
pub struct ExWasmInstance(wasmi::Instance);

#[verifier::external_type_specification]
#[verifier::external_body]
pub struct ExWasmError(wasmi::Error);

/// Whether `wasmi::Module::new` accepts `wasm` on an engine made from
/// `wasmi::Config::default()` with fuel metering turned on: the bytes parse
/// as a module (binary or text format) and pass wasmi's checks.
pub uninterp spec fn wasm_module_ok(wasm: Seq<u8>) -> bool;

/// `wasmi::Config::default()`, `Config::consume_fuel(true)`,
/// `wasmi::Engine::new` and `wasmi::Module::new`: compiles `wasm` for a
/// fuel-metered engine. Whether the bytes are accepted is named by
/// [`wasm_module_ok`]; nothing is said of the module itself.
#[verifier::external_body]
fn compile_module(wasm: &[u8]) -> (r: Result<wasmi::Module, wasmi::Error>)
    ensures
        r is Ok <==> wasm_module_ok(wasm@),
{
    let mut config = wasmi::Config::default();
    config.consume_fuel(true);
    wasmi::Module::new(&wasmi::Engine::new(&config), wasm)
}
/// Why a sandbox could not be started.
#[derive(Debug)]
pub enum StartFailure {
    /// Fuel could not be set (metering off), with wasmi's message.
    Fuel(String),
    /// Instantiation or the start function failed, with wasmi's message.
    Instantiation(String),
}

/// Why a call of an export failed.
#[derive(Debug)]
pub enum CallFailure {
    /// No export of that name and type.
    Missing,
    /// The call trapped or ran out of fuel, with wasmi's message.
    Trapped(String),
}

/// Why a memory access failed.
#[derive(Debug)]
pub enum MemoryFailure {
    /// No exported memory of that name.
    Missing,
    /// The range is out of bounds, with wasmi's message.
    Failed(String),
}

/// The running plugin: its store and the instance living in it, kept
/// together so that every access goes to the store that owns the instance
/// (wasmi panics on any other store).
struct Guest {
    store: wasmi::Store<()>,
    instance: wasmi::Instance,
}

impl Guest {
    /// `wasmi::Store::new` over the module's own engine, `Store::set_fuel`,
    /// then `Linker::new` over that same engine and
    /// `Linker::instantiate_and_start`: the store, linker and module share
    /// one engine, as `instantiate_and_start` demands. The linker defines no
    /// imports, so a module that imports anything fails to instantiate.
    #[verifier::external_body]
    fn start(module: &wasmi::Module, fuel: u64) -> (r: Result<Guest, StartFailure>) {
        let mut store = wasmi::Store::new(module.engine(), ());
        if let Err(e) = store.set_fuel(fuel) {
            return Err(StartFailure::Fuel(format!("{e}")));
        }
        match wasmi::Linker::<()>::new(module.engine()).instantiate_and_start(&mut store, module) {
            Ok(instance) => Ok(Guest { store, instance }),
            Err(e) => Err(StartFailure::Instantiation(format!("{e}"))),
        }
    }

    /// `Instance::get_typed_func::<(i32, i32), i64>` succeeds for `name`.
    #[verifier::external_body]
    fn has_pair_i64(&self, name: &str) -> (r: bool) {
        self.instance.get_typed_func::<(i32, i32), i64>(&self.store, name).is_ok()
    }

    /// `Instance::get_typed_func::<i32, i32>` succeeds for `name`.
    #[verifier::external_body]
    fn has_i32_i32(&self, name: &str) -> (r: bool) {
        self.instance.get_typed_func::<i32, i32>(&self.store, name).is_ok()
    }

    /// `Instance::get_memory` finds `name`.
    #[verifier::external_body]
    fn has_memory(&self, name: &str) -> (r: bool) {
        self.instance.get_memory(&self.store, name).is_some()
    }

    /// `get_typed_func::<(), i32>` for `name`, then `TypedFunc::call`.
    #[verifier::external_body]
    fn call_unit_i32(&mut self, name: &str) -> (r: Result<i32, CallFailure>) {
        match self.instance.get_typed_func::<(), i32>(&self.store, name) {
            Ok(f) => f.call(&mut self.store, ()).map_err(|e| CallFailure::Trapped(format!("{e}"))),
            Err(_) => Err(CallFailure::Missing),
        }
    }

    /// `get_typed_func::<i32, i32>` for `name`, then `TypedFunc::call` with `x`.
    #[verifier::external_body]
    fn call_i32_i32(&mut self, name: &str, x: i32) -> (r: Result<i32, CallFailure>) {
        match self.instance.get_typed_func::<i32, i32>(&self.store, name) {
            Ok(f) => f.call(&mut self.store, x).map_err(|e| CallFailure::Trapped(format!("{e}"))),
            Err(_) => Err(CallFailure::Missing),
        }
    }

    /// `get_typed_func::<(i32, i32), i64>` for `name`, then `TypedFunc::call`
    /// with `(x, y)`.
    #[verifier::external_body]
    fn call_pair_i64(&mut self, name: &str, x: i32, y: i32) -> (r: Result<i64, CallFailure>) {
        match self.instance.get_typed_func::<(i32, i32), i64>(&self.store, name) {
            Ok(f) => f.call(&mut self.store, (x, y)).map_err(|e| CallFailure::Trapped(format!("{e}"))),
            Err(_) => Err(CallFailure::Missing),
        }
    }

    /// `Instance::get_memory` for `name`, then `Memory::write` of `bytes` at
    /// `offset`; an error when the range is out of bounds.
    #[verifier::external_body]
    fn memory_write(&mut self, name: &str, offset: usize, bytes: &[u8]) -> (r: Result<(), MemoryFailure>) {
        match self.instance.get_memory(&self.store, name) {
            Some(m) => m.write(&mut self.store, offset, bytes).map_err(|e| MemoryFailure::Failed(format!("{e}"))),
            None => Err(MemoryFailure::Missing),
        }
    }

    /// `Instance::get_memory` for `name`, then `Memory::data_size`.
    #[verifier::external_body]
    fn memory_size(&self, name: &str) -> (r: Option<usize>) {
        self.instance.get_memory(&self.store, name).map(|m| m.data_size(&self.store))
    }

    /// `Instance::get_memory` for `name`, then `Memory::read` into a buffer
    /// of `len` bytes: on success the bytes read, exactly `len` of them.
    #[verifier::external_body]
    fn memory_read(&self, name: &str, offset: usize, len: usize) -> (r: Result<Vec<u8>, MemoryFailure>)
        ensures
            r matches Ok(v) ==> v.len() == len,
    {
        match self.instance.get_memory(&self.store, name) {
            Some(m) => {
                let mut buf = vec![0u8; len];
                m.read(&self.store, offset, &mut buf).map(|_| buf).map_err(|e| MemoryFailure::Failed(format!("{e}")))
            },
            None => Err(MemoryFailure::Missing),
        }
    }
}

/// One call the library made into a running plugin: what it handed over and
/// what came back.
pub enum GuestCall {
    /// `abi_version()`, and its result.
    AbiVersion(Result<i32, CallFailure>),
    /// Whether `alloc` is exported as `(i32) -> i32`.
    HasAlloc(bool),
    /// Whether `transform` is exported as `(i32, i32) -> i64`.
    HasTransform(bool),
    /// Whether `memory` is exported.
    HasMemory(bool),
    /// `alloc(len)`, and its result.
    Alloc(i32, Result<i32, CallFailure>),
    /// Writing bytes into `memory` at an offset, and the outcome.
    Write(usize, Seq<u8>, Result<(), MemoryFailure>),
    /// `transform(ptr, len)`, and its result.
    Transform(i32, i32, Result<i64, CallFailure>),
    /// The size of `memory` in bytes, where it is exported.
    MemorySize(Option<usize>),
    /// Reading `len` bytes of `memory` at an offset, and what was read.
    Read(usize, usize, Result<Seq<u8>, MemoryFailure>),
}

/// What a read of the plugin's memory gave, by value.
pub open spec fn read_view(r: Result<Vec<u8>, MemoryFailure>) -> Result<Seq<u8>, MemoryFailure> {
    match r {
        Ok(v) => Ok(v@),
        Err(e) => Err(e),
    }
}

/// One instantiated plugin, with the record of every call made into it.
/// Only [`WasmSandbox::start`] makes one, and the plugin is reached only
/// through the methods below, each of which records its call.
pub struct WasmSandbox {
    guest: Guest,
    log: Ghost<Seq<GuestCall>>,
}

impl WasmSandbox {
    /// Every call made into the plugin so far, oldest first.
    pub closed spec fn calls(&self) -> Seq<GuestCall> {
        self.log@
    }

    /// Instantiates `module` with `fuel` to burn; no call made yet.
    fn start(module: &wasmi::Module, fuel: u64) -> (r: Result<WasmSandbox, StartFailure>)
        ensures
            r matches Ok(s) ==> s.calls().len() == 0,
    {
        match Guest::start(module, fuel) {
            Ok(guest) => Ok(WasmSandbox { guest, log: Ghost(Seq::empty()) }),
            Err(e) => Err(e),
        }
    }

    /// Calls `abi_version()`.
    fn abi_version(&mut self) -> (r: Result<i32, CallFailure>)
        ensures
            final(self).calls() == old(self).calls().push(GuestCall::AbiVersion(r)),
    {
        let r = self.guest.call_unit_i32("abi_version");
        proof {
            self.log@ = self.log@.push(GuestCall::AbiVersion(r));
        }
        r
    }

    /// Looks up `alloc`.
    fn has_alloc(&mut self) -> (r: bool)
        ensures
            final(self).calls() == old(self).calls().push(GuestCall::HasAlloc(r)),
    {
        let r = self.guest.has_i32_i32("alloc");
        proof {
            self.log@ = self.log@.push(GuestCall::HasAlloc(r));
        }
        r
    }

    /// Looks up `transform`.
    fn has_transform(&mut self) -> (r: bool)
        ensures
            final(self).calls() == old(self).calls().push(GuestCall::HasTransform(r)),
    {
        let r = self.guest.has_pair_i64("transform");
        proof {
            self.log@ = self.log@.push(GuestCall::HasTransform(r));
        }
        r
    }

    /// Looks up `memory`.
    fn has_memory(&mut self) -> (r: bool)
        ensures
            final(self).calls() == old(self).calls().push(GuestCall::HasMemory(r)),
    {
        let r = self.guest.has_memory("memory");
        proof {
            self.log@ = self.log@.push(GuestCall::HasMemory(r));
        }
        r
    }

    /// Calls `alloc(len)`.
    fn allocate(&mut self, len: i32) -> (r: Result<i32, CallFailure>)
        ensures
            final(self).calls() == old(self).calls().push(GuestCall::Alloc(len, r)),
    {
        let r = self.guest.call_i32_i32("alloc", len);
        proof {
            self.log@ = self.log@.push(GuestCall::Alloc(len, r));
        }
        r
    }

    /// Writes `bytes` into `memory` at `offset`.
    fn write(&mut self, offset: usize, bytes: &[u8]) -> (r: Result<(), MemoryFailure>)
        ensures
            final(self).calls() == old(self).calls().push(GuestCall::Write(offset, bytes@, r)),
    {
        let r = self.guest.memory_write("memory", offset, bytes);
        proof {
            self.log@ = self.log@.push(GuestCall::Write(offset, bytes@, r));
        }
        r
    }

    /// Calls `transform(ptr, len)`.
    fn transform(&mut self, ptr: i32, len: i32) -> (r: Result<i64, CallFailure>)
        ensures
            final(self).calls() == old(self).calls().push(GuestCall::Transform(ptr, len, r)),
    {
        let r = self.guest.call_pair_i64("transform", ptr, len);
        proof {
            self.log@ = self.log@.push(GuestCall::Transform(ptr, len, r));
        }
        r
    }

    /// The size of `memory` in bytes.
    fn memory_size(&mut self) -> (r: Option<usize>)
        ensures
            final(self).calls() == old(self).calls().push(GuestCall::MemorySize(r)),
    {
        let r = self.guest.memory_size("memory");
        proof {
            self.log@ = self.log@.push(GuestCall::MemorySize(r));
        }
        r
    }

    /// Reads `len` bytes of `memory` at `offset`.
    fn read(&mut self, offset: usize, len: usize) -> (r: Result<Vec<u8>, MemoryFailure>)
        ensures
            final(self).calls() == old(self).calls().push(GuestCall::Read(offset, len, read_view(r))),
            r matches Ok(v) ==> v.len() == len,
    {
        let r = self.guest.memory_read("memory", offset, len);
        proof {
            self.log@ = self.log@.push(GuestCall::Read(offset, len, read_view(r)));
        }
        r
    }
}
/// The text of a `wasmi::Error`, as its `Display` renders it.
#[verifier::external_body]
fn error_text(e: &wasmi::Error) -> (r: String) {
    format!("{e}")
}

/// `String::from_utf8`: the text the bytes encode when they are valid UTF-8,
/// else nothing.
#[verifier::external_body]
fn string_from_utf8(bytes: Vec<u8>) -> (r: Option<String>)
    ensures
        r is Some <==> valid_utf8(bytes@),
        r matches Some(s) ==> encode_utf8(s@) == bytes@,
{
    String::from_utf8(bytes).ok()
}

/// Why a plugin transform failed.
#[derive(Debug)]
pub enum PluginError {
    /// The module is no valid wasm.
    WasmInvalid(String),
    /// Fuel could not be set.
    FuelInit(String),
    /// Instantiation (imports are not permitted) or the start function failed.
    Instantiation(String),
    /// A required export is missing: `abi_version`, `alloc`, `transform` or
    /// `memory`.
    MissingExport(&'static str),
    /// `abi_version` trapped.
    AbiTrapped(String),
    /// The plugin speaks another ABI.
    AbiUnsupported(i32),
    /// The input does not fit an `i32` length.
    InputTooLarge,
    /// `alloc` trapped.
    AllocTrapped(String),
    /// Writing the input failed.
    InputWrite(String),
    /// `transform` trapped or ran out of fuel.
    TransformTrapped(String),
    /// The output is larger than [`MAX_OUTPUT`].
    OutputTooLarge,
    /// The output lies outside the plugin's memory.
    OutputOutOfBounds,
    /// Reading the output failed.
    OutputRead(String),
    /// The output is not UTF-8.
    NotUtf8,
}

/// The input length as the `i32` the ABI passes, when it fits.
pub fn input_len(input: &str) -> (r: Result<i32, PluginError>)
    ensures
        input.spec_bytes().len() <= i32::MAX ==> (r matches Ok(n) && n == input.spec_bytes().len()),
        input.spec_bytes().len() > i32::MAX ==> (r matches Err(PluginError::InputTooLarge)),
{
    let n = input.as_bytes().len();
    if n > 2147483647usize {
        Err(PluginError::InputTooLarge)
    } else {
        Ok(n as i32)
    }
}

/// The plugin must speak ABI 1.
pub fn check_abi(version: i32) -> (r: Result<(), PluginError>)
    ensures
        version == ABI_VERSION ==> r is Ok,
        version != ABI_VERSION ==> (r matches Err(PluginError::AbiUnsupported(v)) && v == version),
{
    if version != ABI_VERSION {
        Err(PluginError::AbiUnsupported(version))
    } else {
        Ok(())
    }
}

/// The output pointer (high 32 bits) and length (low 32 bits) a transform
/// packs into its result.
pub open spec fn unpack_spec(packed: i64) -> (int, int) {
    (((packed as u64) >> 32u64) as int, ((packed as u64) & 0xffff_ffffu64) as int)
}

/// Where the output lies, given the transform's packed result and the
/// memory's size: refused when longer than [`MAX_OUTPUT`] or when it does
/// not lie within the memory.
pub fn locate_output(packed: i64, memory_size: usize) -> (r: Result<(usize, usize), PluginError>)
    ensures
        ({
            let (p, n) = unpack_spec(packed);
            &&& n > MAX_OUTPUT ==> (r matches Err(PluginError::OutputTooLarge))
            &&& n <= MAX_OUTPUT && p + n > memory_size ==> (r matches Err(PluginError::OutputOutOfBounds))
            &&& n <= MAX_OUTPUT && p + n <= memory_size ==> (r matches Ok(o) && o.0 == p && o.1 == n)
        }),
{
    let bits = packed as u64;
    let hi = bits >> 32u64;
    let lo = bits & 0xffff_ffffu64;
    assert(hi < 0x1_0000_0000) by (bit_vector)
        requires
            hi == bits >> 32u64,
    ;
    assert(lo < 0x1_0000_0000) by (bit_vector)
        requires
            lo == bits & 0xffff_ffffu64,
    ;
    if lo > MAX_OUTPUT {
        return Err(PluginError::OutputTooLarge);
    }
    if hi + lo > memory_size as u64 {
        return Err(PluginError::OutputOutOfBounds);
    }
    Ok((hi as usize, lo as usize))
}

/// The output bytes as text: refused unless valid UTF-8.
pub fn decode_output(bytes: Vec<u8>) -> (r: Result<String, PluginError>)
    ensures
        valid_utf8(bytes@) ==> (r matches Ok(s) && encode_utf8(s@) == bytes@),
        !valid_utf8(bytes@) ==> (r matches Err(PluginError::NotUtf8)),
{
    match string_from_utf8(bytes) {
        Some(s) => Ok(s),
        None => Err(PluginError::NotUtf8),
    }
}

/// The transcript ends with its call `k`, and the outcome is the error `e`.
pub open spec fn ends_in(c: Seq<GuestCall>, k: int, r: Result<String, PluginError>, e: PluginError) -> bool {
    c.len() == k + 1 && r == Err::<String, PluginError>(e)
}

/// The plugin ABI run over `input`, as a transcript `c` of calls into the
/// plugin and the outcome `r`: `abi_version()` first, which must give
/// [`ABI_VERSION`]; then `alloc`, `transform` and `memory` are looked up, in
/// that order; an input longer than `i32::MAX` bytes stops there.
pub open spec fn transform_protocol(input: Seq<u8>, c: Seq<GuestCall>, r: Result<String, PluginError>) -> bool {
    c.len() >= 1 && match c[0] {
        GuestCall::AbiVersion(Ok(v)) => if v == ABI_VERSION {
            exports_found(input, c, r)
        } else {
            ends_in(c, 0, r, PluginError::AbiUnsupported(v))
        },
        GuestCall::AbiVersion(Err(CallFailure::Missing)) => ends_in(c, 0, r, PluginError::MissingExport("abi_version")),
        GuestCall::AbiVersion(Err(CallFailure::Trapped(m))) => ends_in(c, 0, r, PluginError::AbiTrapped(m)),
        _ => false,
    }
}

/// Calls 1 to 3 look up `alloc`, `transform` and `memory`; the first that is
/// missing ends the run.
pub open spec fn exports_found(input: Seq<u8>, c: Seq<GuestCall>, r: Result<String, PluginError>) -> bool {
    c.len() >= 2 && match c[1] {
        GuestCall::HasAlloc(false) => ends_in(c, 1, r, PluginError::MissingExport("alloc")),
        GuestCall::HasAlloc(true) => c.len() >= 3 && match c[2] {
            GuestCall::HasTransform(false) => ends_in(c, 2, r, PluginError::MissingExport("transform")),
            GuestCall::HasTransform(true) => c.len() >= 4 && match c[3] {
                GuestCall::HasMemory(false) => ends_in(c, 3, r, PluginError::MissingExport("memory")),
                GuestCall::HasMemory(true) => if input.len() > i32::MAX {
                    c.len() == 4 && r == Err::<String, PluginError>(PluginError::InputTooLarge)
                } else {
                    input_copied(input, c, r)
                },
                _ => false,
            },
            _ => false,
        },
        _ => false,
    }
}

/// Call 4 is `alloc(len)` with the input's length in bytes; call 5 writes
/// the input's bytes at the pointer it gave.
pub open spec fn input_copied(input: Seq<u8>, c: Seq<GuestCall>, r: Result<String, PluginError>) -> bool {
    c.len() >= 5 && match c[4] {
        GuestCall::Alloc(n, Ok(p)) => n == input.len() && c.len() >= 6 && match c[5] {
            GuestCall::Write(offset, bytes, Ok(())) => offset == p as usize && bytes == input
                && transformed(input, c, r, p),
            GuestCall::Write(offset, bytes, Err(MemoryFailure::Missing)) => offset == p as usize && bytes == input
                && ends_in(c, 5, r, PluginError::MissingExport("memory")),
            GuestCall::Write(offset, bytes, Err(MemoryFailure::Failed(m))) => offset == p as usize && bytes == input
                && ends_in(c, 5, r, PluginError::InputWrite(m)),
            _ => false,
        },
        GuestCall::Alloc(n, Err(CallFailure::Missing)) => n == input.len()
            && ends_in(c, 4, r, PluginError::MissingExport("alloc")),
        GuestCall::Alloc(n, Err(CallFailure::Trapped(m))) => n == input.len()
            && ends_in(c, 4, r, PluginError::AllocTrapped(m)),
        _ => false,
    }
}

/// Call 6 is `transform(ptr, len)` with the pointer `alloc` gave and the
/// input's length; call 7 asks for the memory's size.
pub open spec fn transformed(input: Seq<u8>, c: Seq<GuestCall>, r: Result<String, PluginError>, p: i32) -> bool {
    c.len() >= 7 && match c[6] {
        GuestCall::Transform(x, n, Ok(packed)) => x == p && n == input.len() && c.len() >= 8 && match c[7] {
            GuestCall::MemorySize(Some(size)) => output_read(c, r, packed, size as int),
            GuestCall::MemorySize(None) => ends_in(c, 7, r, PluginError::MissingExport("memory")),
            _ => false,
        },
        GuestCall::Transform(x, n, Err(CallFailure::Missing)) => x == p && n == input.len()
            && ends_in(c, 6, r, PluginError::MissingExport("transform")),
        GuestCall::Transform(x, n, Err(CallFailure::Trapped(m))) => x == p && n == input.len()
            && ends_in(c, 6, r, PluginError::TransformTrapped(m)),
        _ => false,
    }
}

/// The output the transform's packed result points at must be no longer
/// than [`MAX_OUTPUT`] and lie within the memory; then call 8 reads it, and
/// the outcome is its text when it is valid UTF-8.
pub open spec fn output_read(c: Seq<GuestCall>, r: Result<String, PluginError>, packed: i64, size: int) -> bool {
    let (q, n) = unpack_spec(packed);
    if n > MAX_OUTPUT {
        ends_in(c, 7, r, PluginError::OutputTooLarge)
    } else if q + n > size {
        ends_in(c, 7, r, PluginError::OutputOutOfBounds)
    } else {
        c.len() == 9 && match c[8] {
            GuestCall::Read(offset, len, Ok(bytes)) => offset == q && len == n && if valid_utf8(bytes) {
                r matches Ok(s) && encode_utf8(s@) == bytes
            } else {
                r == Err::<String, PluginError>(PluginError::NotUtf8)
            },
            GuestCall::Read(offset, len, Err(MemoryFailure::Missing)) => offset == q && len == n
                && r == Err::<String, PluginError>(PluginError::MissingExport("memory")),
            GuestCall::Read(offset, len, Err(MemoryFailure::Failed(m))) => offset == q && len == n
                && r == Err::<String, PluginError>(PluginError::OutputRead(m)),
            _ => false,
        }
    }
}

/// Runs the plugin ABI over `input` in a started sandbox: the calls it makes
/// from here on, with what each handed over, and the outcome, are those of
/// [`transform_protocol`]; the calls made before are kept.
pub fn drive_transform(sandbox: &mut WasmSandbox, input: &str) -> (r: Result<String, PluginError>)
    ensures
        final(sandbox).calls().len() >= old(sandbox).calls().len(),
        forall|i: int| 0 <= i < old(sandbox).calls().len() ==> final(sandbox).calls()[i] == old(sandbox).calls()[i],
        transform_protocol(input.spec_bytes(), final(sandbox).calls().skip(old(sandbox).calls().len() as int), r),
        r is Ok ==> input.spec_bytes().len() <= i32::MAX,
        r matches Ok(s) ==> encode_utf8(s@).len() <= MAX_OUTPUT,
{
    let version = match sandbox.abi_version() {
        Ok(v) => v,
        Err(CallFailure::Missing) => return Err(PluginError::MissingExport("abi_version")),
        Err(CallFailure::Trapped(m)) => return Err(PluginError::AbiTrapped(m)),
    };
    match check_abi(version) {
        Ok(()) => {},
        Err(e) => return Err(e),
    }
    if !sandbox.has_alloc() {
        return Err(PluginError::MissingExport("alloc"));
    }
    if !sandbox.has_transform() {
        return Err(PluginError::MissingExport("transform"));
    }
    if !sandbox.has_memory() {
        return Err(PluginError::MissingExport("memory"));
    }
    let len = match input_len(input) {
        Ok(n) => n,
        Err(e) => return Err(e),
    };
    let ptr = match sandbox.allocate(len) {
        Ok(p) => p,
        Err(CallFailure::Missing) => return Err(PluginError::MissingExport("alloc")),
        Err(CallFailure::Trapped(m)) => return Err(PluginError::AllocTrapped(m)),
    };
    match sandbox.write(ptr as usize, input.as_bytes()) {
        Ok(()) => {},
        Err(MemoryFailure::Missing) => return Err(PluginError::MissingExport("memory")),
        Err(MemoryFailure::Failed(m)) => return Err(PluginError::InputWrite(m)),
    }
    let packed = match sandbox.transform(ptr, len) {
        Ok(p) => p,
        Err(CallFailure::Missing) => return Err(PluginError::MissingExport("transform")),
        Err(CallFailure::Trapped(m)) => return Err(PluginError::TransformTrapped(m)),
    };
    let size = match sandbox.memory_size() {
        Some(n) => n,
        None => return Err(PluginError::MissingExport("memory")),
    };
    let (out_ptr, out_len) = match locate_output(packed, size) {
        Ok(o) => o,
        Err(e) => return Err(e),
    };
    let bytes = match sandbox.read(out_ptr, out_len) {
        Ok(b) => b,
        Err(MemoryFailure::Missing) => return Err(PluginError::MissingExport("memory")),
        Err(MemoryFailure::Failed(m)) => return Err(PluginError::OutputRead(m)),
    };
    decode_output(bytes)
}

/// Runs a plugin's `transform` over `input` in a sandbox with no host
/// imports and a budget of [`FUEL_BUDGET`] fuel, so that an endless loop
/// ends in an error: compiles the module, instantiates it (a module that
/// imports anything fails there), then runs [`drive_transform`]. On success
/// the plugin spoke ABI 1, and its output lay within its memory, was no
/// longer than [`MAX_OUTPUT`], and was valid UTF-8.
pub fn run_wasm_transform(wasm: &[u8], input: &str) -> (r: Result<String, PluginError>)
    ensures
        !wasm_module_ok(wasm@) <==> (r matches Err(PluginError::WasmInvalid(_))),
        !(r matches Err(PluginError::WasmInvalid(_))) && !(r matches Err(PluginError::FuelInit(_)))
            && !(r matches Err(PluginError::Instantiation(_)))
            ==> exists|c: Seq<GuestCall>| transform_protocol(input.spec_bytes(), c, r),
        r is Ok ==> input.spec_bytes().len() <= i32::MAX,
        r matches Ok(s) ==> encode_utf8(s@).len() <= MAX_OUTPUT,
        r matches Err(PluginError::InputTooLarge) ==> input.spec_bytes().len() > i32::MAX,
        r matches Err(PluginError::AbiUnsupported(v)) ==> v != ABI_VERSION,
{
    let module = match compile_module(wasm) {
        Ok(m) => m,
        Err(e) => return Err(PluginError::WasmInvalid(error_text(&e))),
    };
    let mut sandbox = match WasmSandbox::start(&module, FUEL_BUDGET) {
        Ok(b) => b,
        Err(StartFailure::Fuel(m)) => return Err(PluginError::FuelInit(m)),
        Err(StartFailure::Instantiation(m)) => return Err(PluginError::Instantiation(m)),
    };
    let r = drive_transform(&mut sandbox, input);
    proof {
        let c = sandbox.calls().skip(0);
        assert(transform_protocol(input.spec_bytes(), c, r));
    }
    r
}


// ── which plugins exist, are enabled, and may run ──────────────────────────

/// A plugin's `plugin.json`.
#[derive(Debug, Clone)]
pub struct PluginManifest {
    pub id: String,
    pub name: String,
    pub version: String,
    /// What the plugin does (informational).
    pub kind: String,
    /// The wasm module's file name, relative to the plugin folder.
    pub entry: String,
    pub description: Option<String>,
    pub author: Option<String>,
    /// Declared capabilities (recorded for display; they grant nothing).
    pub capabilities: Vec<String>,
}

/// A discovered plugin and its state, for the UI.
#[derive(Debug, Clone)]
pub struct PluginInfo {
    pub manifest: PluginManifest,
    pub enabled: bool,
    /// The manifest parsed and its entry wasm file exists.
    pub valid: bool,
    /// What discovery found wrong, if anything.
    pub error: Option<String>,
    pub dir: String,
}

/// A manifest names a plugin id and an entry module (neither only white
/// space).
pub open spec fn manifest_complete_spec(m: PluginManifest) -> bool {
    trim(m.id@).len() > 0 && trim(m.entry@).len() > 0
}

/// Whether a parsed manifest is usable.
pub fn manifest_complete(m: &PluginManifest) -> (b: bool)
    ensures
        b == manifest_complete_spec(*m),
{
    trim_vec(&chars_of(m.id.as_str())).len() > 0 && trim_vec(&chars_of(m.entry.as_str())).len() > 0
}

/// `ids` holds `id`.
pub open spec fn holds(ids: Seq<String>, id: Seq<char>) -> bool {
    exists|i: int| 0 <= i < ids.len() && (#[trigger] ids[i])@ == id
}

fn holds_exec(ids: &Vec<String>, id: &str) -> (b: bool)
    ensures
        b == holds(ids@, id@),
{
    let c = chars_of(id);
    let mut i: usize = 0;
    while i < ids.len()
        invariant
            i <= ids.len(),
            c@ == id@,
            forall|j: int| 0 <= j < i ==> (#[trigger] ids@[j])@ != id@,
        decreases ids.len() - i,
    {
        if eq_vec(&chars_of(ids[i].as_str()), &c) {
            return true;
        }
        i += 1;
    }
    false
}

/// How a plugin folder is listed: with its manifest, enabled when the user
/// enabled its id, valid when its entry module exists (else an error naming
/// the missing entry); a folder whose manifest could not be read shows under
/// its folder name (`unknown` without one), disabled and invalid, with the
/// reason.
pub fn plugin_info(
    dir: &str,
    dir_name: Option<&str>,
    manifest: Result<PluginManifest, String>,
    entry_exists: bool,
    enabled_ids: &Vec<String>,
) -> (r: PluginInfo)
    ensures
        r.dir@ == dir@,
        match manifest {
            Ok(m) => {
                &&& r.manifest == m
                &&& r.enabled == holds(enabled_ids@, m.id@)
                &&& r.valid == entry_exists
                &&& (if entry_exists {
                    r.error is None
                } else {
                    r.error matches Some(e) && e@ == "entry wasm missing: "@ + m.entry@
                })
            },
            Err(e) => {
                let n = match dir_name {
                    Some(d) => d@,
                    None => "unknown"@,
                };
                &&& r.manifest.id@ == n
                &&& r.manifest.name@ == n
                &&& r.manifest.version@ == "?"@
                &&& r.manifest.kind@.len() == 0
                &&& r.manifest.entry@.len() == 0
                &&& r.manifest.description is None
                &&& r.manifest.author is None
                &&& r.manifest.capabilities@.len() == 0
                &&& !r.enabled
                &&& !r.valid
                &&& r.error matches Some(x) && x@ == e@
            },
        },
{
    match manifest {
        Ok(m) => {
            let enabled = holds_exec(enabled_ids, m.id.as_str());
            let error = if entry_exists {
                None
            } else {
                let mut v = chars_of("entry wasm missing: ");
                push_all(&mut v, &chars_of(m.entry.as_str()));
                Some(string_of(&v))
            };
            PluginInfo { manifest: m, enabled, valid: entry_exists, error, dir: string_of(&chars_of(dir)) }
        },
        Err(e) => {
            let n = match dir_name {
                Some(d) => d,
                None => "unknown",
            };
            PluginInfo {
                manifest: PluginManifest {
                    id: string_of(&chars_of(n)),
                    name: string_of(&chars_of(n)),
                    version: string_of(&chars_of("?")),
                    kind: string_of(&Vec::new()),
                    entry: string_of(&Vec::new()),
                    description: None,
                    author: None,
                    capabilities: Vec::new(),
                },
                enabled: false,
                valid: false,
                error: Some(e),
                dir: string_of(&chars_of(dir)),
            }
        },
    }
}

/// The key plugins are listed by: the lowercased name.
pub open spec fn name_key(p: PluginInfo) -> Seq<char> {
    unicode_lower(p.manifest.name@)
}

/// How many leading plugins list no later than `x`.
pub open spec fn leading_plugins(s: Seq<PluginInfo>, x: PluginInfo) -> nat
    decreases s.len(),
{
    if s.len() > 0 && !lex_lt(name_key(x), name_key(s[0])) {
        1 + leading_plugins(s.drop_first(), x)
    } else {
        0
    }
}

/// A stable sort by lowercased name: each plugin goes after every earlier
/// one that lists no later.
pub open spec fn sort_plugins_spec(s: Seq<PluginInfo>) -> Seq<PluginInfo>
    decreases s.len(),
{
    if s.len() == 0 {
        seq![]
    } else {
        let t = sort_plugins_spec(s.drop_last());
        t.insert(leading_plugins(t, s.last()) as int, s.last())
    }
}

proof fn lemma_leading_plugins(s: Seq<PluginInfo>, x: PluginInfo)
    ensures
        leading_plugins(s, x) <= s.len(),
    decreases s.len(),
{
    if s.len() > 0 && !lex_lt(name_key(x), name_key(s[0])) {
        lemma_leading_plugins(s.drop_first(), x);
    }
}

fn insert_plugin(out: &mut Vec<PluginInfo>, p: PluginInfo)
    ensures
        final(out)@ == old(out)@.insert(leading_plugins(old(out)@, p) as int, p),
{
    let ghost o = out@;
    let key = chars_of(to_lowercase(p.manifest.name.as_str()).as_str());
    let mut i: usize = 0;
    proof {
        assert(o.skip(0) =~= o);
    }
    while i < out.len() && !lex_less(&key, &chars_of(to_lowercase(out[i].manifest.name.as_str()).as_str()))
        invariant
            i <= out.len(),
            o == out@,
            key@ == name_key(p),
            leading_plugins(o, p) == i + leading_plugins(o.skip(i as int), p),
        decreases out.len() - i,
    {
        proof {
            assert(o.skip(i as int).drop_first() =~= o.skip(i as int + 1));
            assert(o.skip(i as int)[0] == out@[i as int]);
        }
        i += 1;
    }
    proof {
        if i < out.len() {
            assert(o.skip(i as int)[0] == out@[i as int]);
        }
        lemma_leading_plugins(o, p);
    }
    out.insert(i, p);
}

/// The plugins ordered by lowercased name (ties keep discovery order).
pub fn sort_plugins(plugins: Vec<PluginInfo>) -> (r: Vec<PluginInfo>)
    ensures
        r@ == sort_plugins_spec(plugins@),
{
    let ghost s = plugins@;
    let plugins_len = plugins.len();
    let mut rest = plugins;
    let mut front: Vec<PluginInfo> = Vec::new();
    // take from the back so each can be moved, then insert in forward order
    let mut taken: Vec<PluginInfo> = Vec::new();
    while rest.len() > 0
        invariant
            rest@ == s.take(rest.len() as int),
            rest.len() <= s.len(),
            taken@ == s.skip(rest.len() as int).reverse(),
        decreases rest.len(),
    {
        let ghost n = rest.len() as int;
        let p = rest.pop().unwrap();
        proof {
            assert(p == s[n - 1]);
            assert(rest@ =~= s.take(n - 1));
        }
        taken.push(p);
        proof {
            assert(taken@ =~= s.skip(n - 1).reverse());
        }
    }
    proof {
        assert(s.skip(0) =~= s);
        assert(s.take(0) =~= Seq::<PluginInfo>::empty());
        assert(front@ =~= sort_plugins_spec(s.take(0)));
    }
    let mut k: usize = 0;
    while taken.len() > 0
        invariant
            k + taken.len() == s.len(),
            s.len() == plugins_len,
            taken@ == s.skip(k as int).reverse(),
            front@ == sort_plugins_spec(s.take(k as int)),
        decreases taken.len(),
    {
        let p = taken.pop().unwrap();
        proof {
            assert(p == s[k as int]);
            assert(taken@ =~= s.skip(k as int + 1).reverse());
            assert(s.take(k as int + 1).drop_last() =~= s.take(k as int));
            assert(s.take(k as int + 1).last() == s[k as int]);
        }
        insert_plugin(&mut front, p);
        k += 1;
    }
    proof {
        assert(s.take(s.len() as int) =~= s);
    }
    front
}

/// Why a plugin cannot be enabled or run.
#[derive(Debug)]
pub enum PluginRefusal {
    /// No valid plugin (for enabling) or no plugin (for running) has the id.
    NotFound,
    /// The plugin is not enabled.
    NotEnabled,
    /// The plugin is invalid, for the stated reason (empty when none).
    Invalid(String),
}

/// Enables or disables a plugin id in the user's list: enabling needs a
/// valid discovered plugin with that id and adds the id once; disabling
/// removes every occurrence.
pub fn set_plugin_enabled(enabled_ids: &mut Vec<String>, plugins: &Vec<PluginInfo>, plugin_id: &str, enable: bool) -> (r:
    Result<(), PluginRefusal>)
    ensures
        enable ==> {
            let known = exists|i: int|
                0 <= i < plugins@.len() && (#[trigger] plugins@[i]).manifest.id@ == plugin_id@ && plugins@[i].valid;
            &&& !known ==> (r matches Err(PluginRefusal::NotFound)) && final(enabled_ids)@ == old(enabled_ids)@
            &&& known && holds(old(enabled_ids)@, plugin_id@) ==> r is Ok && final(enabled_ids)@ == old(
                enabled_ids,
            )@
            &&& known && !holds(old(enabled_ids)@, plugin_id@) ==> r is Ok && final(enabled_ids)@.len() == old(
                enabled_ids,
            )@.len() + 1 && final(enabled_ids)@.drop_last() == old(enabled_ids)@ && final(enabled_ids)@.last()@
                == plugin_id@
        },
        !enable ==> r is Ok && final(enabled_ids)@ == old(enabled_ids)@.filter(|s: String| s@ != plugin_id@),
{
    let c = chars_of(plugin_id);
    if enable {
        let mut i: usize = 0;
        let mut known = false;
        while i < plugins.len() && !known
            invariant
                i <= plugins.len(),
                c@ == plugin_id@,
                known ==> exists|j: int|
                    0 <= j < plugins@.len() && (#[trigger] plugins@[j]).manifest.id@ == plugin_id@ && plugins@[j].valid,
                !known ==> forall|j: int|
                    0 <= j < i ==> !((#[trigger] plugins@[j]).manifest.id@ == plugin_id@ && plugins@[j].valid),
            decreases plugins.len() - i,
        {
            if plugins[i].valid && eq_vec(&chars_of(plugins[i].manifest.id.as_str()), &c) {
                known = true;
            }
            i += 1;
        }
        if !known {
            return Err(PluginRefusal::NotFound);
        }
        if !holds_exec(enabled_ids, plugin_id) {
            enabled_ids.push(string_of(&c));
        }
        Ok(())
    } else {
        let ghost s = enabled_ids@;
        let ghost pred = |x: String| x@ != plugin_id@;
        let mut rest: Vec<String> = Vec::new();
        std::mem::swap(&mut rest, enabled_ids);
        let mut kept: Vec<String> = Vec::new();
        proof {
            assert(s.skip(rest.len() as int) =~= Seq::<String>::empty());
            assert(kept@ =~= s.skip(rest.len() as int).filter(pred)) by {
                reveal(Seq::filter);
            }
        }
        while rest.len() > 0
            invariant
                rest@ == s.take(rest.len() as int),
                rest.len() <= s.len(),
                c@ == plugin_id@,
                pred == (|x: String| x@ != plugin_id@),
                kept@ == s.skip(rest.len() as int).filter(pred),
            decreases rest.len(),
        {
            let ghost n = rest.len() as int;
            let x = rest.pop().unwrap();
            proof {
                assert(x == s[n - 1]);
                assert(s.skip(n - 1) =~= seq![s[n - 1]] + s.skip(n));
                s.skip(n).lemma_filter_prepend(s[n - 1], pred);
                assert(rest@ =~= s.take(n - 1));
            }
            if !eq_vec(&chars_of(x.as_str()), &c) {
                kept.insert(0, x);
            }
        }
        proof {
            assert(s.skip(0) =~= s);
        }
        *enabled_ids = kept;
        Ok(())
    }
}

/// A disabled plugin is off: once its id is removed from the enabled list,
/// the list no longer holds it, and listing shows it disabled.
pub proof fn law_disabled_plugin_is_off(ids: Seq<String>, id: Seq<char>)
    ensures
        !holds(ids.filter(|s: String| s@ != id), id),
{
    let pred = |s: String| s@ != id;
    ids.filter_lemma(pred);
    if holds(ids.filter(pred), id) {
        let i = choose|i: int| 0 <= i < ids.filter(pred).len() && (#[trigger] ids.filter(pred)[i])@ == id;
        assert(pred(ids.filter(pred)[i]));
    }
}

/// Which listed plugin a transform runs (its index): refused when no plugin
/// has the id, when it is not enabled, or when it is invalid.
pub fn transform_target(plugins: &Vec<PluginInfo>, plugin_id: &str) -> (r: Result<usize, PluginRefusal>)
    ensures
        match r {
            Ok(i) => i < plugins@.len() && plugins@[i as int].manifest.id@ == plugin_id@ && plugins@[i as int].enabled
                && plugins@[i as int].valid && forall|j: int|
                0 <= j < i ==> (#[trigger] plugins@[j]).manifest.id@ != plugin_id@,
            Err(PluginRefusal::NotFound) => forall|j: int|
                0 <= j < plugins@.len() ==> (#[trigger] plugins@[j]).manifest.id@ != plugin_id@,
            Err(PluginRefusal::NotEnabled) => exists|i: int|
                0 <= i < plugins@.len() && (#[trigger] plugins@[i]).manifest.id@ == plugin_id@ && !plugins@[i].enabled
                    && forall|j: int| 0 <= j < i ==> (#[trigger] plugins@[j]).manifest.id@ != plugin_id@,
            Err(PluginRefusal::Invalid(e)) => exists|i: int|
                0 <= i < plugins@.len() && (#[trigger] plugins@[i]).manifest.id@ == plugin_id@ && plugins@[i].enabled
                    && !plugins@[i].valid && forall|j: int| 0 <= j < i ==> (#[trigger] plugins@[j]).manifest.id@ != plugin_id@
                    && e@ == match plugins@[i].error {
                    Some(x) => x@,
                    None => Seq::<char>::empty(),
                },
        },
{
    let c = chars_of(plugin_id);
    let mut i: usize = 0;
    while i < plugins.len()
        invariant
            i <= plugins.len(),
            c@ == plugin_id@,
            forall|j: int| 0 <= j < i ==> (#[trigger] plugins@[j]).manifest.id@ != plugin_id@,
        decreases plugins.len() - i,
    {
        if eq_vec(&chars_of(plugins[i].manifest.id.as_str()), &c) {
            let p = &plugins[i];
            if !p.enabled {
                return Err(PluginRefusal::NotEnabled);
            }
            if !p.valid {
                let e = match &p.error {
                    Some(x) => string_of(&chars_of(x.as_str())),
                    None => string_of(&Vec::new()),
                };
                return Err(PluginRefusal::Invalid(e));
            }
            return Ok(i);
        }
        i += 1;
    }
    Err(PluginRefusal::NotFound)
}

} // verus!
