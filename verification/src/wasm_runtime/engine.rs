use vstd::prelude::*;

verus! {

/// `wasmtime::Engine`, the shared compiler and runtime.
#[verifier::external_type_specification]
#[verifier::external_body]
pub struct ExEngine(wasmtime::Engine);

/// `wasmtime::Module`, a compiled module.
#[verifier::external_type_specification]
#[verifier::external_body]
pub struct ExModule(wasmtime::Module);

/// `anyhow::Error`, in which wasmtime reports failures.
#[verifier::external_type_specification]
#[verifier::external_body]
pub struct ExError(anyhow::Error);

/// The largest stack of a WASM program, in bytes.
pub const MAX_WASM_STACK: usize = 1_048_576;

/// The address space that is reserved for a memory that cannot move, in bytes:
/// wasmtime's own default.
pub const STATIC_RESERVATION: u64 = 4_294_967_296;

/// The address space that is reserved for the growth of a memory that can move,
/// in bytes: wasmtime's own default.
pub const GROWTH_RESERVATION: u64 = 2_147_483_648;

/// The settings that an engine was made with.
pub struct EngineSettings {
    /// The largest stack of a program, in bytes.
    pub max_wasm_stack: int,
    /// Whether code is compiled to run fast.
    pub optimizes_speed: bool,
    /// Whether programs can be interrupted by epochs.
    pub epoch_interruption: bool,
    /// The address space reserved for a memory that cannot move, in bytes.
    pub reserved: int,
    /// The address space reserved for the growth of a memory that can, in bytes.
    pub growth: int,
}

/// The settings that an engine was made with.
pub uninterp spec fn engine_settings(engine: wasmtime::Engine) -> EngineSettings;

/// Whether a machine can fail to make an engine with these settings, with this
/// message.
pub uninterp spec fn may_lack_engine(settings: EngineSettings, message: Seq<char>) -> bool;

/// `wasmtime::Engine::new`, for a configuration with this stack limit, these
/// reservations of address space and, if asked for, with code that is optimised
/// for speed and with interruption by epochs. An engine has the settings that it
/// was made with; whether there is one depends on the machine. The bound keeps
/// the reservations from overflowing when they are rounded up to pages.
#[verifier::external_body]
fn new_engine(max_wasm_stack: usize, speed: bool, epoch_interruption: bool, reserved: u64, growth: u64) -> (r: Result<
    wasmtime::Engine,
    anyhow::Error,
>)
    requires
        reserved <= u64::MAX / 2,
        growth <= u64::MAX / 2,
    ensures
        r is Ok ==> engine_settings(r->Ok_0) == settings_of(max_wasm_stack, speed, epoch_interruption, reserved, growth),
        r is Err ==> may_lack_engine(
            settings_of(max_wasm_stack, speed, epoch_interruption, reserved, growth),
            message_of(r->Err_0),
        ),
{
    let mut config = wasmtime::Config::new();
    config.max_wasm_stack(max_wasm_stack);
    config.cranelift_opt_level(match speed {
        true => wasmtime::OptLevel::Speed,
        false => wasmtime::OptLevel::None,
    });
    config.epoch_interruption(epoch_interruption);
    config.static_memory_maximum_size(reserved);
    config.dynamic_memory_reserved_for_growth(growth);
    wasmtime::Engine::new(&config)
}

/// The settings with these values.
pub open spec fn settings_of(max_wasm_stack: usize, speed: bool, epoch_interruption: bool, reserved: u64, growth: u64) -> EngineSettings {
    EngineSettings {
        max_wasm_stack: max_wasm_stack as int,
        optimizes_speed: speed,
        epoch_interruption,
        reserved: reserved as int,
        growth: growth as int,
    }
}

/// `wasmtime::Engine::increment_epoch` moves the engine's epoch on by one. It
/// has no result.
#[verifier::external_body]
fn next_epoch(engine: &wasmtime::Engine)
{
    engine.increment_epoch()
}

/// The message that an error shows.
pub uninterp spec fn message_of(e: anyhow::Error) -> Seq<char>;

/// The `Display` of an `anyhow::Error` writes the error's message.
#[verifier::external_body]
pub(super) fn error_message(e: &anyhow::Error) -> (s: String)
    ensures
        s@ == message_of(*e),
{
    e.to_string()
}

/// Whether wasmtime, with the features that [`WasmEngine`] leaves switched on,
/// finds a byte string to be a valid WASM module.
pub uninterp spec fn is_valid_wasm(bytes: Seq<u8>) -> bool;

/// Whether wasmtime can give this message for a byte string that is not a valid
/// module. There may be several, of which one is given.
pub uninterp spec fn may_be_invalid(bytes: Seq<u8>, message: Seq<char>) -> bool;

/// `wasmtime::Module::validate` succeeds exactly on valid modules; otherwise its
/// error says why the bytes are none.
#[verifier::external_body]
fn validate_module(engine: &WasmEngine, bytes: &[u8]) -> (r: Result<(), anyhow::Error>)
    ensures
        r is Ok <==> is_valid_wasm(bytes@),
        r is Err ==> may_be_invalid(bytes@, message_of(r->Err_0)),
{
    wasmtime::Module::validate(&engine.inner, bytes)
}

/// The byte string that a module was compiled from.
pub uninterp spec fn compiled_from(module: wasmtime::Module) -> Seq<u8>;

/// Whether a byte string starts as a WASM binary does, and so is not taken for
/// WASM text.
pub open spec fn is_binary_form(bytes: Seq<u8>) -> bool {
    bytes.len() >= 4 && bytes.take(4) == seq![0u8, 97u8, 115u8, 109u8]
}

/// The engine that a module was compiled on, and on which alone it can run.
pub uninterp spec fn module_engine(module: wasmtime::Module) -> wasmtime::Engine;

/// A compiled program: the bytes that it was compiled from, and the engine.
pub struct Program {
    pub bytes: Seq<u8>,
    pub engine: wasmtime::Engine,
}

/// The program that a module holds.
pub open spec fn program_of(module: wasmtime::Module) -> Program {
    Program { bytes: compiled_from(module), engine: module_engine(module) }
}

/// Whether an engine can fail to compile a byte string, with this message.
pub uninterp spec fn may_not_compile(engine: wasmtime::Engine, bytes: Seq<u8>, message: Seq<char>) -> bool;

/// `wasmtime::Module::new` decodes, validates and compiles a module from a byte
/// string on an engine, which is then the module's engine
/// (`wasmtime::Module::engine`); so a binary that is not valid gives none; otherwise its error says why
/// the bytes did not compile. Whether a valid one compiles depends on the machine
/// too and is left open.
#[verifier::external_body]
fn compile_module(engine: &WasmEngine, bytes: &[u8]) -> (r: Result<wasmtime::Module, anyhow::Error>)
    ensures
        r is Ok ==> compiled_from(r->Ok_0) == bytes@ && module_engine(r->Ok_0) == engine.handle(),
        r is Ok && is_binary_form(bytes@) ==> is_valid_wasm(bytes@),
        r is Err ==> may_not_compile(engine.handle(), bytes@, message_of(r->Err_0)),
{
    wasmtime::Module::new(&engine.inner, bytes)
}

/// What a call gave, with its error as a message.
fn or_message<T>(given: Result<T, anyhow::Error>) -> (r: Result<T, String>)
    ensures
        match given {
            Ok(value) => r is Ok && r->Ok_0 == value,
            Err(e) => r is Err && r->Err_0@ == message_of(e),
        },
{
    match given {
        Ok(value) => Ok(value),
        Err(e) => Err(error_message(&e)),
    }
}

/// Why no engine could be made.
#[derive(Debug)]
pub struct EngineError {
    pub message: String,
}

/// A configured `wasmtime::Engine`. One engine should be shared across the
/// process.
pub struct WasmEngine {
    pub(super) inner: wasmtime::Engine,
}

/// Whether an engine was made with these settings, or could not be.
pub open spec fn made_with(r: Result<WasmEngine, EngineError>, settings: EngineSettings) -> bool {
    match r {
        Ok(engine) => engine.settings() == settings,
        Err(e) => may_lack_engine(settings, e.message@),
    }
}

impl WasmEngine {
    /// The underlying engine.
    pub closed spec fn handle(&self) -> wasmtime::Engine {
        self.inner
    }

    /// The settings that this engine was made with.
    pub open spec fn settings(&self) -> EngineSettings {
        engine_settings(self.handle())
    }

    /// The settings of an engine that runs fast code with a stack of at most one
    /// mebibyte, can interrupt its programs, and reserves so much address space.
    pub open spec fn settings_with(reserved: u64, growth: u64) -> EngineSettings {
        settings_of(MAX_WASM_STACK, true, true, reserved, growth)
    }

    /// An engine with a stack limit of one mebibyte whose programs can be
    /// interrupted.
    pub fn new() -> (r: Result<Self, EngineError>)
        ensures
            made_with(r, Self::settings_with(STATIC_RESERVATION, GROWTH_RESERVATION)),
            r is Ok ==> r->Ok_0.settings().max_wasm_stack == 1_048_576,
            r is Ok ==> r->Ok_0.settings().optimizes_speed && r->Ok_0.settings().epoch_interruption,
    {
        Self::with_reservations(STATIC_RESERVATION, GROWTH_RESERVATION)
    }

    /// An engine like that of [`new`](Self::new) for machines with little address
    /// space: it reserves none in advance, so memories may move when they grow.
    pub fn new_compact() -> (r: Result<Self, EngineError>)
        ensures
            made_with(r, Self::settings_with(0, 0)),
            r is Ok ==> r->Ok_0.settings().max_wasm_stack == 1_048_576,
            r is Ok ==> r->Ok_0.settings().optimizes_speed && r->Ok_0.settings().epoch_interruption,
    {
        Self::with_reservations(0, 0)
    }

    fn with_reservations(reserved: u64, growth: u64) -> (r: Result<Self, EngineError>)
        requires
            reserved <= u64::MAX / 2,
            growth <= u64::MAX / 2,
        ensures
            made_with(r, Self::settings_with(reserved, growth)),
    {
        Self::from_made(new_engine(MAX_WASM_STACK, true, true, reserved, growth))
    }

    /// The engine that was made, or why there is none.
    fn from_made(made: Result<wasmtime::Engine, anyhow::Error>) -> (r: Result<Self, EngineError>)
        ensures
            match made {
                Ok(engine) => r is Ok && r->Ok_0.settings() == engine_settings(engine),
                Err(e) => r is Err && r->Err_0.message@ == message_of(e),
            },
    {
        match or_message(made) {
            Ok(inner) => Ok(WasmEngine { inner }),
            Err(message) => Err(EngineError { message }),
        }
    }

    /// Interrupts the programs that are running on this engine.
    pub fn increment_epoch(&self)
    {
        next_epoch(&self.inner)
    }

    /// Checks that `bytes` are a valid WASM module; otherwise says why not.
    pub fn validate(&self, bytes: &[u8]) -> (r: Result<(), String>)
        ensures
            r is Ok <==> is_valid_wasm(bytes@),
            r is Err ==> may_be_invalid(bytes@, r->Err_0@),
    {
        or_message(validate_module(self, bytes))
    }

    /// Compiles a WASM module, or says why that failed.
    pub fn compile(&self, bytes: &[u8]) -> (r: Result<wasmtime::Module, String>)
        ensures
            r is Ok ==> program_of(r->Ok_0) == (Program { bytes: bytes@, engine: self.handle() }),
            is_binary_form(bytes@) && !is_valid_wasm(bytes@) ==> r is Err,
            r is Err ==> may_not_compile(self.handle(), bytes@, r->Err_0@),
    {
        or_message(compile_module(self, bytes))
    }
}

/// Every engine limits the stack of its programs to one mebibyte and can interrupt them,
/// however much address space it reserves.
pub proof fn law_programs_can_be_interrupted(reserved: u64, growth: u64)
    ensures
        WasmEngine::settings_with(reserved, growth).max_wasm_stack == 1024 * 1024,
        WasmEngine::settings_with(reserved, growth).epoch_interruption,
        WasmEngine::settings_with(reserved, growth).optimizes_speed,
        WasmEngine::settings_with(reserved, growth).reserved == reserved,
        WasmEngine::settings_with(reserved, growth).growth == growth,
{
}

/// An engine that was made has the settings that were asked for, and a failure is one that
/// those settings can meet. A compiled program is that of its bytes and its engine.
pub proof fn law_engine_is_made_as_asked(
    r: Result<WasmEngine, EngineError>,
    settings: EngineSettings,
    module: wasmtime::Module,
)
    requires
        made_with(r, settings),
    ensures
        r is Ok ==> engine_settings(r->Ok_0.handle()) == settings,
        r is Err ==> may_lack_engine(settings, r->Err_0.message@),
        program_of(module).bytes == compiled_from(module),
        program_of(module).engine == module_engine(module),
{
}

} // verus!
