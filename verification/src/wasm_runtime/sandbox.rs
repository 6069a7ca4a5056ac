use std::sync::Arc;
use std::time::Instant;

use vstd::prelude::*;
use vstd::string::StringExecFns;
use wasmtime::Module;

use super::engine::{
    compiled_from, is_valid_wasm, may_be_invalid, may_not_compile, module_engine, program_of, Program, WasmEngine,
};
use super::guest::{
    bounded, exports_binary, exports_memory, exports_unary, first_missing, may_be_epoch, may_begin, may_open, may_reply,
    out_of_bounds, overwritten, reply_view, Bounds, Fault, FaultKind, FaultView, Guest, GuestCall, GuestRun, KindView,
    OpenError, ReplyView,
};
use crate::clock::{may_be_millis_since, may_be_now, millis_since};
use crate::text::{contains_text, decimal, decimal_text, occurs_in, signed_decimal, signed_text};

verus! {

/// Why a module could not be run to its end.
#[derive(Debug)]
pub enum WasmError {
    InvalidWasm(String),
    CompilationFailed(String),
    MissingExport(String),
    Timeout(u64),
    MemoryLimitExceeded,
    Trap(String),
    Io(String),
}

/// What a [`WasmError`] says.
pub enum WasmErrorView {
    InvalidWasm(Seq<char>),
    CompilationFailed(Seq<char>),
    MissingExport(Seq<char>),
    Timeout(u64),
    MemoryLimitExceeded,
    Trap(Seq<char>),
    Io(Seq<char>),
}

impl View for WasmError {
    type V = WasmErrorView;

    open spec fn view(&self) -> WasmErrorView {
        match self {
            WasmError::InvalidWasm(what) => WasmErrorView::InvalidWasm(what@),
            WasmError::CompilationFailed(what) => WasmErrorView::CompilationFailed(what@),
            WasmError::MissingExport(what) => WasmErrorView::MissingExport(what@),
            WasmError::Timeout(ms) => WasmErrorView::Timeout(*ms),
            WasmError::MemoryLimitExceeded => WasmErrorView::MemoryLimitExceeded,
            WasmError::Trap(what) => WasmErrorView::Trap(what@),
            WasmError::Io(what) => WasmErrorView::Io(what@),
        }
    }
}

impl WasmErrorView {
    /// The message shown for this error.
    pub open spec fn text(self) -> Seq<char> {
        match self {
            WasmErrorView::InvalidWasm(what) => "Invalid WASM binary: "@ + what,
            WasmErrorView::CompilationFailed(what) => "Compilation failed: "@ + what,
            WasmErrorView::MissingExport(what) => "Missing export: "@ + what,
            WasmErrorView::Timeout(ms) => "Execution timeout after "@ + decimal_text(ms as nat) + "ms"@,
            WasmErrorView::MemoryLimitExceeded => "Memory limit exceeded"@,
            WasmErrorView::Trap(what) => "Runtime trap: "@ + what,
            WasmErrorView::Io(what) => "IO error: "@ + what,
        }
    }
}

impl WasmError {
    /// The message shown for this error.
    pub fn message(&self) -> (s: String)
        ensures
            s@ == self@.text(),
    {
        match self {
            WasmError::InvalidWasm(what) => "Invalid WASM binary: ".to_string().concat(what.as_str()),
            WasmError::CompilationFailed(what) => "Compilation failed: ".to_string().concat(what.as_str()),
            WasmError::MissingExport(what) => "Missing export: ".to_string().concat(what.as_str()),
            WasmError::Timeout(ms) => {
                "Execution timeout after ".to_string().concat(decimal(*ms).as_str()).concat("ms")
            },
            WasmError::MemoryLimitExceeded => "Memory limit exceeded".to_string(),
            WasmError::Trap(what) => "Runtime trap: ".to_string().concat(what.as_str()),
            WasmError::Io(what) => "IO error: ".to_string().concat(what.as_str()),
        }
    }
}

/// The limits and the entry point of one execution.
#[derive(Debug)]
pub struct ExecutionConfig {
    /// Maximum linear memory the WASM module may use, in bytes.
    pub memory_limit_bytes: u64,
    /// Wall-clock budget for execution, in milliseconds.
    pub timeout_ms: u64,
    /// Name of the WASM export to call.
    pub function_name: String,
}

/// What an execution gave.
#[derive(Debug)]
pub struct ExecutionResult {
    pub output: Vec<u8>,
    pub execution_time_ms: u64,
    pub memory_used_bytes: u64,
}

// ── Error mapping ──────────────────────────────────────────────────────────

/// The error for a failed call into a program.
pub open spec fn trap_error(kind: KindView, timeout_ms: u64) -> WasmErrorView {
    match kind {
        KindView::Interrupted => WasmErrorView::Timeout(timeout_ms),
        KindView::Trap(name) => WasmErrorView::Trap(name),
        KindView::Other(message) => if occurs_in("interrupt"@, message) || occurs_in("Interrupt"@, message) {
            WasmErrorView::Timeout(timeout_ms)
        } else {
            WasmErrorView::Trap(message)
        },
    }
}

/// The error for a failed call into a program, to which memory may have been
/// denied before.
pub open spec fn call_error(fault: FaultView, timeout_ms: u64) -> WasmErrorView {
    if fault.denied {
        WasmErrorView::MemoryLimitExceeded
    } else {
        trap_error(fault.kind, timeout_ms)
    }
}

/// The error for a program that cannot be used.
pub open spec fn open_error(e: OpenError, function_name: Seq<char>, timeout_ms: u64) -> WasmErrorView {
    match e {
        OpenError::Failed(fault) => call_error(fault@, timeout_ms),
        OpenError::NoAlloc => WasmErrorView::MissingExport("alloc"@),
        OpenError::NoFunction => WasmErrorView::MissingExport(function_name),
        OpenError::NoMemory => WasmErrorView::MissingExport("memory"@),
    }
}

/// The error for a failed call into a program: a timeout if it was
/// interrupted, else a trap.
pub fn map_trap_error(kind: FaultKind, timeout_ms: u64) -> (e: WasmError)
    ensures
        e@ == trap_error(kind@, timeout_ms),
{
    match kind {
        FaultKind::Interrupted => WasmError::Timeout(timeout_ms),
        FaultKind::Trap(name) => WasmError::Trap(name),
        FaultKind::Other(message) => {
            if contains_text(message.as_str(), "interrupt") || contains_text(message.as_str(), "Interrupt") {
                WasmError::Timeout(timeout_ms)
            } else {
                WasmError::Trap(message)
            }
        },
    }
}

/// The error for a failed call into a program: its memory limit if memory was
/// denied to it, else as [`map_trap_error`] says.
pub fn map_fault(fault: Fault, timeout_ms: u64) -> (e: WasmError)
    ensures
        e@ == call_error(fault@, timeout_ms),
{
    if fault.denied {
        WasmError::MemoryLimitExceeded
    } else {
        map_trap_error(fault.kind, timeout_ms)
    }
}

/// The error for a program that cannot be used.
pub fn map_open_error(e: OpenError, function_name: &str, timeout_ms: u64) -> (r: WasmError)
    ensures
        r@ == open_error(e, function_name@, timeout_ms),
{
    match e {
        OpenError::Failed(fault) => map_fault(fault, timeout_ms),
        OpenError::NoAlloc => WasmError::MissingExport("alloc".to_string()),
        OpenError::NoFunction => WasmError::MissingExport(function_name.to_string()),
        OpenError::NoMemory => WasmError::MissingExport("memory".to_string()),
    }
}

/// The message for a length below zero.
pub open spec fn negative_length(length: int) -> Seq<char> {
    "process returned negative length: "@ + signed_text(length)
}

/// The number of output bytes that a program announces.
pub fn output_length(raw: i32) -> (r: Result<usize, WasmError>)
    ensures
        match r {
            Ok(length) => raw >= 0 && length == raw,
            Err(e) => raw < 0 && e@ == WasmErrorView::Io(negative_length(raw as int)),
        },
{
    if raw < 0 {
        Err(
            WasmError::Io(
                "process returned negative length: ".to_string().concat(signed_decimal(raw).as_str()),
            ),
        )
    } else {
        Ok(raw as usize)
    }
}

// ── Running a program ──────────────────────────────────────────────────────

/// A pointer of the program as an offset into its memory. A negative pointer
/// wraps around to the end of the address space.
pub open spec fn offset_of(pointer: i32) -> usize {
    pointer as usize
}

/// Whether the calls of a run are those that the host makes: it asks the program,
/// whose memory is as it began, for room for the input, writes the input there if
/// there is room, and calls the function with the place and the length. Each reply,
/// with the memory that the call left, is one that the program can give within the
/// bounds of the run to the memory that the call was given.
pub open spec fn is_run(run: GuestRun, input: Seq<u8>) -> bool {
    let length = input.len() as i32;
    &&& run.calls.len() > 0
    &&& run.calls[0] is Alloc
    &&& run.calls[0]->size == length
    &&& run.may_begin_with(run.calls[0]->Alloc_given)
    &&& run.may_give(
        "alloc"@,
        seq![length],
        run.calls[0]->Alloc_given,
        run.calls[0]->Alloc_reply,
        run.calls[0]->Alloc_left,
    )
    &&& if has_room(run.calls[0], input) {
        let pointer = run.calls[0]->Alloc_reply->Ok_0;
        &&& run.calls.len() == 2
        &&& run.calls[1] is Process
        &&& run.calls[1]->pointer == pointer
        &&& run.calls[1]->length == length
        &&& run.calls[1]->Process_given == overwritten(run.calls[0]->Alloc_left, offset_of(pointer) as int, input)
        &&& run.may_give(
            run.function,
            seq![pointer, length],
            run.calls[1]->Process_given,
            run.calls[1]->Process_reply,
            run.calls[1]->Process_left,
        )
    } else {
        run.calls.len() == 1
    }
}

/// Whether the program gave a place at which the input fits into its memory.
pub open spec fn has_room(alloc: GuestCall, input: Seq<u8>) -> bool {
    alloc->Alloc_reply is Ok && offset_of(alloc->Alloc_reply->Ok_0) + input.len() <= alloc->Alloc_left.len()
}

/// What a run gives: the output and the size of memory, or an error. The output
/// is what the program left where the input was.
pub open spec fn run_result(calls: Seq<GuestCall>, input: Seq<u8>, timeout_ms: u64) -> Result<
    (Seq<u8>, int),
    WasmErrorView,
> {
    match calls[0]->Alloc_reply {
        Err(fault) => Err(call_error(fault, timeout_ms)),
        Ok(pointer) => if has_room(calls[0], input) {
            output_result(calls[1]->Process_reply, calls[1]->Process_left, offset_of(pointer), timeout_ms)
        } else {
            Err(WasmErrorView::Io(out_of_bounds()))
        },
    }
}

/// What follows from the reply of the function and the memory that it left.
pub open spec fn output_result(reply: ReplyView, left: Seq<u8>, offset: usize, timeout_ms: u64) -> Result<
    (Seq<u8>, int),
    WasmErrorView,
> {
    match reply {
        Err(fault) => Err(call_error(fault, timeout_ms)),
        Ok(raw) => if raw < 0 {
            Err(WasmErrorView::Io(negative_length(raw as int)))
        } else if raw == 0 {
            Ok((Seq::empty(), left.len() as int))
        } else if offset + raw <= left.len() {
            Ok((left.subrange(offset as int, offset + raw), left.len() as int))
        } else {
            Err(WasmErrorView::Io(out_of_bounds()))
        },
    }
}

/// The output and the memory use that a run gave, or its error.
pub open spec fn run_view(r: Result<(Vec<u8>, usize), WasmError>) -> Result<(Seq<u8>, int), WasmErrorView> {
    match r {
        Ok((output, used)) => Ok((output@, used as int)),
        Err(e) => Err(e@),
    }
}

/// What the host goes on with after a call into the program.
pub fn settle_call(reply: Result<i32, Fault>, timeout_ms: u64) -> (r: Result<i32, WasmError>)
    ensures
        match reply_view(reply) {
            Ok(value) => r is Ok && r->Ok_0 == value,
            Err(fault) => r is Err && r->Err_0@ == call_error(fault, timeout_ms),
        },
{
    match reply {
        Ok(value) => Ok(value),
        Err(fault) => Err(map_fault(fault, timeout_ms)),
    }
}

/// What the host goes on with after a copy into or out of memory.
pub fn settle_copy<T>(copied: Result<T, String>) -> (r: Result<T, WasmError>)
    ensures
        match copied {
            Ok(value) => r is Ok && r->Ok_0 == value,
            Err(message) => r is Err && r->Err_0@ == WasmErrorView::Io(message@),
        },
{
    match copied {
        Ok(value) => Ok(value),
        Err(message) => Err(WasmError::Io(message)),
    }
}

/// Runs a program that has not been called yet: hands it the input, calls its
/// function and reads its output. Gives the output and the size of its memory.
pub fn run_guest(guest: &mut Guest, timeout_ms: u64, input: &[u8]) -> (r: Result<(Vec<u8>, usize), WasmError>)
    requires
        old(guest).wf(),
        old(guest).run().calls.len() == 0,
        old(guest).run().may_begin_with(old(guest).memory()),
    ensures
        final(guest).wf(),
        final(guest).run() == (GuestRun { calls: final(guest).run().calls, ..old(guest).run() }),
        is_run(final(guest).run(), input@),
        run_view(r) == run_result(final(guest).run().calls, input@, timeout_ms),
        r is Ok ==> r->Ok_0.1 <= old(guest).run().bounds.max_bytes,
        r is Ok ==> {
            let calls = final(guest).run().calls;
            let place = calls[0]->Alloc_reply->Ok_0 as usize;
            &&& calls.len() == 2
            &&& r->Ok_0.0@.len() == calls[1]->Process_reply->Ok_0
            &&& forall|i: int| 0 <= i < r->Ok_0.0@.len() ==> #[trigger] r->Ok_0.0@[i] == final(guest).memory()[place + i]
            &&& r->Ok_0.1 == final(guest).memory().len()
        },
{
    #[verifier::truncate]
    let length: i32 = input.len() as i32;
    let pointer: i32 = match settle_call(guest.call_alloc(length), timeout_ms) {
        Ok(pointer) => pointer,
        Err(e) => {
            return Err(e);
        },
    };
    #[verifier::truncate]
    let offset: usize = pointer as usize;
    if let Err(e) = settle_copy(guest.write(offset, input)) {
        return Err(e);
    }
    let raw: i32 = match settle_call(guest.call_process(pointer, length), timeout_ms) {
        Ok(raw) => raw,
        Err(e) => {
            return Err(e);
        },
    };
    let output_len: usize = match output_length(raw) {
        Ok(output_len) => output_len,
        Err(e) => {
            return Err(e);
        },
    };
    let mut output: Vec<u8> = Vec::new();
    if output_len > 0 {
        output = match settle_copy(guest.read(offset, output_len)) {
            Ok(bytes) => bytes,
            Err(e) => {
                return Err(e);
            },
        };
    }
    let used: usize = guest.size();
    assert(output_len == 0 ==> output@ =~= Seq::<u8>::empty());
    Ok((output, used))
}

/// What an execution of a program on an engine, which starts at `start`, can give:
/// the program cannot be used, for one of the reasons in [`OpenError`], or it is
/// run, with its memory within the limit, and the run decides. Either way the
/// program is bound to end with a trap at the engine's next epoch.
pub open spec fn execution_outcome(
    engine: wasmtime::Engine,
    program: Program,
    opened: Result<GuestRun, OpenError>,
    config: ExecutionConfig,
    input: Seq<u8>,
    start: Instant,
    r: Result<ExecutionResult, WasmError>,
) -> bool {
    let max_bytes = config.memory_limit_bytes as int;
    match opened {
        Err(e) => {
            &&& exists|bounds: Bounds|
                bounded(bounds, engine, max_bytes) && #[trigger] may_open(
                    program,
                    bounds,
                    config.function_name@,
                    Some(e),
                )
            &&& r is Err
            &&& r->Err_0@ == open_error(e, config.function_name@, config.timeout_ms)
        },
        Ok(run) => {
            &&& bounded(run.bounds, engine, max_bytes)
            &&& may_open(program, run.bounds, config.function_name@, None)
            &&& run.program == program.bytes
            &&& run.function == config.function_name@
            &&& is_run(run, input)
            &&& execution_view(r) == run_result(run.calls, input, config.timeout_ms)
            &&& r is Ok ==> r->Ok_0.memory_used_bytes <= config.memory_limit_bytes
            &&& r is Ok ==> may_be_millis_since(start, r->Ok_0.execution_time_ms)
        },
    }
}

/// The output and the memory use that an execution gave, or its error.
pub open spec fn execution_view(r: Result<ExecutionResult, WasmError>) -> Result<(Seq<u8>, int), WasmErrorView> {
    match r {
        Ok(done) => Ok((done.output@, done.memory_used_bytes as int)),
        Err(e) => Err(e@),
    }
}

/// Whether an execution tells the truth about exports: it succeeds only if the
/// program has all that the host uses, and reports as missing only the first that
/// the program lacks.
pub open spec fn exports_told(program: Seq<u8>, function: Seq<char>, r: Result<ExecutionResult, WasmError>) -> bool {
    match r {
        Ok(_) => first_missing(program, function) is None,
        Err(e) => e@ is MissingExport ==> first_missing(program, function) == Some(e@->MissingExport_0),
    }
}

/// Whether a result is one that an execution of a program on an engine can give,
/// from a reading of the clock on.
pub open spec fn executed(
    engine: wasmtime::Engine,
    program: Program,
    config: ExecutionConfig,
    input: Seq<u8>,
    r: Result<ExecutionResult, WasmError>,
) -> bool {
    exists|opened: Result<GuestRun, OpenError>, start: Instant|
        may_be_now(start) && #[trigger] execution_outcome(engine, program, opened, config, input, start, r)
}

/// Runs a compiled module in a store of its own, on this engine. Blocks until it
/// ends; it is interrupted when the engine's epoch is incremented.
pub fn execute_sync_compiled(engine: &WasmEngine, module: &Module, config: &ExecutionConfig, input: &[u8]) -> (r: Result<
    ExecutionResult,
    WasmError,
>)
    ensures
        exports_told(compiled_from(*module), config.function_name@, r),
        executed(engine.handle(), program_of(*module), *config, input@, r),
{
    let start = Instant::now();
    execute_started(engine, module, config, input, start)
}

/// [`execute_sync_compiled`] of an execution that started at `start`.
pub fn execute_started(
    engine: &WasmEngine,
    module: &Module,
    config: &ExecutionConfig,
    input: &[u8],
    start: Instant,
) -> (r: Result<ExecutionResult, WasmError>)
    ensures
        exports_told(compiled_from(*module), config.function_name@, r),
        r is Ok ==> may_be_millis_since(start, r->Ok_0.execution_time_ms),
        exists|opened: Result<GuestRun, OpenError>| #[trigger] execution_outcome(
            engine.handle(),
            program_of(*module),
            opened,
            *config,
            input@,
            start,
            r,
        ),
{
    let mut guest = match Guest::open(engine, module, config.memory_limit_bytes, config.function_name.as_str()) {
        Ok(guest) => guest,
        Err(e) => {
            let r = Err(map_open_error(e, config.function_name.as_str(), config.timeout_ms));
            assert(execution_outcome(engine.handle(), program_of(*module), Err(e), *config, input@, start, r));
            return r;
        },
    };
    let r = match run_guest(&mut guest, config.timeout_ms, input) {
        Ok((output, used)) => {
            let execution_time_ms: u64 = millis_since(&start);
            Ok(ExecutionResult { output, execution_time_ms, memory_used_bytes: used as u64 })
        },
        Err(e) => Err(e),
    };
    assert(execution_outcome(engine.handle(), program_of(*module), Ok(guest.run()), *config, input@, start, r));
    r
}

/// What an execution from bytes on an engine can give: the bytes are not a valid
/// module, or cannot be compiled on the engine, or the execution of the program,
/// compiled on the same engine, decides.
pub open spec fn bytes_outcome(
    engine: wasmtime::Engine,
    bytes: Seq<u8>,
    opened: Result<GuestRun, OpenError>,
    config: ExecutionConfig,
    input: Seq<u8>,
    start: Instant,
    r: Result<ExecutionResult, WasmError>,
) -> bool {
    if !is_valid_wasm(bytes) {
        r is Err && r->Err_0 is InvalidWasm && may_be_invalid(bytes, r->Err_0->InvalidWasm_0@)
    } else {
        not_compiled(engine, bytes, r) || execution_outcome(
            engine,
            Program { bytes, engine },
            opened,
            config,
            input,
            start,
            r,
        )
    }
}

/// Whether a result says that bytes did not compile on an engine, which can be.
pub open spec fn not_compiled<T>(engine: wasmtime::Engine, bytes: Seq<u8>, r: Result<T, WasmError>) -> bool {
    r is Err && r->Err_0 is CompilationFailed && may_not_compile(engine, bytes, r->Err_0->CompilationFailed_0@)
}

/// Checks that bytes are a valid module.
pub fn check_valid(engine: &WasmEngine, wasm_bytes: &[u8]) -> (r: Result<(), WasmError>)
    ensures
        match r {
            Ok(()) => is_valid_wasm(wasm_bytes@),
            Err(e) => {
                &&& !is_valid_wasm(wasm_bytes@)
                &&& e is InvalidWasm
                &&& may_be_invalid(wasm_bytes@, e->InvalidWasm_0@)
            },
        },
{
    match engine.validate(wasm_bytes) {
        Ok(()) => Ok(()),
        Err(message) => Err(WasmError::InvalidWasm(message)),
    }
}

/// Validates and compiles a module.
pub fn prepare(engine: &WasmEngine, wasm_bytes: &[u8]) -> (r: Result<Module, WasmError>)
    ensures
        match r {
            Ok(module) => is_valid_wasm(wasm_bytes@) && program_of(module) == (Program {
                bytes: wasm_bytes@,
                engine: engine.handle(),
            }),
            Err(_) => if is_valid_wasm(wasm_bytes@) {
                not_compiled(engine.handle(), wasm_bytes@, r)
            } else {
                r->Err_0 is InvalidWasm && may_be_invalid(wasm_bytes@, r->Err_0->InvalidWasm_0@)
            },
        },
{
    if let Err(e) = check_valid(engine, wasm_bytes) {
        return Err(e);
    }
    match engine.compile(wasm_bytes) {
        Ok(module) => Ok(module),
        Err(message) => Err(WasmError::CompilationFailed(message)),
    }
}

/// Whether a result is one that an execution from bytes on an engine can give,
/// from a reading of the clock on.
pub open spec fn bytes_executed(
    engine: wasmtime::Engine,
    bytes: Seq<u8>,
    config: ExecutionConfig,
    input: Seq<u8>,
    r: Result<ExecutionResult, WasmError>,
) -> bool {
    exists|opened: Result<GuestRun, OpenError>, start: Instant|
        may_be_now(start) && #[trigger] bytes_outcome(engine, bytes, opened, config, input, start, r)
}

/// Validates, compiles and runs a module on this engine. Blocks until it ends.
pub fn execute_sync(engine: &WasmEngine, wasm_bytes: &[u8], config: &ExecutionConfig, input: &[u8]) -> (r: Result<
    ExecutionResult,
    WasmError,
>)
    ensures
        exports_told(wasm_bytes@, config.function_name@, r),
        bytes_executed(engine.handle(), wasm_bytes@, *config, input@, r),
{
    match prepare(engine, wasm_bytes) {
        Ok(module) => {
            let r = execute_sync_compiled(engine, &module, config, input);
            proof {
                let program = Program { bytes: wasm_bytes@, engine: engine.handle() };
                let (opened, start) = choose|opened: Result<GuestRun, OpenError>, start: Instant|
                    may_be_now(start) && #[trigger] execution_outcome(
                        engine.handle(),
                        program,
                        opened,
                        *config,
                        input@,
                        start,
                        r,
                    );
                assert(bytes_outcome(engine.handle(), wasm_bytes@, opened, *config, input@, start, r));
            }
            r
        },
        Err(e) => {
            let start = Instant::now();
            let r = Err(e);
            assert(bytes_outcome(engine.handle(), wasm_bytes@, Err(OpenError::NoAlloc), *config, input@, start, r));
            r
        },
    }
}

// ── Sandbox ────────────────────────────────────────────────────────────────

/// Runs modules on one engine.
pub struct WasmSandbox {
    engine: Arc<WasmEngine>,
}

impl WasmSandbox {
    pub fn new(engine: Arc<WasmEngine>) -> (sandbox: Self)
        ensures
            sandbox.engine() == engine,
    {
        WasmSandbox { engine }
    }

    /// The engine on which modules run.
    pub closed spec fn engine(&self) -> Arc<WasmEngine> {
        self.engine
    }

    /// Execute `wasm_bytes` inside a sandboxed environment.
    ///
    /// Validates and compiles the bytes on every call. Use
    /// [`execute_compiled`](Self::execute_compiled) together with a module cache
    /// to avoid repeated compilation. Blocks until the module ends; the caller
    /// enforces the time budget by incrementing the engine's epoch.
    pub fn execute(&self, wasm_bytes: &[u8], config: &ExecutionConfig, input: &[u8]) -> (r: Result<
        ExecutionResult,
        WasmError,
    >)
        ensures
            exports_told(wasm_bytes@, config.function_name@, r),
            bytes_executed(self.engine().handle(), wasm_bytes@, *config, input@, r),
    {
        execute_sync(&self.engine, wasm_bytes, config, input)
    }

    /// Execute a compiled module. Blocks until the module ends; the caller
    /// enforces the time budget by incrementing the engine's epoch.
    pub fn execute_compiled(&self, module: Arc<Module>, config: &ExecutionConfig, input: &[u8]) -> (r: Result<
        ExecutionResult,
        WasmError,
    >)
        ensures
            exports_told(compiled_from(*module), config.function_name@, r),
            executed(self.engine().handle(), program_of(*module), *config, input@, r),
    {
        execute_sync_compiled(&self.engine, &module, config, input)
    }
}

/// The bytes in a mebibyte.
pub const MEBIBYTE: u64 = 1_048_576;

/// Creates a [`WasmSandbox`] and executes the module in a single call.
pub fn execute_wasm(
    engine: Arc<WasmEngine>,
    wasm_bytes: &[u8],
    function_name: &str,
    input: &[u8],
    timeout_ms: u64,
    memory_limit_mb: u64,
) -> (r: Result<ExecutionResult, WasmError>)
    requires
        memory_limit_mb * MEBIBYTE <= u64::MAX,
    ensures
        exports_told(wasm_bytes@, function_name@, r),
        exists|config: ExecutionConfig|
            {
                &&& #[trigger] bytes_executed(engine.handle(), wasm_bytes@, config, input@, r)
                &&& config.memory_limit_bytes == memory_limit_mb * MEBIBYTE
                &&& config.memory_limit_bytes == memory_limit_mb * 1_048_576
                &&& config.timeout_ms == timeout_ms
                &&& config.function_name@ == function_name@
            },
{
    let sandbox = WasmSandbox::new(engine);
    let config = ExecutionConfig {
        memory_limit_bytes: memory_limit_mb * MEBIBYTE,
        timeout_ms,
        function_name: function_name.to_string(),
    };
    sandbox.execute(wasm_bytes, &config, input)
}

/// Whether a program did alike in two executions: its instantiation failed alike or
/// succeeded, and where it was called, it replied alike and left the same memory.
pub open spec fn alike(
    one: Result<GuestRun, OpenError>,
    other: Result<GuestRun, OpenError>,
    input: Seq<u8>,
) -> bool {
    match (one, other) {
        (Err(OpenError::Failed(one)), Err(OpenError::Failed(other))) => one@ == other@,
        (Err(OpenError::Failed(_)), _) => false,
        (_, Err(OpenError::Failed(_))) => false,
        (Ok(one), Ok(other)) => {
            &&& one.calls[0]->Alloc_reply == other.calls[0]->Alloc_reply
            &&& one.calls[0]->Alloc_left.len() == other.calls[0]->Alloc_left.len()
            &&& has_room(one.calls[0], input) ==> one.calls[1]->Process_reply == other.calls[1]->Process_reply
                && one.calls[1]->Process_left == other.calls[1]->Process_left
        },
        _ => true,
    }
}

/// Executions of the same program with the same limits and input agree if the
/// program does alike in both: they give the same output and memory use, or the
/// same error, whether the program was compiled for the execution or before.
pub proof fn law_like_replies_like_results(
    engine: wasmtime::Engine,
    bytes: Seq<u8>,
    one: Result<GuestRun, OpenError>,
    other: Result<GuestRun, OpenError>,
    config: ExecutionConfig,
    input: Seq<u8>,
    one_start: Instant,
    other_start: Instant,
    from_bytes: Result<ExecutionResult, WasmError>,
    compiled: Result<ExecutionResult, WasmError>,
)
    requires
        is_valid_wasm(bytes),
        !not_compiled(engine, bytes, from_bytes),
        bytes_outcome(engine, bytes, one, config, input, one_start, from_bytes),
        execution_outcome(engine, Program { bytes, engine }, other, config, input, other_start, compiled),
        alike(one, other, input),
    ensures
        execution_view(from_bytes) == execution_view(compiled),
{
}

/// A program is run on the engine of the execution and within its memory limit, and
/// is bound to end with a trap at the epoch after one in which the engine was.
pub proof fn law_program_is_bound_to_the_next_epoch(
    engine: wasmtime::Engine,
    program: Program,
    run: GuestRun,
    config: ExecutionConfig,
    input: Seq<u8>,
    start: Instant,
    r: Result<ExecutionResult, WasmError>,
)
    requires
        execution_outcome(engine, program, Ok(run), config, input, start, r),
    ensures
        run.bounds.engine == engine,
        run.bounds.max_bytes == config.memory_limit_bytes,
        run.bounds.deadline.traps,
        may_be_epoch(engine, run.bounds.deadline.epoch - 1),
{
}

/// A module that was compiled from valid bytes on an engine can give exactly what
/// an execution from the bytes on that engine can give, once the bytes have been
/// compiled.
pub proof fn law_compiled_module_runs_like_its_bytes(
    engine: wasmtime::Engine,
    module: Module,
    config: ExecutionConfig,
    input: Seq<u8>,
    r: Result<ExecutionResult, WasmError>,
)
    requires
        module_engine(module) == engine,
        is_valid_wasm(compiled_from(module)),
        !not_compiled(engine, compiled_from(module), r),
    ensures
        bytes_executed(engine, compiled_from(module), config, input, r) <==> executed(
            engine,
            program_of(module),
            config,
            input,
            r,
        ),
{
    let bytes = compiled_from(module);
    let program = program_of(module);
    if bytes_executed(engine, bytes, config, input, r) {
        let (opened, start) = choose|opened: Result<GuestRun, OpenError>, start: Instant|
            may_be_now(start) && #[trigger] bytes_outcome(engine, bytes, opened, config, input, start, r);
        assert(execution_outcome(engine, program, opened, config, input, start, r));
    }
    if executed(engine, program, config, input, r) {
        let (opened, start) = choose|opened: Result<GuestRun, OpenError>, start: Instant|
            may_be_now(start) && #[trigger] execution_outcome(engine, program, opened, config, input, start, r);
        assert(bytes_outcome(engine, bytes, opened, config, input, start, r));
    }
}

/// A program that is interrupted, by the trap at its deadline or with a message that
/// says so, and to which no memory was denied, has timed out; one to which memory
/// was denied has exceeded its limit, however its call failed.
pub proof fn law_interruption_is_a_timeout(fault: FaultView, timeout_ms: u64)
    ensures
        !fault.denied && fault.kind is Interrupted ==> call_error(fault, timeout_ms) == WasmErrorView::Timeout(timeout_ms),
        !fault.denied && fault.kind is Other && (occurs_in("interrupt"@, fault.kind->Other_0) || occurs_in(
            "Interrupt"@,
            fault.kind->Other_0,
        )) ==> call_error(fault, timeout_ms) == WasmErrorView::Timeout(timeout_ms),
        fault.denied ==> call_error(fault, timeout_ms) == WasmErrorView::MemoryLimitExceeded,
{
}

/// A program whose function replies with a length that its memory reaches from
/// the place of the input on succeeds, and its output is what it left there.
pub proof fn law_output_within_memory_succeeds(left: Seq<u8>, offset: usize, raw: i32, timeout_ms: u64)
    requires
        raw >= 0,
        raw > 0 ==> offset + raw <= left.len(),
    ensures
        output_result(Ok(raw), left, offset, timeout_ms) is Ok,
        output_result(Ok(raw), left, offset, timeout_ms)->Ok_0.0.len() == raw,
        raw > 0 ==> output_result(Ok(raw), left, offset, timeout_ms)->Ok_0.0 == left.subrange(offset as int, offset + raw),
{
}

/// Once the input has been written into memory, the program finds it where the
/// host says that it is, and the rest of its memory is as it was.
pub proof fn law_input_is_in_place(memory: Seq<u8>, offset: int, input: Seq<u8>, i: int)
    requires
        0 <= offset,
        offset + input.len() <= memory.len(),
        0 <= i < memory.len(),
    ensures
        overwritten(memory, offset, input).len() == memory.len(),
        overwritten(memory, offset, input).subrange(offset, offset + input.len()) == input,
        !(offset <= i < offset + input.len()) ==> overwritten(memory, offset, input)[i] == memory[i],
{
    assert(overwritten(memory, offset, input).subrange(offset, offset + input.len()) =~= input);
}

// ── What an execution gives ────────────────────────────────────────────────

/// The output of an execution that succeeds has as many bytes as the called function
/// returned, and they are those of the memory that it left, from the place on that
/// `alloc` returned. The memory use is the size of that memory, within the limit.
pub proof fn law_output_is_what_the_function_left(
    engine: wasmtime::Engine,
    program: Program,
    run: GuestRun,
    config: ExecutionConfig,
    input: Seq<u8>,
    start: Instant,
    r: Result<ExecutionResult, WasmError>,
)
    requires
        execution_outcome(engine, program, Ok(run), config, input, start, r),
        r is Ok,
    ensures
        run.calls.len() == 2,
        run.calls[0] is Alloc,
        run.calls[0]->Alloc_reply is Ok,
        run.calls[1] is Process,
        run.calls[1]->Process_reply is Ok,
        ({
            let place = run.calls[0]->Alloc_reply->Ok_0 as usize;
            let length = run.calls[1]->Process_reply->Ok_0;
            let left = run.calls[1]->Process_left;
            let done = r->Ok_0;
            &&& done.output@.len() == length
            &&& length > 0 ==> place + length <= left.len()
            &&& forall|i: int| 0 <= i < length ==> #[trigger] done.output@[i] == left[place + i]
            &&& done.memory_used_bytes == left.len()
            &&& done.memory_used_bytes <= config.memory_limit_bytes
        }),
{
}

/// An execution succeeds exactly if the program gives a place at which the whole input
/// fits into its memory, and its function returns a length that its memory reaches from
/// that place on.
pub proof fn law_when_an_execution_succeeds(
    engine: wasmtime::Engine,
    program: Program,
    run: GuestRun,
    config: ExecutionConfig,
    input: Seq<u8>,
    start: Instant,
    r: Result<ExecutionResult, WasmError>,
)
    requires
        execution_outcome(engine, program, Ok(run), config, input, start, r),
    ensures
        r is Ok <==> {
            let place = run.calls[0]->Alloc_reply->Ok_0 as usize;
            let length = run.calls[1]->Process_reply->Ok_0;
            &&& run.calls[0]->Alloc_reply is Ok
            &&& place + input.len() <= run.calls[0]->Alloc_left.len()
            &&& run.calls[1]->Process_reply is Ok
            &&& length == 0 || (length > 0 && place + length <= run.calls[1]->Process_left.len())
        },
{
}

/// The program is asked for room for as many bytes as the input has. If it gives room,
/// its function is called once with that place and that length, and finds the input
/// there and the rest of its memory untouched; else the function is not called. Both
/// calls go to the program of the execution, the second to the function that the
/// configuration names, and both see and leave the memory that the program exports.
pub proof fn law_program_is_given_the_input(
    engine: wasmtime::Engine,
    program: Program,
    run: GuestRun,
    config: ExecutionConfig,
    input: Seq<u8>,
    start: Instant,
    r: Result<ExecutionResult, WasmError>,
)
    requires
        execution_outcome(engine, program, Ok(run), config, input, start, r),
    ensures
        ({
            let first = run.calls[0];
            let second = run.calls[1];
            let size = input.len() as i32;
            let place = first->Alloc_reply->Ok_0 as usize;
            &&& first is Alloc
            &&& first->size == size
            &&& input.len() <= i32::MAX ==> first->size == input.len()
            &&& may_begin(program.bytes, run.bounds, "memory"@, first->Alloc_given)
            &&& may_reply(
                program.bytes,
                run.bounds,
                "alloc"@,
                seq![size],
                "memory"@,
                first->Alloc_given,
                first->Alloc_reply,
                first->Alloc_left,
            )
            &&& if first->Alloc_reply is Ok && place + input.len() <= first->Alloc_left.len() {
                &&& run.calls.len() == 2
                &&& second is Process
                &&& second->pointer == first->Alloc_reply->Ok_0
                &&& second->length == size
                &&& second->Process_given.len() == first->Alloc_left.len()
                &&& forall|i: int| 0 <= i < input.len() ==> second->Process_given[place + i] == #[trigger] input[i]
                &&& forall|i: int|
                    0 <= i < first->Alloc_left.len() && !(place <= i < place + input.len())
                        ==> #[trigger] second->Process_given[i] == first->Alloc_left[i]
                &&& may_reply(
                    program.bytes,
                    run.bounds,
                    config.function_name@,
                    seq![first->Alloc_reply->Ok_0, size],
                    "memory"@,
                    second->Process_given,
                    second->Process_reply,
                    second->Process_left,
                )
            } else {
                run.calls.len() == 1
            }
        }),
{
    let first = run.calls[0];
    let place = first->Alloc_reply->Ok_0 as usize;
    if has_room(first, input) {
        assert forall|i: int| 0 <= i < input.len() implies run.calls[1]->Process_given[place + i] == #[trigger] input[i] by {
            law_input_is_in_place(first->Alloc_left, place as int, input, place + i);
            assert(overwritten(first->Alloc_left, place as int, input).subrange(place as int, place + input.len())[i]
                == input[i]);
        }
        assert forall|i: int|
            0 <= i < first->Alloc_left.len() && !(place <= i < place + input.len()) implies #[trigger] run.calls[1]->Process_given[i]
            == first->Alloc_left[i] by {
            law_input_is_in_place(first->Alloc_left, place as int, input, i);
        }
        assert(run.calls[1]->Process_given.len() == first->Alloc_left.len());
    }
}

/// Whether an error is the right one for a failed call into a program: the memory limit
/// if memory was denied to it, a timeout if it was interrupted, else its trap.
pub open spec fn tells_fault(e: WasmErrorView, fault: FaultView, timeout_ms: u64) -> bool {
    if fault.denied {
        e == WasmErrorView::MemoryLimitExceeded
    } else {
        match fault.kind {
            KindView::Interrupted => e == WasmErrorView::Timeout(timeout_ms),
            KindView::Trap(name) => e == WasmErrorView::Trap(name),
            KindView::Other(message) => if occurs_in("interrupt"@, message) || occurs_in("Interrupt"@, message) {
                e == WasmErrorView::Timeout(timeout_ms)
            } else {
                e == WasmErrorView::Trap(message)
            },
        }
    }
}

/// The error of an execution that does not succeed says what went wrong: the program
/// could not be opened or lacks an export; one of its two calls failed; the input does
/// not fit into its memory at the place that it gave; or its function returned a length
/// below zero or beyond its memory.
pub proof fn law_error_says_what_went_wrong(
    engine: wasmtime::Engine,
    program: Program,
    opened: Result<GuestRun, OpenError>,
    config: ExecutionConfig,
    input: Seq<u8>,
    start: Instant,
    r: Result<ExecutionResult, WasmError>,
)
    requires
        execution_outcome(engine, program, opened, config, input, start, r),
        r is Err,
    ensures
        match opened {
            Err(OpenError::Failed(fault)) => tells_fault(r->Err_0@, fault@, config.timeout_ms),
            Err(OpenError::NoAlloc) => {
                r->Err_0@ == WasmErrorView::MissingExport("alloc"@) && !exports_unary(program.bytes, "alloc"@)
            },
            Err(OpenError::NoFunction) => {
                r->Err_0@ == WasmErrorView::MissingExport(config.function_name@) && !exports_binary(
                    program.bytes,
                    config.function_name@,
                )
            },
            Err(OpenError::NoMemory) => {
                r->Err_0@ == WasmErrorView::MissingExport("memory"@) && !exports_memory(program.bytes, "memory"@)
            },
            Ok(run) => match run.calls[0]->Alloc_reply {
                Err(fault) => tells_fault(r->Err_0@, fault, config.timeout_ms),
                Ok(pointer) => if pointer as usize + input.len() > run.calls[0]->Alloc_left.len() {
                    r->Err_0@ == WasmErrorView::Io("out of bounds memory access"@)
                } else {
                    match run.calls[1]->Process_reply {
                        Err(fault) => tells_fault(r->Err_0@, fault, config.timeout_ms),
                        Ok(length) => r->Err_0@ == WasmErrorView::Io(
                            if length < 0 {
                                "process returned negative length: "@ + "-"@ + decimal_text((-length) as nat)
                            } else {
                                "out of bounds memory access"@
                            },
                        ),
                    }
                },
            },
        },
{
    reveal_strlit("-");
    if let Ok(run) = opened {
        if has_room(run.calls[0], input) && run.calls[1]->Process_reply is Ok {
            let length = run.calls[1]->Process_reply->Ok_0;
            if length < 0 {
                assert(negative_length(length as int) =~= "process returned negative length: "@ + "-"@ + decimal_text(
                    (-length) as nat,
                ));
            }
        }
    }
}

/// What an execution of a compiled module gives is the module's own answer: there is a
/// call of the configured function, with a place at which the input lay, whose returned
/// length is that of the output, and whose memory held the output at that place.
pub proof fn law_output_is_the_answer_of_the_program(
    engine: wasmtime::Engine,
    program: Program,
    config: ExecutionConfig,
    input: Seq<u8>,
    r: Result<ExecutionResult, WasmError>,
)
    requires
        executed(engine, program, config, input, r),
        r is Ok,
    ensures
        exists|bounds: Bounds, arguments: Seq<i32>, given: Seq<u8>, reply: ReplyView, left: Seq<u8>|
            {
                let pointer = arguments[0];
                let length = reply->Ok_0;
                &&& #[trigger] may_reply(
                    program.bytes,
                    bounds,
                    config.function_name@,
                    arguments,
                    "memory"@,
                    given,
                    reply,
                    left,
                )
                &&& arguments == seq![pointer, input.len() as i32]
                &&& reply is Ok
                &&& bounds.max_bytes == config.memory_limit_bytes
                &&& forall|i: int| 0 <= i < input.len() ==> given[pointer as usize + i] == #[trigger] input[i]
                &&& r->Ok_0.output@.len() == length
                &&& forall|i: int| 0 <= i < length ==> #[trigger] r->Ok_0.output@[i] == left[pointer as usize + i]
                &&& r->Ok_0.memory_used_bytes == left.len()
            },
{
    let (opened, start) = choose|opened: Result<GuestRun, OpenError>, start: Instant|
        may_be_now(start) && #[trigger] execution_outcome(engine, program, opened, config, input, start, r);
    let run = opened->Ok_0;
    law_output_is_what_the_function_left(engine, program, run, config, input, start, r);
    law_when_an_execution_succeeds(engine, program, run, config, input, start, r);
    law_program_is_given_the_input(engine, program, run, config, input, start, r);
    let arguments = seq![run.calls[0]->Alloc_reply->Ok_0, input.len() as i32];
    assert(may_reply(
        program.bytes,
        run.bounds,
        config.function_name@,
        arguments,
        "memory"@,
        run.calls[1]->Process_given,
        run.calls[1]->Process_reply,
        run.calls[1]->Process_left,
    ));
    assert(arguments[0] == run.calls[0]->Alloc_reply->Ok_0);
}

/// An execution from bytes refuses bytes that are not a valid module, as such, and
/// otherwise gives what an execution of the module that they compile to can give, or
/// says that they do not compile.
pub proof fn law_execution_from_bytes(
    engine: wasmtime::Engine,
    bytes: Seq<u8>,
    config: ExecutionConfig,
    input: Seq<u8>,
    r: Result<ExecutionResult, WasmError>,
)
    requires
        bytes_executed(engine, bytes, config, input, r),
    ensures
        !is_valid_wasm(bytes) ==> r is Err && r->Err_0@ is InvalidWasm && may_be_invalid(
            bytes,
            r->Err_0@->InvalidWasm_0,
        ),
        is_valid_wasm(bytes) ==> {
            ||| executed(engine, Program { bytes, engine }, config, input, r)
            ||| r is Err && r->Err_0@ is CompilationFailed && may_not_compile(
                engine,
                bytes,
                r->Err_0@->CompilationFailed_0,
            )
        },
{
    let (opened, start) = choose|opened: Result<GuestRun, OpenError>, start: Instant|
        may_be_now(start) && #[trigger] bytes_outcome(engine, bytes, opened, config, input, start, r);
    if is_valid_wasm(bytes) && !not_compiled(engine, bytes, r) {
        assert(execution_outcome(engine, Program { bytes, engine }, opened, config, input, start, r));
    }
}

/// The message of an error begins with the kind of the error and ends with its reason.
pub proof fn law_error_message_tells_kind_and_reason(what: Seq<char>, ms: u64)
    ensures
        WasmErrorView::InvalidWasm(what).text() == "Invalid WASM binary: "@ + what,
        WasmErrorView::CompilationFailed(what).text() == "Compilation failed: "@ + what,
        WasmErrorView::MissingExport(what).text() == "Missing export: "@ + what,
        WasmErrorView::Timeout(ms).text() == "Execution timeout after "@ + decimal_text(ms as nat) + "ms"@,
        WasmErrorView::MemoryLimitExceeded.text() == "Memory limit exceeded"@,
        WasmErrorView::Trap(what).text() == "Runtime trap: "@ + what,
        WasmErrorView::Io(what).text() == "IO error: "@ + what,
{
}

/// An execution succeeds only if the program exports `alloc`, the configured function and
/// `memory`, and what it reports as missing is the first of these that the program lacks.
pub proof fn law_missing_export_is_missing(program: Seq<u8>, function: Seq<char>, r: Result<ExecutionResult, WasmError>)
    requires
        exports_told(program, function, r),
    ensures
        r is Ok ==> exports_unary(program, "alloc"@) && exports_binary(program, function) && exports_memory(
            program,
            "memory"@,
        ),
        r is Err && r->Err_0@ is MissingExport ==> {
            let missing = r->Err_0@->MissingExport_0;
            ||| missing == "alloc"@ && !exports_unary(program, "alloc"@)
            ||| missing == function && exports_unary(program, "alloc"@) && !exports_binary(program, function)
            ||| missing == "memory"@ && exports_unary(program, "alloc"@) && exports_binary(program, function)
                && !exports_memory(program, "memory"@)
        },
{
}

/// An error is seen as it is.
pub proof fn law_error_is_seen_as_it_is(e: WasmError)
    ensures
        match e {
            WasmError::InvalidWasm(what) => e@ == WasmErrorView::InvalidWasm(what@),
            WasmError::CompilationFailed(what) => e@ == WasmErrorView::CompilationFailed(what@),
            WasmError::MissingExport(what) => e@ == WasmErrorView::MissingExport(what@),
            WasmError::Timeout(ms) => e@ == WasmErrorView::Timeout(ms),
            WasmError::MemoryLimitExceeded => e@ == WasmErrorView::MemoryLimitExceeded,
            WasmError::Trap(what) => e@ == WasmErrorView::Trap(what@),
            WasmError::Io(what) => e@ == WasmErrorView::Io(what@),
        },
{
}

} // verus!
