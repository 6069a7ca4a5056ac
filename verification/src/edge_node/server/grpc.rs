//! The life of a task on an edge node.
//!
//! An [`EdgeTask`] says what has to be done next; its driver does it and hands
//! over the outcome. Each way in which a task can end consumes it and lets it
//! leave the node, so a task occupies exactly one slot from [`EdgeTask::begin`]
//! to its end.

use std::sync::Arc;

use vstd::prelude::*;
use vstd::string::StringExecFns;
use wasmtime::Module;

use crate::codec::{hex_digit, hex_text, sha256, sha256_hex, sha256_text};
use crate::control_plane::registry::{key_of, module_key};
use crate::edge_node::downloader::ModuleDownloader;
use crate::edge_node::state::NodeState;
use crate::proto::{
    ExecuteTaskRequest, ExecuteTaskResponse, HealthResponse, ModuleRef, ResponseView, RpcCode, RpcStatus, WasmSource,
};
use crate::wasm_runtime::sandbox::{ExecutionConfig, ExecutionResult, WasmError, MEBIBYTE};

verus! {

/// The time budget of a task that names none, in milliseconds.
pub const DEFAULT_TIMEOUT_MS: u64 = 5_000;

/// What has to be done next for a task.
pub enum Stage {
    /// Look these WASM bytes up in the cache, by their digest.
    LookUpBytes(Vec<u8>),
    /// Validate these WASM bytes.
    Validate(Vec<u8>),
    /// Compile these WASM bytes into the cache, under their digest.
    CompileBytes(Vec<u8>),
    /// Look this module up in the cache.
    LookUp(ModuleRef),
    /// Download this module.
    Download(ModuleRef),
    /// Compile these bytes of this module into the cache.
    Compile(ModuleRef, Vec<u8>),
    /// Run this compiled module.
    Run(Arc<Module>),
}

/// A task that occupies a slot of the node.
pub struct EdgeTask {
    pub task_id: String,
    pub config: ExecutionConfig,
    pub input: Vec<u8>,
    pub stage: Stage,
}

/// Whether `config` is the configuration that a request asks for: at least one
/// mebibyte of memory, and five seconds if no time budget is given.
pub open spec fn config_for(request: ExecuteTaskRequest, config: ExecutionConfig) -> bool {
    &&& config.memory_limit_bytes == MEBIBYTE * (if request.memory_limit_mb == 0 { 1 } else { request.memory_limit_mb as int })
    &&& config.timeout_ms == (if request.timeout_ms == 0 { DEFAULT_TIMEOUT_MS } else { request.timeout_ms })
    &&& config.function_name@ == request.function_name@
}

/// Whether a failed call has this code and this message.
pub open spec fn is_status(status: RpcStatus, code: RpcCode, message: Seq<char>) -> bool {
    status.code == code && status.message@ == message
}

/// The cache key of the module that a stage works on: the name and version of a
/// registered module, the digest of bytes that a task brings. A module that is
/// there to be run needs none.
pub open spec fn stage_key(stage: Stage) -> Option<Seq<char>> {
    match stage {
        Stage::LookUp(module) => Some(key_of(module.name@, module.version@)),
        Stage::Download(module) => Some(key_of(module.name@, module.version@)),
        Stage::Compile(module, _) => Some(key_of(module.name@, module.version@)),
        Stage::LookUpBytes(bytes) => Some(sha256_text(bytes@)),
        Stage::Validate(bytes) => Some(sha256_text(bytes@)),
        Stage::CompileBytes(bytes) => Some(sha256_text(bytes@)),
        Stage::Run(_) => None,
    }
}

/// The stage at which a task starts.
pub open spec fn first_stage(source: WasmSource) -> Stage {
    match source {
        WasmSource::WasmBytes(bytes) => Stage::LookUpBytes(bytes),
        WasmSource::ModuleRef(module) => Stage::LookUp(module),
    }
}

/// The stage after a cache lookup: the run of the module that was found; else a
/// module is downloaded, and bytes are validated.
pub open spec fn after_lookup(stage: Stage, found: Option<Arc<Module>>) -> Stage {
    match found {
        Some(module) => Stage::Run(module),
        None => match stage {
            Stage::LookUp(module) => Stage::Download(module),
            Stage::LookUpBytes(bytes) => Stage::Validate(bytes),
            other => other,
        },
    }
}

/// The answer for a task that has ended.
pub open spec fn response_for(task_id: Seq<char>, result: Result<ExecutionResult, WasmError>) -> ResponseView {
    match result {
        Ok(done) => ResponseView {
            task_id,
            success: true,
            output: done.output@,
            execution_time_ms: done.execution_time_ms,
            error: Seq::empty(),
        },
        Err(e) => ResponseView {
            task_id,
            success: false,
            output: Seq::empty(),
            execution_time_ms: 0,
            error: e@.text(),
        },
    }
}

impl EdgeTask {
    /// Takes a task on if the node has a slot for it.
    pub fn begin(st: &mut NodeState, request: ExecuteTaskRequest, has_permit: bool) -> (r: Result<EdgeTask, RpcStatus>)
        requires
            has_permit ==> old(st).active_tasks < usize::MAX,
            has_permit ==> old(st).total_failed < u64::MAX,
            has_permit ==> request.memory_limit_mb * MEBIBYTE <= u64::MAX,
        ensures
            match r {
                Ok(task) => {
                    &&& has_permit
                    &&& request.wasm_source is Some
                    &&& task.task_id == request.task_id
                    &&& task.input == request.input
                    &&& config_for(request, task.config)
                    &&& task.config.function_name@ == request.function_name@
                    &&& task.config.timeout_ms == (if request.timeout_ms == 0 { 5_000 } else { request.timeout_ms })
                    &&& task.config.memory_limit_bytes == 1_048_576 * (if request.memory_limit_mb == 0 {
                        1
                    } else {
                        request.memory_limit_mb as int
                    })
                    &&& final(st).active_tasks == old(st).active_tasks + 1
                    &&& task.stage == first_stage(request.wasm_source->0)
                    &&& *final(st) == old(st).admitted()
                },
                Err(status) => if !has_permit {
                    &&& is_status(status, RpcCode::ResourceExhausted, "node is at maximum concurrent task capacity"@)
                    &&& *final(st) == *old(st)
                } else {
                    &&& request.wasm_source is None
                    &&& is_status(status, RpcCode::InvalidArgument, "wasm_source must be set (wasm_bytes or module_ref)"@)
                    &&& *final(st) == old(st).admitted().failed()
                },
            },
    {
        if !has_permit {
            return Err(
                RpcStatus {
                    code: RpcCode::ResourceExhausted,
                    message: "node is at maximum concurrent task capacity".to_string(),
                },
            );
        }
        st.take_on();
        let limit_mb: u64 = if request.memory_limit_mb == 0 { 1 } else { request.memory_limit_mb };
        let config = ExecutionConfig {
            memory_limit_bytes: limit_mb * MEBIBYTE,
            timeout_ms: if request.timeout_ms == 0 { DEFAULT_TIMEOUT_MS } else { request.timeout_ms },
            function_name: request.function_name,
        };
        let stage = match request.wasm_source {
            Some(WasmSource::WasmBytes(bytes)) => Stage::LookUpBytes(bytes),
            Some(WasmSource::ModuleRef(module)) => Stage::LookUp(module),
            None => {
                st.record_failure();
                return Err(
                    RpcStatus {
                        code: RpcCode::InvalidArgument,
                        message: "wasm_source must be set (wasm_bytes or module_ref)".to_string(),
                    },
                );
            },
        };
        Ok(EdgeTask { task_id: request.task_id, config, input: request.input, stage })
    }

    /// The cache key of a registered module.
    pub fn cache_key(module: &ModuleRef) -> (key: String)
        ensures
            key@ == key_of(module.name@, module.version@),
    {
        module_key(module.name.as_str(), module.version.as_str())
    }

    /// The cache key of WASM bytes that a task brings: their SHA-256 digest in
    /// hexadecimal.
    pub fn inline_key(bytes: &[u8]) -> (key: String)
        ensures
            key@ == sha256_text(bytes@),
    {
        sha256_hex(bytes)
    }

    /// The key under which the cache holds the module of the task, while the task
    /// has need of it.
    pub fn key(&self) -> (key: Option<String>)
        ensures
            match stage_key(self.stage) {
                Some(text) => key is Some && key->0@ == text,
                None => key is None,
            },
    {
        match &self.stage {
            Stage::LookUp(module) | Stage::Download(module) | Stage::Compile(module, _) => Some(Self::cache_key(module)),
            Stage::LookUpBytes(bytes) | Stage::Validate(bytes) | Stage::CompileBytes(bytes) => Some(
                Self::inline_key(bytes.as_slice()),
            ),
            Stage::Run(_) => None,
        }
    }

    /// Goes on after the cache lookup: with the module that was found, or else
    /// with its download, or with the validation of the bytes that the task brings.
    pub fn looked_up(self, found: Option<Arc<Module>>) -> (task: EdgeTask)
        requires
            self.stage is LookUp || self.stage is LookUpBytes,
        ensures
            task == (EdgeTask { stage: after_lookup(self.stage, found), ..self }),
    {
        let stage = match found {
            Some(module) => Stage::Run(module),
            None => match self.stage {
                Stage::LookUp(module) => Stage::Download(module),
                Stage::LookUpBytes(bytes) => Stage::Validate(bytes),
                other => other,
            },
        };
        EdgeTask { task_id: self.task_id, config: self.config, input: self.input, stage }
    }

    /// Goes on after the validation of the bytes that the task brings: with their
    /// compilation. Bytes that are not valid end the task.
    pub fn validated(self, st: &mut NodeState, validation: Result<(), WasmError>) -> (r: Result<EdgeTask, ExecuteTaskResponse>)
        requires
            self.stage is Validate,
            old(st).total_failed < u64::MAX,
        ensures
            match validation {
                Ok(()) => {
                    &&& r is Ok
                    &&& r->Ok_0 == (EdgeTask { stage: Stage::CompileBytes(self.stage->Validate_0), ..self })
                    &&& *final(st) == *old(st)
                },
                Err(e) => {
                    &&& r is Err
                    &&& r->Err_0@ == response_for(self.task_id@, Err(e))
                    &&& *final(st) == old(st).failed()
                },
            },
    {
        match validation {
            Ok(()) => {
                let stage = match self.stage {
                    Stage::Validate(bytes) => Stage::CompileBytes(bytes),
                    other => other,
                };
                Ok(EdgeTask { task_id: self.task_id, config: self.config, input: self.input, stage })
            },
            Err(e) => {
                st.record_failure();
                Err(failed_response(self.task_id, e))
            },
        }
    }

    /// Goes on after the compilation of the bytes that the task brings: with the
    /// run of the module. Bytes that do not compile end the task.
    pub fn compiled_bytes(self, st: &mut NodeState, compilation: Result<Arc<Module>, WasmError>) -> (r: Result<
        EdgeTask,
        ExecuteTaskResponse,
    >)
        requires
            self.stage is CompileBytes,
            old(st).total_failed < u64::MAX,
        ensures
            match compilation {
                Ok(module) => {
                    &&& r is Ok
                    &&& r->Ok_0 == (EdgeTask { stage: Stage::Run(module), ..self })
                    &&& *final(st) == *old(st)
                },
                Err(e) => {
                    &&& r is Err
                    &&& r->Err_0@ == response_for(self.task_id@, Err(e))
                    &&& *final(st) == old(st).failed()
                },
            },
    {
        match compilation {
            Ok(module) => Ok(
                EdgeTask { task_id: self.task_id, config: self.config, input: self.input, stage: Stage::Run(module) },
            ),
            Err(e) => {
                st.record_failure();
                Err(failed_response(self.task_id, e))
            },
        }
    }

    /// Goes on after the download: with the compilation of the bytes, if they
    /// have the digest that the request asks for. A request without a digest
    /// accepts all bytes.
    pub fn downloaded(self, st: &mut NodeState, download: Result<Vec<u8>, String>) -> (r: Result<EdgeTask, RpcStatus>)
        requires
            self.stage is Download,
            old(st).total_failed < u64::MAX,
        ensures
            ({
                let module = self.stage->Download_0;
                match download {
                    Ok(bytes) => {
                        let intact = module.hash@.len() == 0 || sha256_text(bytes@) == module.hash@;
                        download_outcome(self, *old(st), download, intact, *final(st), r)
                    },
                    Err(_) => download_outcome(self, *old(st), download, true, *final(st), r),
                }
            }),
    {
        let intact = match (&self.stage, &download) {
            (Stage::Download(module), Ok(bytes)) => module.hash.as_str().is_empty() || ModuleDownloader::verify_hash(
                bytes.as_slice(),
                module.hash.as_str(),
            ),
            _ => true,
        };
        self.settle_download(st, download, intact)
    }

    /// [`downloaded`](Self::downloaded), given whether the bytes have the digest
    /// that the request asks for.
    pub fn settle_download(self, st: &mut NodeState, download: Result<Vec<u8>, String>, intact: bool) -> (r: Result<EdgeTask, RpcStatus>)
        requires
            self.stage is Download,
            old(st).total_failed < u64::MAX,
        ensures
            download_outcome(self, *old(st), download, intact, *final(st), r),
    {
        let bytes = match download {
            Ok(bytes) => bytes,
            Err(reason) => {
                st.release();
                return Err(
                    RpcStatus {
                        code: RpcCode::Internal,
                        message: "module download failed: ".to_string().concat(reason.as_str()),
                    },
                );
            },
        };
        if !intact {
            st.record_failure();
            return Err(
                RpcStatus { code: RpcCode::DataLoss, message: "module hash mismatch — possible tampering".to_string() },
            );
        }
        let stage = match self.stage {
            Stage::Download(module) => Stage::Compile(module, bytes),
            other => other,
        };
        Ok(EdgeTask { task_id: self.task_id, config: self.config, input: self.input, stage })
    }

    /// Goes on after the compilation: with the run of the module.
    pub fn compiled(self, st: &mut NodeState, compilation: Result<Arc<Module>, WasmError>) -> (r: Result<EdgeTask, RpcStatus>)
        requires
            self.stage is Compile,
        ensures
            match compilation {
                Ok(module) => {
                    &&& r is Ok
                    &&& r->Ok_0 == (EdgeTask { stage: Stage::Run(module), ..self })
                    &&& *final(st) == *old(st)
                },
                Err(e) => {
                    &&& r is Err
                    &&& is_status(r->Err_0, RpcCode::Internal, "compilation failed: "@ + e@.text())
                    &&& *final(st) == old(st).released()
                },
            },
    {
        match compilation {
            Ok(module) => Ok(
                EdgeTask { task_id: self.task_id, config: self.config, input: self.input, stage: Stage::Run(module) },
            ),
            Err(e) => {
                st.release();
                Err(
                    RpcStatus {
                        code: RpcCode::Internal,
                        message: "compilation failed: ".to_string().concat(e.message().as_str()),
                    },
                )
            },
        }
    }

    /// Ends the task with the result of its run.
    pub fn finish(self, st: &mut NodeState, result: Result<ExecutionResult, WasmError>) -> (response: ExecuteTaskResponse)
        requires
            self.stage is Run,
            old(st).total_failed < u64::MAX,
            old(st).total_executed < u64::MAX,
            result is Ok ==> old(st).total_execution_time_ms + result->Ok_0.execution_time_ms <= u64::MAX,
        ensures
            response@ == response_for(self.task_id@, result),
            response.task_id@ == self.task_id@,
            response.success == (result is Ok),
            result is Ok ==> response.output@ == result->Ok_0.output@,
            result is Ok ==> response.execution_time_ms == result->Ok_0.execution_time_ms,
            result is Err ==> response.error@ == result->Err_0@.text(),
            *final(st) == (match result {
                Ok(done) => old(st).succeeded(done.execution_time_ms),
                Err(_) => old(st).failed(),
            }),
    {
        match result {
            Ok(done) => {
                st.record_success(done.execution_time_ms);
                let response = ExecuteTaskResponse {
                    task_id: self.task_id,
                    success: true,
                    output: done.output,
                    execution_time_ms: done.execution_time_ms,
                    error: String::new(),
                };
                assert(response@.error =~= Seq::<char>::empty());
                response
            },
            Err(e) => {
                st.record_failure();
                failed_response(self.task_id, e)
            },
        }
    }
}

/// The answer for a task that failed.
fn failed_response(task_id: String, e: WasmError) -> (response: ExecuteTaskResponse)
    ensures
        response@ == response_for(task_id@, Err(e)),
{
    let response = ExecuteTaskResponse {
        task_id,
        success: false,
        output: Vec::new(),
        execution_time_ms: 0,
        error: e.message(),
    };
    assert(response@.output =~= Seq::<u8>::empty());
    response
}

/// What follows from a download: a failed one and one with the wrong digest end
/// the task, each with its own answer; only the latter counts as a failed task.
pub open spec fn download_outcome(
    task: EdgeTask,
    before: NodeState,
    download: Result<Vec<u8>, String>,
    intact: bool,
    after: NodeState,
    r: Result<EdgeTask, RpcStatus>,
) -> bool {
    match download {
        Ok(bytes) => if intact {
            &&& r is Ok
            &&& r->Ok_0 == (EdgeTask { stage: Stage::Compile(task.stage->Download_0, bytes), ..task })
            &&& after == before
        } else {
            &&& r is Err
            &&& is_status(r->Err_0, RpcCode::DataLoss, "module hash mismatch — possible tampering"@)
            &&& after == before.failed()
        },
        Err(reason) => {
            &&& r is Err
            &&& is_status(r->Err_0, RpcCode::Internal, "module download failed: "@ + reason@)
            &&& after == before.released()
        },
    }
}

/// The answer to a health check. A count beyond 32 bits is cut to its low bits.
pub fn health(node_id: &str, st: &NodeState) -> (response: HealthResponse)
    ensures
        response.node_id@ == node_id@,
        response.active_tasks == st.active_tasks as u32,
        response.ready,
{
    #[verifier::truncate]
    let active_tasks: u32 = st.active_tasks as u32;
    HealthResponse { node_id: node_id.to_string(), active_tasks, ready: true }
}

// ── Accounting ─────────────────────────────────────────────────────────────

/// Something that happens to a task on a node.
pub enum TaskEvent {
    /// It is taken on.
    Admitted,
    /// It leaves after a success that took so many milliseconds.
    Succeeded(u64),
    /// It leaves and counts as failed.
    Failed,
    /// It leaves without being counted.
    Released,
}

/// The state of a node after a series of events.
pub open spec fn after_events(st: NodeState, events: Seq<TaskEvent>) -> NodeState
    decreases events.len(),
{
    if events.len() == 0 {
        st
    } else {
        let before = after_events(st, events.drop_last());
        match events.last() {
            TaskEvent::Admitted => before.admitted(),
            TaskEvent::Succeeded(ms) => before.succeeded(ms),
            TaskEvent::Failed => before.failed(),
            TaskEvent::Released => before.released(),
        }
    }
}

/// How many tasks were taken on.
pub open spec fn admissions(events: Seq<TaskEvent>) -> int
    decreases events.len(),
{
    if events.len() == 0 {
        0
    } else {
        admissions(events.drop_last()) + if events.last() is Admitted { 1int } else { 0int }
    }
}

/// How many tasks succeeded.
pub open spec fn successes(events: Seq<TaskEvent>) -> int
    decreases events.len(),
{
    if events.len() == 0 {
        0
    } else {
        successes(events.drop_last()) + if events.last() is Succeeded { 1int } else { 0int }
    }
}

/// How many tasks failed.
pub open spec fn failures(events: Seq<TaskEvent>) -> int
    decreases events.len(),
{
    if events.len() == 0 {
        0
    } else {
        failures(events.drop_last()) + if events.last() is Failed { 1int } else { 0int }
    }
}

/// How many of the tasks that were taken on have not left.
pub open spec fn running(events: Seq<TaskEvent>) -> int {
    admissions(events) - (events.len() - admissions(events))
}

/// Whether at every point at least as many tasks were taken on as have left, and
/// no more were running than there are slots.
pub open spec fn within_slots(events: Seq<TaskEvent>, slots: int) -> bool
    decreases events.len(),
{
    &&& 0 <= running(events) <= slots
    &&& events.len() > 0 ==> within_slots(events.drop_last(), slots)
}

/// The number of active tasks always grows by the number of tasks taken on less
/// the number of tasks that have left. The totals grow by the tasks that succeeded
/// and by the tasks that failed.
pub proof fn law_slots_balance(st: NodeState, slots: int, events: Seq<TaskEvent>)
    requires
        st.active_tasks + slots <= usize::MAX,
        within_slots(events, slots),
    ensures
        after_events(st, events).active_tasks == st.active_tasks + running(events),
        st.total_executed + successes(events) <= u64::MAX ==> after_events(st, events).total_executed
            == st.total_executed + successes(events),
        st.total_failed + failures(events) <= u64::MAX ==> after_events(st, events).total_failed == st.total_failed
            + failures(events),
        0 <= admissions(events) <= events.len(),
        0 <= successes(events) <= events.len(),
        0 <= failures(events) <= events.len(),
    decreases events.len(),
{
    if events.len() > 0 {
        law_slots_balance(st, slots, events.drop_last());
    }
}

/// How many permits are free on a node with so many slots, if each task holds one
/// from the moment it is taken on until it leaves.
pub open spec fn free_permits(slots: int, events: Seq<TaskEvent>) -> int {
    slots - running(events)
}

/// The active tasks and the free permits always make up the slots of a node that
/// was idle. Once every task that was taken on has left, whatever its outcome, no
/// task is active and all permits are free.
pub proof fn law_idle_node_is_free(st: NodeState, slots: int, events: Seq<TaskEvent>)
    requires
        st.active_tasks == 0,
        slots <= usize::MAX,
        within_slots(events, slots),
    ensures
        after_events(st, events).active_tasks + free_permits(slots, events) == slots,
        free_permits(slots, events) >= 0,
        running(events) == 0 ==> after_events(st, events).active_tasks == 0 && free_permits(slots, events) == slots,
{
    law_slots_balance(st, slots, events);
}

/// Bytes that a task brings never share a cache key with a registered module.
pub proof fn law_inline_keys_are_apart(bytes: Seq<u8>, name: Seq<char>, version: Seq<char>)
    ensures
        sha256_text(bytes) != key_of(name, version),
{
    reveal_strlit(":");
    let digest = sha256(bytes);
    let text = hex_text(digest);
    let key = key_of(name, version);
    if text == key {
        let i = name.len() as int;
        assert(key[i] == ':');
        assert(0 <= i < text.len());
        let b = digest[i / 2];
        assert(text[i] == (if i % 2 == 0 { hex_digit(b as int / 16) } else { hex_digit(b as int % 16) }));
        assert(text[i] != ':');
    }
}

/// A task that is taken on and then leaves, in whichever way, gives its slot
/// back.
pub proof fn law_every_end_frees_the_slot(st: NodeState, execution_time_ms: u64)
    requires
        st.active_tasks < usize::MAX,
    ensures
        st.admitted().succeeded(execution_time_ms).active_tasks == st.active_tasks,
        st.admitted().failed().active_tasks == st.active_tasks,
        st.admitted().released() == st,
{
}

/// A task runs as its request asks: the function that the request names, within its time
/// budget, five seconds if it gives none, and within its memory limit in mebibytes of
/// 1024 times 1024 bytes, at least one.
pub proof fn law_task_runs_as_requested(request: ExecuteTaskRequest, config: ExecutionConfig)
    requires
        config_for(request, config),
    ensures
        config.function_name@ == request.function_name@,
        request.timeout_ms > 0 ==> config.timeout_ms == request.timeout_ms,
        request.timeout_ms == 0 ==> config.timeout_ms == 5_000,
        request.memory_limit_mb > 0 ==> config.memory_limit_bytes == request.memory_limit_mb * 1024 * 1024,
        request.memory_limit_mb == 0 ==> config.memory_limit_bytes == 1024 * 1024,
{
    assert(request.memory_limit_mb * 1024 * 1024 == request.memory_limit_mb * 1_048_576) by (nonlinear_arith);
}

/// The answer for a task carries its id and says whether it succeeded: with its output
/// and time, or with the message of its error and no output.
pub proof fn law_answer_tells_the_result(task_id: Seq<char>, result: Result<ExecutionResult, WasmError>)
    ensures
        ({
            let answer = response_for(task_id, result);
            &&& answer.task_id == task_id
            &&& answer.success <==> result is Ok
            &&& result is Ok ==> answer.output == result->Ok_0.output@ && answer.execution_time_ms
                == result->Ok_0.execution_time_ms && answer.error.len() == 0
            &&& result is Err ==> answer.output.len() == 0 && answer.execution_time_ms == 0 && answer.error
                == result->Err_0@.text()
        }),
{
}

/// A task starts with a look into the cache for its own code, and every stage on the way
/// to the run works on that code under one key: what is compiled under it is what the
/// next task with the same code finds. The keys of two registered modules are those of
/// their names and versions.
pub proof fn law_stages_keep_the_key(source: WasmSource, bytes: Vec<u8>)
    ensures
        ({
            let first = first_stage(source);
            let next = after_lookup(first, None);
            match source {
                WasmSource::WasmBytes(code) => {
                    &&& first == Stage::LookUpBytes(code)
                    &&& next == Stage::Validate(code)
                    &&& stage_key(first) == Some(sha256_text(code@))
                    &&& stage_key(next) == stage_key(first)
                    &&& stage_key(Stage::CompileBytes(code)) == stage_key(first)
                },
                WasmSource::ModuleRef(module) => {
                    &&& first == Stage::LookUp(module)
                    &&& next == Stage::Download(module)
                    &&& stage_key(first) == Some(module.name@ + ":"@ + module.version@)
                    &&& stage_key(next) == stage_key(first)
                    &&& stage_key(Stage::Compile(module, bytes)) == stage_key(first)
                },
            }
        }),
{
}

/// A module that is found in the cache is the one that runs, without a download or a
/// compilation.
pub proof fn law_found_module_runs(stage: Stage, module: Arc<Module>)
    ensures
        after_lookup(stage, Some(module)) == Stage::Run(module),
        stage_key(Stage::Run(module)) is None,
{
}

/// Downloaded bytes go on to be compiled exactly if they arrived and have the digest that
/// the request asks for, or if it asks for none; the task stays the same, and so does its
/// slot. Bytes with another digest are refused as lost data and count as a failed task; a
/// failed download is an internal error and does not.
pub proof fn law_only_intact_bytes_are_compiled(
    task: EdgeTask,
    before: NodeState,
    download: Result<Vec<u8>, String>,
    intact: bool,
    after: NodeState,
    r: Result<EdgeTask, RpcStatus>,
)
    requires
        task.stage is Download,
        before.total_failed < u64::MAX,
        download_outcome(task, before, download, intact, after, r),
    ensures
        r is Ok <==> download is Ok && intact,
        r is Ok ==> {
            &&& r->Ok_0.task_id == task.task_id
            &&& r->Ok_0.config == task.config
            &&& r->Ok_0.input == task.input
            &&& r->Ok_0.stage == Stage::Compile(task.stage->Download_0, download->Ok_0)
            &&& after == before
        },
        r is Err ==> after.active_tasks == (if before.active_tasks > 0 { before.active_tasks - 1 } else { 0 }),
        r is Err && download is Ok ==> {
            &&& r->Err_0.code == RpcCode::DataLoss
            &&& r->Err_0.message@ == "module hash mismatch — possible tampering"@
            &&& after.total_failed == before.total_failed + 1
        },
        download is Err ==> {
            &&& r->Err_0.code == RpcCode::Internal
            &&& r->Err_0.message@ == "module download failed: "@ + download->Err_0@
            &&& after.total_failed == before.total_failed
        },
{
}

/// A failed call has the code and the message that it is said to have.
pub proof fn law_status_has_code_and_message(status: RpcStatus, code: RpcCode, message: Seq<char>)
    ensures
        is_status(status, code, message) <==> status.code == code && status.message@ == message,
{
}

} // verus!
