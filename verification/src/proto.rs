//! The messages that the control plane and the edge nodes exchange.

use vstd::prelude::*;

verus! {

/// A registered module that an edge node fetches from the control plane.
#[derive(Debug)]
pub struct ModuleRef {
    pub name: String,
    pub version: String,
    /// SHA-256 hex digest that the bytes must have; empty for no check.
    pub hash: String,
    pub fetch_url: String,
}

impl Clone for ModuleRef {
    fn clone(&self) -> (r: Self)
        ensures
            r == *self,
    {
        ModuleRef {
            name: self.name.clone(),
            version: self.version.clone(),
            hash: self.hash.clone(),
            fetch_url: self.fetch_url.clone(),
        }
    }
}

/// Where the WASM code of a task comes from.
#[derive(Debug)]
pub enum WasmSource {
    WasmBytes(Vec<u8>),
    ModuleRef(ModuleRef),
}

/// What a [`WasmSource`] says.
pub enum SourceView {
    Bytes(Seq<u8>),
    Module { name: Seq<char>, version: Seq<char>, hash: Seq<char>, fetch_url: Seq<char> },
}

impl View for ModuleRef {
    type V = SourceView;

    open spec fn view(&self) -> SourceView {
        SourceView::Module {
            name: self.name@,
            version: self.version@,
            hash: self.hash@,
            fetch_url: self.fetch_url@,
        }
    }
}

impl View for WasmSource {
    type V = SourceView;

    open spec fn view(&self) -> SourceView {
        match self {
            WasmSource::WasmBytes(bytes) => SourceView::Bytes(bytes@),
            WasmSource::ModuleRef(module) => module@,
        }
    }
}

/// A copy of a byte string.
pub fn copy_bytes(bytes: &Vec<u8>) -> (r: Vec<u8>)
    ensures
        r@ == bytes@,
{
    let r = bytes.clone();
    assert(r@ =~= bytes@);
    r
}

impl Clone for WasmSource {
    fn clone(&self) -> (r: Self)
        ensures
            r@ == self@,
    {
        match self {
            WasmSource::WasmBytes(bytes) => WasmSource::WasmBytes(copy_bytes(bytes)),
            WasmSource::ModuleRef(module) => WasmSource::ModuleRef(module.clone()),
        }
    }
}

/// A request to run a task on an edge node.
#[derive(Debug)]
pub struct ExecuteTaskRequest {
    pub task_id: String,
    pub function_name: String,
    pub input: Vec<u8>,
    pub timeout_ms: u64,
    pub memory_limit_mb: u64,
    pub trace_id: String,
    pub wasm_source: Option<WasmSource>,
}

/// What an [`ExecuteTaskRequest`] says.
pub struct RequestView {
    pub task_id: Seq<char>,
    pub function_name: Seq<char>,
    pub input: Seq<u8>,
    pub timeout_ms: u64,
    pub memory_limit_mb: u64,
    pub trace_id: Seq<char>,
    pub source: Option<SourceView>,
}

impl View for ExecuteTaskRequest {
    type V = RequestView;

    open spec fn view(&self) -> RequestView {
        RequestView {
            task_id: self.task_id@,
            function_name: self.function_name@,
            input: self.input@,
            timeout_ms: self.timeout_ms,
            memory_limit_mb: self.memory_limit_mb,
            trace_id: self.trace_id@,
            source: match self.wasm_source {
                Some(source) => Some(source@),
                None => None,
            },
        }
    }
}

impl Clone for ExecuteTaskRequest {
    fn clone(&self) -> (r: Self)
        ensures
            r@ == self@,
    {
        ExecuteTaskRequest {
            task_id: self.task_id.clone(),
            function_name: self.function_name.clone(),
            input: copy_bytes(&self.input),
            timeout_ms: self.timeout_ms,
            memory_limit_mb: self.memory_limit_mb,
            trace_id: self.trace_id.clone(),
            wasm_source: match &self.wasm_source {
                Some(source) => Some(source.clone()),
                None => None,
            },
        }
    }
}

/// The answer of an edge node that ran a task, or failed to.
#[derive(Debug)]
pub struct ExecuteTaskResponse {
    pub task_id: String,
    pub success: bool,
    pub output: Vec<u8>,
    pub execution_time_ms: u64,
    /// Why the task failed; empty when it succeeded.
    pub error: String,
}

/// What an [`ExecuteTaskResponse`] says.
pub struct ResponseView {
    pub task_id: Seq<char>,
    pub success: bool,
    pub output: Seq<u8>,
    pub execution_time_ms: u64,
    pub error: Seq<char>,
}

impl View for ExecuteTaskResponse {
    type V = ResponseView;

    open spec fn view(&self) -> ResponseView {
        ResponseView {
            task_id: self.task_id@,
            success: self.success,
            output: self.output@,
            execution_time_ms: self.execution_time_ms,
            error: self.error@,
        }
    }
}

/// The answer of an edge node to a health check.
#[derive(Debug)]
pub struct HealthResponse {
    pub node_id: String,
    pub active_tasks: u32,
    pub ready: bool,
}

/// The kinds of failed calls that the services tell apart.
#[derive(Debug, Clone, Copy, PartialEq, Eq, Structural)]
pub enum RpcCode {
    InvalidArgument,
    ResourceExhausted,
    Internal,
    DataLoss,
    /// Any other failure, of the connection or of the node.
    Other,
}

/// Why a call failed.
#[derive(Debug)]
pub struct RpcStatus {
    pub code: RpcCode,
    pub message: String,
}

/// Requests and answers are seen as they are: every field by its characters, bytes or value.
pub proof fn law_messages_are_seen_as_they_are(request: ExecuteTaskRequest, response: ExecuteTaskResponse)
    ensures
        request@.task_id == request.task_id@,
        request@.function_name == request.function_name@,
        request@.input == request.input@,
        request@.timeout_ms == request.timeout_ms,
        request@.memory_limit_mb == request.memory_limit_mb,
        request@.trace_id == request.trace_id@,
        request.wasm_source is None <==> request@.source is None,
        request.wasm_source is Some ==> match request.wasm_source->0 {
            WasmSource::WasmBytes(bytes) => request@.source->0 == SourceView::Bytes(bytes@),
            WasmSource::ModuleRef(module) => {
                &&& request@.source->0 is Module
                &&& request@.source->0->name == module.name@
                &&& request@.source->0->version == module.version@
                &&& request@.source->0->hash == module.hash@
                &&& request@.source->0->fetch_url == module.fetch_url@
            },
        },
        response@.task_id == response.task_id@,
        response@.success == response.success,
        response@.output == response.output@,
        response@.execution_time_ms == response.execution_time_ms,
        response@.error == response.error@,
{
}

} // verus!
