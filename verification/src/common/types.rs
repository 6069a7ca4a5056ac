use vstd::prelude::*;

use crate::proto::copy_bytes;

verus! {

/// Task submitted by a user to the control plane.
#[derive(Debug)]
pub struct Task {
    pub id: String,
    pub wasm_bytes: Vec<u8>,
    pub function_name: String,
    pub input: Vec<u8>,
    pub timeout_ms: u64,
    /// UUID generated at the API boundary; it accompanies the task through all
    /// services so that logs and spans can be correlated.
    pub trace_id: String,
}

/// Result of a task that has ended.
#[derive(Debug)]
pub struct TaskResult {
    pub task_id: String,
    pub node_id: String,
    pub success: bool,
    pub output: Vec<u8>,
    pub execution_time_ms: u64,
    pub error: Option<String>,
}

/// What a [`TaskResult`] says.
pub struct TaskResultView {
    pub task_id: Seq<char>,
    pub node_id: Seq<char>,
    pub success: bool,
    pub output: Seq<u8>,
    pub execution_time_ms: u64,
    pub error: Option<Seq<char>>,
}

/// The characters of an optional text.
pub open spec fn text_of(s: Option<String>) -> Option<Seq<char>> {
    match s {
        Some(s) => Some(s@),
        None => None,
    }
}

impl View for TaskResult {
    type V = TaskResultView;

    open spec fn view(&self) -> TaskResultView {
        TaskResultView {
            task_id: self.task_id@,
            node_id: self.node_id@,
            success: self.success,
            output: self.output@,
            execution_time_ms: self.execution_time_ms,
            error: text_of(self.error),
        }
    }
}

/// A copy of an optional text.
pub fn copy_text(s: &Option<String>) -> (r: Option<String>)
    ensures
        r == *s,
{
    match s {
        Some(text) => Some(text.clone()),
        None => None,
    }
}

impl Clone for Task {
    fn clone(&self) -> (r: Self)
        ensures
            r.id == self.id,
            r.wasm_bytes@ == self.wasm_bytes@,
            r.function_name == self.function_name,
            r.input@ == self.input@,
            r.timeout_ms == self.timeout_ms,
            r.trace_id == self.trace_id,
    {
        Task {
            id: self.id.clone(),
            wasm_bytes: copy_bytes(&self.wasm_bytes),
            function_name: self.function_name.clone(),
            input: copy_bytes(&self.input),
            timeout_ms: self.timeout_ms,
            trace_id: self.trace_id.clone(),
        }
    }
}

impl Clone for TaskResult {
    fn clone(&self) -> (r: Self)
        ensures
            r@ == self@,
    {
        TaskResult {
            task_id: self.task_id.clone(),
            node_id: self.node_id.clone(),
            success: self.success,
            output: copy_bytes(&self.output),
            execution_time_ms: self.execution_time_ms,
            error: copy_text(&self.error),
        }
    }
}

/// Node registered in the control plane.
#[derive(Debug)]
pub struct NodeInfo {
    pub id: String,
    /// gRPC address (e.g. `http://127.0.0.1:50051`)
    pub address: String,
    /// HTTP admin/metrics address (e.g. `http://127.0.0.1:9090`), used by the
    /// control plane to warm module caches. Empty when the node has none.
    pub http_address: String,
    pub active_tasks: usize,
    pub healthy: bool,
    /// Maximum number of tasks this node runs at a time.
    pub max_concurrent_tasks: usize,
}

impl Clone for NodeInfo {
    fn clone(&self) -> (r: Self)
        ensures
            r == *self,
    {
        NodeInfo {
            id: self.id.clone(),
            address: self.address.clone(),
            http_address: self.http_address.clone(),
            active_tasks: self.active_tasks,
            healthy: self.healthy,
            max_concurrent_tasks: self.max_concurrent_tasks,
        }
    }
}

/// The number of tasks that a node runs at a time unless it says otherwise.
pub fn default_max_concurrent_tasks() -> (n: usize)
    ensures
        n == 10,
{
    10
}

/// A result is seen as it is: every field by its characters, bytes or value.
pub proof fn law_result_is_seen_as_it_is(result: TaskResult)
    ensures
        result@.task_id == result.task_id@,
        result@.node_id == result.node_id@,
        result@.success == result.success,
        result@.output == result.output@,
        result@.execution_time_ms == result.execution_time_ms,
        result@.error is Some <==> result.error is Some,
        result.error is Some ==> result@.error->0 == result.error->0@,
{
}

} // verus!
