//! What the API's endpoints do.

use vstd::prelude::*;
use vstd::std_specs::convert::FromSpecImpl;
use vstd::string::StringExecFns;

use crate::clock::may_be_utc_now;
use crate::codec::{base64_decode, base64_decoded, base64_encode, base64_encoded};
use crate::common::errors::EdgeErrorView;
use crate::common::types::{copy_text, default_max_concurrent_tasks, text_of};
use crate::common::{EdgeError, ModuleMetadata, NodeInfo, TaskResult};
use crate::control_plane::circuit_breaker::{CircuitBreaker, CircuitState};
use crate::control_plane::registry::{
    describes, key_of, listed_before, metadata_of, module_key, StoredModule,
};
use crate::control_plane::scheduler::{candidates, values};
use crate::control_plane::state::{AppState, AppView};
use crate::edge_node::downloader::{module_url, url_of};
use crate::ids::{is_fresh_id, new_uuid, IdSource};
use crate::proto::{ExecuteTaskRequest, ModuleRef, RequestView, SourceView, WasmSource};
use crate::table::{has_key, key_index, law_lookup_stored, lookup, stored};

verus! {

// ── Response envelope ──────────────────────────────────────────────────────

/// The envelope of every answer: either data or an error.
pub struct ApiResponse<T> {
    pub data: Option<T>,
    pub error: Option<String>,
}

impl<T> ApiResponse<T> {
    /// An answer with data.
    pub fn ok(data: T) -> (response: Self)
        ensures
            response.data == Some(data),
            response.error is None,
    {
        ApiResponse { data: Some(data), error: None }
    }
}

/// An answer with an error.
pub fn error_response<T>(message: String) -> (response: ApiResponse<T>)
    ensures
        response.data is None,
        response.error == Some(message),
{
    ApiResponse { data: None, error: Some(message) }
}

// ── AppError ───────────────────────────────────────────────────────────────

/// An error of an endpoint.
pub struct AppError(EdgeError);

impl View for AppError {
    type V = EdgeErrorView;

    closed spec fn view(&self) -> EdgeErrorView {
        self.0@
    }
}

impl AppError {
    /// The endpoint's error for `e`.
    pub closed spec fn of(e: EdgeError) -> Self {
        AppError(e)
    }

    /// The HTTP status for an error.
    pub open spec fn status_of(e: EdgeErrorView) -> u16 {
        match e {
            EdgeErrorView::TaskNotFound(_) => 404,
            EdgeErrorView::NodeUnavailable(_) => 503,
            EdgeErrorView::Timeout => 504,
            EdgeErrorView::InvalidWasm(_) => 400,
            EdgeErrorView::ExecutionFailed(_) => 500,
            EdgeErrorView::NetworkError(_) => 500,
        }
    }

    /// The HTTP status and the body of the answer.
    pub fn into_response<T>(self) -> (r: (u16, ApiResponse<T>))
        ensures
            r.0 == Self::status_of(self@),
            self@ is TaskNotFound ==> r.0 == 404,
            self@ is NodeUnavailable ==> r.0 == 503,
            self@ is Timeout ==> r.0 == 504,
            self@ is InvalidWasm ==> r.0 == 400,
            self@ is ExecutionFailed || self@ is NetworkError ==> r.0 == 500,
            r.1.data is None,
            text_of(r.1.error) == Some(self@.text()),
    {
        let status: u16 = match &self.0 {
            EdgeError::TaskNotFound(_) => 404,
            EdgeError::NodeUnavailable(_) => 503,
            EdgeError::Timeout => 504,
            EdgeError::InvalidWasm(_) => 400,
            _ => 500,
        };
        (status, error_response(self.0.message()))
    }
}

impl From<EdgeError> for AppError {
    fn from(e: EdgeError) -> (r: Self)
    {
        AppError(e)
    }
}

impl FromSpecImpl<EdgeError> for AppError {
    open spec fn obeys_from_spec() -> bool {
        true
    }

    open spec fn from_spec(e: EdgeError) -> Self {
        AppError::of(e)
    }
}

fn invalid_wasm(message: String) -> (e: AppError)
    ensures
        e@ == EdgeErrorView::InvalidWasm(message@),
{
    AppError::from(EdgeError::InvalidWasm(message))
}

fn not_found(what: String) -> (e: AppError)
    ensures
        e@ == EdgeErrorView::TaskNotFound(what@),
{
    AppError::from(EdgeError::TaskNotFound(what))
}

// ── Request bodies ─────────────────────────────────────────────────────────

/// Submit a task with inline WASM bytes **or** a reference to a registered module.
#[derive(Debug)]
pub struct SubmitTaskRequest {
    pub wasm_base64: Option<String>,
    pub module_name: Option<String>,
    pub module_version: Option<String>,
    pub function_name: String,
    pub input_base64: String,
    pub timeout_ms: Option<u64>,
    pub memory_limit_mb: Option<u64>,
}

#[derive(Debug)]
pub struct RegisterNodeRequest {
    pub node_id: String,
    pub address: String,
    pub http_address: Option<String>,
    pub max_concurrent_tasks: Option<usize>,
}

#[derive(Debug)]
pub struct UploadModuleRequest {
    pub name: String,
    pub version: String,
    pub wasm_base64: String,
}

/// A single item in a batch task submission.
#[derive(Debug)]
pub struct BatchTaskItem {
    pub wasm_base64: Option<String>,
    pub module_name: Option<String>,
    pub module_version: Option<String>,
    pub function_name: String,
    pub input_base64: String,
    pub timeout_ms: Option<u64>,
    pub memory_limit_mb: Option<u64>,
}

#[derive(Debug)]
pub struct BatchSubmitRequest {
    /// Up to 100 tasks to execute concurrently.
    pub tasks: Vec<BatchTaskItem>,
}

impl Clone for SubmitTaskRequest {
    fn clone(&self) -> (r: Self)
        ensures
            r == *self,
    {
        SubmitTaskRequest {
            wasm_base64: copy_text(&self.wasm_base64),
            module_name: copy_text(&self.module_name),
            module_version: copy_text(&self.module_version),
            function_name: self.function_name.clone(),
            input_base64: self.input_base64.clone(),
            timeout_ms: self.timeout_ms,
            memory_limit_mb: self.memory_limit_mb,
        }
    }
}

impl Clone for BatchTaskItem {
    fn clone(&self) -> (r: Self)
        ensures
            r == *self,
    {
        BatchTaskItem {
            wasm_base64: copy_text(&self.wasm_base64),
            module_name: copy_text(&self.module_name),
            module_version: copy_text(&self.module_version),
            function_name: self.function_name.clone(),
            input_base64: self.input_base64.clone(),
            timeout_ms: self.timeout_ms,
            memory_limit_mb: self.memory_limit_mb,
        }
    }
}

/// The most tasks in a batch.
pub const BATCH_LIMIT: usize = 100;

/// The time budget of a task that names none, in milliseconds.
pub const DEFAULT_TIMEOUT_MS: u64 = 5_000;

/// The memory limit of a task that names none, in mebibytes.
pub const DEFAULT_MEMORY_LIMIT_MB: u64 = 64;

// ── Task submission ────────────────────────────────────────────────────────

/// The bytes that decoding gave, or its message.
pub open spec fn decoded_view(r: Result<Vec<u8>, String>) -> Result<Seq<u8>, Seq<char>> {
    match r {
        Ok(bytes) => Ok(bytes@),
        Err(message) => Err(message@),
    }
}

/// The input and the WASM source of a task, given what decoding its input gave
/// and, if it brings its own WASM bytes, what decoding those gave.
pub open spec fn resolved(
    app: AppView,
    body: SubmitTaskRequest,
    input: Result<Seq<u8>, Seq<char>>,
    wasm: Option<Result<Seq<u8>, Seq<char>>>,
) -> Result<(Seq<u8>, SourceView), EdgeErrorView> {
    match input {
        Err(message) => Err(EdgeErrorView::InvalidWasm(message)),
        Ok(bytes) => match (body.module_name, body.module_version) {
            (Some(name), Some(version)) => match lookup(app.modules, key_of(name@, version@)) {
                Some(module) => Ok(
                    (
                        bytes,
                        SourceView::Module {
                            name: name@,
                            version: version@,
                            hash: module.0.hash@,
                            fetch_url: url_of(app.self_url, name@, version@),
                        },
                    ),
                ),
                None => Err(EdgeErrorView::TaskNotFound(key_of(name@, version@))),
            },
            _ => match wasm {
                None => Err(EdgeErrorView::InvalidWasm("provide wasm_base64 or module_name+module_version"@)),
                Some(Err(message)) => Err(EdgeErrorView::InvalidWasm(message)),
                Some(Ok(wasm_bytes)) => Ok((bytes, SourceView::Bytes(wasm_bytes))),
            },
        },
    }
}

/// What decoding the WASM bytes that a task brings gives.
pub open spec fn own_wasm(body: SubmitTaskRequest) -> Option<Result<Seq<u8>, Seq<char>>> {
    match body.wasm_base64 {
        Some(text) => Some(base64_decoded(text@)),
        None => None,
    }
}

/// The input and the WASM source of a task.
pub open spec fn resolved_task(app: AppView, body: SubmitTaskRequest) -> Result<(Seq<u8>, SourceView), EdgeErrorView> {
    resolved(app, body, base64_decoded(body.input_base64@), own_wasm(body))
}

/// The request that is sent to nodes for a task.
pub open spec fn task_request(
    task_id: Seq<char>,
    trace_id: Seq<char>,
    body: SubmitTaskRequest,
    input: Seq<u8>,
    source: SourceView,
) -> RequestView {
    RequestView {
        task_id,
        function_name: body.function_name@,
        input,
        timeout_ms: match body.timeout_ms {
            Some(ms) => ms,
            None => DEFAULT_TIMEOUT_MS,
        },
        memory_limit_mb: match body.memory_limit_mb {
            Some(mb) => mb,
            None => DEFAULT_MEMORY_LIMIT_MB,
        },
        trace_id,
        source: Some(source),
    }
}

/// Decode the input bytes and resolve the WASM source of a task.
pub fn resolve_task_inputs(app: &AppState, body: &SubmitTaskRequest) -> (r: Result<(Vec<u8>, WasmSource), AppError>)
    requires
        app.wf(),
    ensures
        match r {
            Ok((input, source)) => resolved_task(app@, *body) is Ok && resolved_task(app@, *body)->Ok_0 == (input@, source@),
            Err(e) => resolved_task(app@, *body) is Err && resolved_task(app@, *body)->Err_0 == e@,
        },
{
    let input = base64_decode(body.input_base64.as_str());
    let wasm = match &body.wasm_base64 {
        Some(text) => Some(base64_decode(text.as_str())),
        None => None,
    };
    resolve_decoded(app, body, input, wasm)
}

/// What decoding gave for WASM bytes that a task may bring.
pub open spec fn wasm_view(wasm: Option<Result<Vec<u8>, String>>) -> Option<Result<Seq<u8>, Seq<char>>> {
    match wasm {
        Some(r) => Some(decoded_view(r)),
        None => None,
    }
}

/// [`resolve_task_inputs`], given what decoding the input and the task's own
/// WASM bytes gave.
pub fn resolve_decoded(
    app: &AppState,
    body: &SubmitTaskRequest,
    input: Result<Vec<u8>, String>,
    wasm: Option<Result<Vec<u8>, String>>,
) -> (r: Result<(Vec<u8>, WasmSource), AppError>)
    requires
        app.wf(),
    ensures
        ({
            let expected = resolved(app@, *body, decoded_view(input), wasm_view(wasm));
            match r {
                Ok((bytes, source)) => expected is Ok && expected->Ok_0 == (bytes@, source@),
                Err(e) => expected is Err && expected->Err_0 == e@,
            }
        }),
{
    let bytes = match input {
        Ok(bytes) => bytes,
        Err(message) => {
            return Err(invalid_wasm(message));
        },
    };
    match (&body.module_name, &body.module_version) {
        (Some(name), Some(version)) => {
            match app.module_registry.get(name.as_str(), version.as_str()) {
                Some(module) => {
                    let fetch_url = module_url(app.self_url.as_str(), name.as_str(), version.as_str());
                    let module_ref = ModuleRef {
                        name: name.clone(),
                        version: version.clone(),
                        hash: module.0.hash.clone(),
                        fetch_url,
                    };
                    Ok((bytes, WasmSource::ModuleRef(module_ref)))
                },
                None => Err(not_found(module_key(name.as_str(), version.as_str()))),
            }
        },
        _ => match wasm {
            Some(Ok(wasm_bytes)) => Ok((bytes, WasmSource::WasmBytes(wasm_bytes))),
            Some(Err(message)) => Err(invalid_wasm(message)),
            None => Err(invalid_wasm("provide wasm_base64 or module_name+module_version".to_string())),
        },
    }
}

/// Builds the request of a submitted task. It is then dispatched.
pub fn prepare_task(app: &AppState, task_id: String, trace_id: String, body: SubmitTaskRequest) -> (r: Result<
    ExecuteTaskRequest,
    AppError,
>)
    requires
        app.wf(),
    ensures
        match resolved_task(app@, body) {
            Ok((input, source)) => r is Ok && r->Ok_0@ == task_request(task_id@, trace_id@, body, input, source),
            Err(e) => r is Err && r->Err_0@ == e,
        },
        r is Ok ==> r->Ok_0.task_id@ == task_id@,
        r is Ok ==> {
            &&& r->Ok_0.function_name@ == body.function_name@
            &&& r->Ok_0.trace_id@ == trace_id@
            &&& r->Ok_0.timeout_ms == (match body.timeout_ms {
                Some(ms) => ms,
                None => 5_000,
            })
            &&& r->Ok_0.memory_limit_mb == (match body.memory_limit_mb {
                Some(mb) => mb,
                None => 64,
            })
            &&& base64_decoded(body.input_base64@) is Ok
            &&& base64_decoded(body.input_base64@)->Ok_0 == r->Ok_0.input@
            &&& r->Ok_0.wasm_source is Some
            &&& body.module_name is Some && body.module_version is Some ==> {
                &&& r->Ok_0.wasm_source->0 is ModuleRef
                &&& r->Ok_0.wasm_source->0->ModuleRef_0.name@ == body.module_name->0@
                &&& r->Ok_0.wasm_source->0->ModuleRef_0.version@ == body.module_version->0@
            }
            &&& body.module_name is None || body.module_version is None ==> {
                &&& r->Ok_0.wasm_source->0 is WasmBytes
                &&& body.wasm_base64 is Some
                &&& base64_decoded(body.wasm_base64->0@) is Ok
                &&& base64_decoded(body.wasm_base64->0@)->Ok_0 == r->Ok_0.wasm_source->0->WasmBytes_0@
            }
        },
{
    proof {
        if resolved_task(app@, body) is Ok {
            law_request_carries_the_submission(app@, body, task_id@, trace_id@);
        }
    }
    match resolve_task_inputs(app, &body) {
        Ok((input, source)) => Ok(
            ExecuteTaskRequest {
                task_id,
                function_name: body.function_name,
                input,
                timeout_ms: body.timeout_ms.unwrap_or(DEFAULT_TIMEOUT_MS),
                memory_limit_mb: body.memory_limit_mb.unwrap_or(DEFAULT_MEMORY_LIMIT_MB),
                trace_id,
                wasm_source: Some(source),
            },
        ),
        Err(e) => Err(e),
    }
}

/// `POST /tasks`: gives a task a fresh id and builds its request, which is then
/// dispatched to an edge node.
pub fn submit_task(app: &AppState, trace_id: String, body: SubmitTaskRequest) -> (r: Result<ExecuteTaskRequest, AppError>)
    requires
        app.wf(),
    ensures
        match resolved_task(app@, body) {
            Ok((input, source)) => {
                &&& r is Ok
                &&& r->Ok_0@ == task_request(r->Ok_0@.task_id, trace_id@, body, input, source)
                &&& is_fresh_id(r->Ok_0@.task_id)
            },
            Err(e) => r is Err && r->Err_0@ == e,
        },
        r is Ok ==> is_fresh_id(r->Ok_0.task_id@),
        r is Ok ==> {
            &&& r->Ok_0.function_name@ == body.function_name@
            &&& r->Ok_0.trace_id@ == trace_id@
            &&& r->Ok_0.timeout_ms == (match body.timeout_ms {
                Some(ms) => ms,
                None => 5_000,
            })
            &&& r->Ok_0.memory_limit_mb == (match body.memory_limit_mb {
                Some(mb) => mb,
                None => 64,
            })
            &&& base64_decoded(body.input_base64@) is Ok
            &&& base64_decoded(body.input_base64@)->Ok_0 == r->Ok_0.input@
            &&& r->Ok_0.wasm_source is Some
            &&& body.module_name is Some && body.module_version is Some ==> {
                &&& r->Ok_0.wasm_source->0 is ModuleRef
                &&& r->Ok_0.wasm_source->0->ModuleRef_0.name@ == body.module_name->0@
                &&& r->Ok_0.wasm_source->0->ModuleRef_0.version@ == body.module_version->0@
            }
            &&& body.module_name is None || body.module_version is None ==> {
                &&& r->Ok_0.wasm_source->0 is WasmBytes
                &&& body.wasm_base64 is Some
                &&& base64_decoded(body.wasm_base64->0@) is Ok
                &&& base64_decoded(body.wasm_base64->0@)->Ok_0 == r->Ok_0.wasm_source->0->WasmBytes_0@
            }
        },
{
    let task_id = new_uuid();
    prepare_task(app, task_id, trace_id, body)
}

/// A batch item as a submission of its own.
pub open spec fn as_submission(item: BatchTaskItem) -> SubmitTaskRequest {
    SubmitTaskRequest {
        wasm_base64: item.wasm_base64,
        module_name: item.module_name,
        module_version: item.module_version,
        function_name: item.function_name,
        input_base64: item.input_base64,
        timeout_ms: item.timeout_ms,
        memory_limit_mb: item.memory_limit_mb,
    }
}

/// Whether the first `n` items of a batch can be resolved.
pub open spec fn all_resolve(app: AppView, items: Seq<BatchTaskItem>, n: int) -> bool {
    forall|i: int| 0 <= i < n ==> resolved_task(app, as_submission(#[trigger] items[i])) is Ok
}

/// Whether item `n` is the first of a batch that cannot be resolved.
pub open spec fn first_unresolved(app: AppView, items: Seq<BatchTaskItem>, n: int) -> bool {
    &&& 0 <= n < items.len()
    &&& all_resolve(app, items, n)
    &&& resolved_task(app, as_submission(items[n])) is Err
}

/// Whether `requests` are those of the first items of a batch, each under its id.
pub open spec fn requests_of(
    app: AppView,
    items: Seq<BatchTaskItem>,
    ids: Seq<Seq<char>>,
    trace_id: Seq<char>,
    requests: Seq<ExecuteTaskRequest>,
) -> bool {
    &&& requests.len() <= items.len()
    &&& forall|i: int|
        0 <= i < requests.len() ==> {
            let body = as_submission(items[i]);
            &&& resolved_task(app, body) is Ok
            &&& (#[trigger] requests[i])@ == task_request(
                ids[i],
                trace_id,
                body,
                resolved_task(app, body)->Ok_0.0,
                resolved_task(app, body)->Ok_0.1,
            )
        }
}

/// How a batch is answered whose tasks get these ids: with their requests, in
/// submission order; or with an error if it is too large, or for the first item
/// that cannot be resolved.
pub open spec fn batch_outcome(
    app: AppView,
    items: Seq<BatchTaskItem>,
    ids: Seq<Seq<char>>,
    trace_id: Seq<char>,
    r: Result<Vec<ExecuteTaskRequest>, AppError>,
) -> bool {
    match r {
        Ok(requests) => {
            &&& items.len() <= BATCH_LIMIT
            &&& requests@.len() == items.len()
            &&& requests_of(app, items, ids, trace_id, requests@)
        },
        Err(e) => if items.len() > BATCH_LIMIT {
            e@ == EdgeErrorView::InvalidWasm("batch limit is 100 tasks per request"@)
        } else {
            exists|n: int| #[trigger]
                first_unresolved(app, items, n) && e@ == resolved_task(app, as_submission(items[n]))->Err_0
        },
    }
}

/// Whether `count` further ids have been drawn from a source, each of them fresh.
pub open spec fn draws(before: Seq<Seq<char>>, after: Seq<Seq<char>>, count: nat) -> bool {
    &&& after.len() == before.len() + count
    &&& after.take(before.len() as int) == before
    &&& forall|i: int| before.len() <= i < after.len() ==> is_fresh_id(#[trigger] after[i])
}

/// What ids say.
pub open spec fn texts_of(ids: Seq<String>) -> Seq<Seq<char>> {
    ids.map_values(|id: String| id@)
}

fn batch_too_large() -> (e: AppError)
    ensures
        e@ == EdgeErrorView::InvalidWasm("batch limit is 100 tasks per request"@),
{
    invalid_wasm("batch limit is 100 tasks per request".to_string())
}

/// `POST /tasks/batch`: up to 100 tasks, which are then dispatched concurrently,
/// each under a fresh id that is drawn for it alone.
///
/// All sources are resolved first: a larger batch, or one with an item that
/// cannot be resolved, is refused as a whole, and none of its tasks is
/// dispatched. Nothing is drawn for a larger batch.
pub fn submit_tasks_batch(
    app: &AppState,
    source: &mut IdSource,
    trace_id: &String,
    body: BatchSubmitRequest,
) -> (r: Result<Vec<ExecuteTaskRequest>, AppError>)
    requires
        app.wf(),
    ensures
        draws(
            old(source).drawn(),
            final(source).drawn(),
            if body.tasks@.len() <= BATCH_LIMIT {
                body.tasks@.len()
            } else {
                0
            },
        ),
        batch_outcome(
            app@,
            body.tasks@,
            final(source).drawn().skip(old(source).drawn().len() as int),
            trace_id@,
            r,
        ),
{
    let count: usize = body.tasks.len();
    let ghost before = source.drawn();
    assert(before.take(before.len() as int) =~= before);
    if count > BATCH_LIMIT {
        return Err(batch_too_large());
    }
    let mut ids: Vec<String> = Vec::new();
    assert(texts_of(ids@) =~= before.skip(before.len() as int));
    while ids.len() < count
        invariant
            ids@.len() <= count,
            draws(before, source.drawn(), ids@.len()),
            texts_of(ids@) == source.drawn().skip(before.len() as int),
        decreases count - ids@.len(),
    {
        let ghost drawn = source.drawn();
        let ghost earlier = ids@;
        let id = source.draw();
        ids.push(id);
        proof {
            assert(source.drawn().take(before.len() as int) =~= drawn.take(before.len() as int));
            assert(texts_of(ids@) =~= texts_of(earlier).push(id@));
            assert(source.drawn().skip(before.len() as int) =~= drawn.skip(before.len() as int).push(id@));
        }
    }
    prepare_batch(app, ids, trace_id, body)
}

/// [`submit_tasks_batch`] with the ids of the tasks.
pub fn prepare_batch(app: &AppState, ids: Vec<String>, trace_id: &String, body: BatchSubmitRequest) -> (r: Result<
    Vec<ExecuteTaskRequest>,
    AppError,
>)
    requires
        app.wf(),
        ids@.len() == body.tasks@.len(),
    ensures
        batch_outcome(app@, body.tasks@, texts_of(ids@), trace_id@, r),
{
    let mut requests: Vec<ExecuteTaskRequest> = Vec::new();
    let mut tasks = body.tasks;
    let ghost items = tasks@;
    let ghost texts = texts_of(ids@);
    if tasks.len() > BATCH_LIMIT {
        return Err(batch_too_large());
    }
    while tasks.len() > 0
        invariant
            app.wf(),
            items == body.tasks@,
            items.len() <= BATCH_LIMIT,
            ids@.len() == items.len(),
            texts == texts_of(ids@),
            requests@.len() <= items.len(),
            tasks@ == items.skip(requests@.len() as int),
            requests_of(app@, items, texts, trace_id@, requests@),
            all_resolve(app@, items, requests@.len() as int),
        decreases tasks@.len(),
    {
        let item = tasks.remove(0);
        let ghost n = requests@.len() as int;
        assert(item == items[n]);
        assert(tasks@ =~= items.skip(n + 1));
        let submission = SubmitTaskRequest {
            wasm_base64: item.wasm_base64,
            module_name: item.module_name,
            module_version: item.module_version,
            function_name: item.function_name,
            input_base64: item.input_base64,
            timeout_ms: item.timeout_ms,
            memory_limit_mb: item.memory_limit_mb,
        };
        assert(submission == as_submission(items[n]));
        let id = ids[requests.len()].clone();
        assert(id@ == texts[n]);
        match prepare_task(app, id, trace_id.clone(), submission) {
            Ok(request) => {
                requests.push(request);
            },
            Err(e) => {
                assert(first_unresolved(app@, items, n));
                return Err(e);
            },
        }
    }
    Ok(requests)
}

/// The requests of a batch whose ids differ have different ids, so no result of
/// the batch is stored in place of another.
pub proof fn law_batch_ids_differ(
    app: AppView,
    items: Seq<BatchTaskItem>,
    ids: Seq<Seq<char>>,
    trace_id: Seq<char>,
    r: Result<Vec<ExecuteTaskRequest>, AppError>,
)
    requires
        batch_outcome(app, items, ids, trace_id, r),
        r is Ok,
        ids.len() == items.len(),
        ids.no_duplicates(),
    ensures
        forall|i: int, j: int|
            0 <= i < j < items.len() ==> (#[trigger] r->Ok_0@[i])@.task_id != (#[trigger] r->Ok_0@[j])@.task_id,
{
}

/// The ids with which a batch is answered, in submission order; a task whose
/// dispatch broke off is answered with `error`.
pub fn batch_task_ids(ended: Vec<Option<String>>) -> (ids: Vec<String>)
    ensures
        ids@.len() == ended@.len(),
        forall|i: int|
            0 <= i < ids@.len() ==> (#[trigger] ids@[i])@ == (match ended@[i] {
                Some(id) => id@,
                None => "error"@,
            }),
{
    let mut ids: Vec<String> = Vec::new();
    let mut i: usize = 0;
    while i < ended.len()
        invariant
            i <= ended@.len(),
            ids@.len() == i,
            forall|j: int|
                0 <= j < i ==> (#[trigger] ids@[j])@ == (match ended@[j] {
                    Some(id) => id@,
                    None => "error"@,
                }),
        decreases ended@.len() - i,
    {
        match &ended[i] {
            Some(id) => ids.push(id.clone()),
            None => ids.push("error".to_string()),
        }
        i = i + 1;
    }
    ids
}

/// `GET /tasks/:id`: the result of a task, or `None` while it is pending.
pub fn get_task<'a>(app: &'a AppState, id: &str) -> (r: Option<&'a TaskResult>)
    ensures
        match r {
            Some(result) => app@.tasks.dom().contains(id@) && app@.tasks[id@] == result@,
            None => !app@.tasks.dom().contains(id@),
        },
{
    app.tasks.get(id)
}

// ── Nodes ──────────────────────────────────────────────────────────────────

/// Whether `node` is what a registration asks for.
pub open spec fn registers(body: RegisterNodeRequest, node: NodeInfo) -> bool {
    &&& node.id@ == body.node_id@
    &&& node.address@ == body.address@
    &&& node.http_address@ == (match body.http_address {
        Some(address) => address@,
        None => Seq::empty(),
    })
    &&& node.active_tasks == 0
    &&& node.healthy
    &&& node.max_concurrent_tasks == (match body.max_concurrent_tasks {
        Some(n) => n,
        None => 10,
    })
}

/// `POST /nodes/register`: registers a node, or replaces its registration.
pub fn register_node(app: &mut AppState, body: RegisterNodeRequest)
    requires
        old(app).wf(),
    ensures
        final(app).wf(),
        exists|node: NodeInfo|
            registers(body, node) && final(app)@ == (AppView {
                nodes: #[trigger] stored(old(app)@.nodes, body.node_id@, node),
                ..old(app)@
            }),
{
    let node = NodeInfo {
        id: body.node_id.clone(),
        address: body.address,
        http_address: match body.http_address {
            Some(address) => address,
            None => String::new(),
        },
        active_tasks: 0,
        healthy: true,
        max_concurrent_tasks: match body.max_concurrent_tasks {
            Some(n) => n,
            None => default_max_concurrent_tasks(),
        },
    };
    proof {
        assert(body.http_address is None ==> node.http_address@ =~= Seq::<char>::empty());
        law_lookup_stored(app@.nodes, body.node_id@, node, body.node_id@);
        assert(registers(body, node));
        let before = app@.nodes;
        if has_key(before, body.node_id@) {
            let p = key_index(before, body.node_id@);
            assert(0 <= p < before.len() && before[p].0 == body.node_id@);
        }
    }
    app.nodes.insert(body.node_id, node);
    assert(app@.nodes == stored(old(app)@.nodes, body.node_id@, node));
}

/// `GET /nodes`: all registered nodes.
pub fn list_nodes(app: &AppState) -> (nodes: Vec<NodeInfo>)
    ensures
        nodes@ == values(app@.nodes),
        nodes@.len() == app@.nodes.len(),
        forall|i: int| 0 <= i < nodes@.len() ==> #[trigger] nodes@[i] == app@.nodes[i].1,
{
    let mut nodes: Vec<NodeInfo> = Vec::new();
    let mut i: usize = 0;
    while i < app.nodes.len()
        invariant
            i <= app.nodes@.len(),
            nodes@ == values(app.nodes@).take(i as int),
        decreases app.nodes@.len() - i,
    {
        nodes.push(app.nodes.value_at(i).clone());
        i = i + 1;
        assert(nodes@ =~= values(app.nodes@).take(i as int));
    }
    assert(values(app.nodes@).take(i as int) =~= values(app.nodes@));
    nodes
}

/// What `GET /health` answers.
#[derive(Debug)]
pub struct HealthReport {
    pub status: String,
    pub node_count: usize,
}

/// `GET /health`.
pub fn health(app: &AppState) -> (report: HealthReport)
    ensures
        report.status@ == "ok"@,
        report.node_count == app@.nodes.len(),
{
    HealthReport { status: "ok".to_string(), node_count: app.nodes.len() }
}

// ── Metrics ────────────────────────────────────────────────────────────────

/// What `GET /metrics` answers.
#[derive(Debug)]
pub struct MetricsReport {
    pub strategy: String,
    pub healthy_nodes: usize,
    pub unhealthy_nodes: usize,
    /// The state of each node's circuit breaker, by node id.
    pub circuit_breakers: Vec<(String, &'static str)>,
    pub total_submitted: u64,
    pub total_success: u64,
    pub total_failed: u64,
    pub retried: u64,
    pub queued: usize,
}

/// The name of the state of a node's circuit; a node without a breaker counts
/// as closed.
pub open spec fn circuit_name(app: AppView, node: Seq<char>) -> Seq<char> {
    match lookup(app.breakers, node) {
        Some(breaker) => CircuitBreaker::name_of(breaker.state),
        None => "closed"@,
    }
}

/// The healthy ones among nodes.
pub open spec fn healthy_among(nodes: Seq<NodeInfo>) -> Seq<NodeInfo> {
    nodes.filter(|n: NodeInfo| n.healthy)
}

proof fn lemma_healthy_entries(nodes: Seq<(Seq<char>, NodeInfo)>)
    ensures
        healthy_among(values(nodes)).len() == nodes.filter(|e: (Seq<char>, NodeInfo)| e.1.healthy).len(),
    decreases nodes.len(),
{
    reveal(Seq::filter);
    if nodes.len() > 0 {
        lemma_healthy_entries(nodes.drop_last());
        assert(values(nodes).drop_last() =~= values(nodes.drop_last()));
        assert(values(nodes).last() == nodes.last().1);
    } else {
        assert(values(nodes) =~= Seq::<NodeInfo>::empty());
    }
}

/// `GET /metrics`.
pub fn metrics(app: &AppState) -> (report: MetricsReport)
    requires
        app.wf(),
    ensures
        report.strategy@ == app@.strategy,
        report.healthy_nodes == healthy_among(values(app@.nodes)).len(),
        report.healthy_nodes == app@.nodes.filter(|e: (Seq<char>, NodeInfo)| e.1.healthy).len(),
        report.healthy_nodes + report.unhealthy_nodes == app@.nodes.len(),
        report.circuit_breakers@.len() == app@.nodes.len(),
        forall|i: int|
            0 <= i < app@.nodes.len() ==> (#[trigger] report.circuit_breakers@[i]).0@ == app@.nodes[i].0
                && report.circuit_breakers@[i].1@ == circuit_name(app@, app@.nodes[i].0),
        report.total_submitted == app@.total_submitted,
        report.total_success == app@.total_success,
        report.total_failed == app@.total_failed,
        report.retried == app@.total_retried,
        report.queued == app@.queued,
{
    let mut healthy_nodes: usize = 0;
    let mut unhealthy_nodes: usize = 0;
    let mut circuit_breakers: Vec<(String, &'static str)> = Vec::new();
    let ghost all = values(app@.nodes);
    let ghost keep = |n: NodeInfo| n.healthy;
    let mut i: usize = 0;
    proof {
        reveal(Seq::filter);
    }
    while i < app.nodes.len()
        invariant
            app.wf(),
            i <= app.nodes@.len(),
            all == values(app.nodes@),
            keep == (|n: NodeInfo| n.healthy),
            healthy_nodes == all.take(i as int).filter(keep).len(),
            healthy_nodes + unhealthy_nodes == i,
            circuit_breakers@.len() == i,
            forall|j: int|
                0 <= j < i ==> (#[trigger] circuit_breakers@[j]).0@ == app@.nodes[j].0 && circuit_breakers@[j].1@
                    == circuit_name(app@, app@.nodes[j].0),
        decreases app.nodes@.len() - i,
    {
        proof {
            reveal(Seq::filter);
            assert(all.take(i + 1).drop_last() =~= all.take(i as int));
            assert(all.take(i + 1).last() == app.nodes@[i as int].1);
        }
        let id = app.nodes.key_at(i);
        if app.nodes.value_at(i).healthy {
            healthy_nodes = healthy_nodes + 1;
        } else {
            unhealthy_nodes = unhealthy_nodes + 1;
        }
        let name = match app.circuit_breakers.get(id.as_str()) {
            Some(breaker) => breaker.state_name(),
            None => "closed",
        };
        circuit_breakers.push((id.clone(), name));
        i = i + 1;
    }
    assert(all.take(i as int) =~= all);
    proof {
        lemma_healthy_entries(app@.nodes);
    }
    MetricsReport {
        strategy: app.scheduling_strategy.clone(),
        healthy_nodes,
        unhealthy_nodes,
        circuit_breakers,
        total_submitted: app.total_submitted,
        total_success: app.total_success,
        total_failed: app.total_failed,
        retried: app.total_retried,
        queued: app.queued,
    }
}

// ── Modules ────────────────────────────────────────────────────────────────

/// The module to push to the caches of edge nodes.
#[derive(Debug)]
pub struct WarmRequest {
    /// The HTTP addresses of the nodes.
    pub addresses: Vec<String>,
    pub name: String,
    pub version: String,
    pub wasm_bytes_base64: String,
}

/// What an upload gives: the id of the module, `name:version`, and what to push
/// to nodes, if there are any to push it to.
#[derive(Debug)]
pub struct Uploaded {
    pub module_id: String,
    pub warm: Option<WarmRequest>,
}

/// The healthy nodes that have an HTTP address.
pub open spec fn warmable(nodes: Seq<(Seq<char>, NodeInfo)>) -> Seq<NodeInfo> {
    values(nodes).filter(|n: NodeInfo| n.healthy && n.http_address@.len() > 0)
}

/// Whether `warm` says to push the module to every healthy node that has an
/// HTTP address; there is nothing to push if there is no such node.
pub open spec fn warms(
    nodes: Seq<(Seq<char>, NodeInfo)>,
    name: Seq<char>,
    version: Seq<char>,
    bytes: Seq<u8>,
    warm: Option<WarmRequest>,
) -> bool {
    match warm {
        Some(request) => {
            &&& warmable(nodes).len() > 0
            &&& request.addresses@.len() == warmable(nodes).len()
            &&& forall|i: int|
                0 <= i < request.addresses@.len() ==> (#[trigger] request.addresses@[i])@ == warmable(nodes)[i].http_address@
            &&& request.name@ == name
            &&& request.version@ == version
            &&& request.wasm_bytes_base64@ == base64_encoded(bytes)
            &&& base64_decoded(request.wasm_bytes_base64@) == Ok::<Seq<u8>, Seq<char>>(bytes)
        },
        None => warmable(nodes).len() == 0,
    }
}

/// The HTTP addresses of the nodes whose caches are warmed.
pub fn warm_addresses(app: &AppState) -> (addresses: Vec<String>)
    ensures
        addresses@.len() == warmable(app@.nodes).len(),
        forall|i: int|
            0 <= i < addresses@.len() ==> (#[trigger] addresses@[i])@ == warmable(app@.nodes)[i].http_address@,
{
    let mut addresses: Vec<String> = Vec::new();
    let ghost all = values(app@.nodes);
    let ghost keep = |n: NodeInfo| n.healthy && n.http_address@.len() > 0;
    let mut i: usize = 0;
    proof {
        reveal(Seq::filter);
    }
    while i < app.nodes.len()
        invariant
            i <= app.nodes@.len(),
            all == values(app.nodes@),
            keep == (|n: NodeInfo| n.healthy && n.http_address@.len() > 0),
            addresses@.len() == all.take(i as int).filter(keep).len(),
            forall|j: int|
                0 <= j < addresses@.len() ==> (#[trigger] addresses@[j])@ == all.take(i as int).filter(keep)[j].http_address@,
        decreases app.nodes@.len() - i,
    {
        let node = app.nodes.value_at(i);
        proof {
            reveal(Seq::filter);
            assert(all.take(i + 1).drop_last() =~= all.take(i as int));
            assert(all.take(i + 1).last() == *node);
        }
        if node.healthy && !node.http_address.as_str().is_empty() {
            addresses.push(node.http_address.clone());
        }
        i = i + 1;
    }
    assert(all.take(i as int) =~= all);
    addresses
}

/// What an upload of `decoded` bytes makes of the registry, and how it is
/// answered.
pub open spec fn upload_outcome(
    before: AppView,
    after: AppView,
    name: Seq<char>,
    version: Seq<char>,
    decoded: Result<Seq<u8>, Seq<char>>,
    r: Result<Uploaded, AppError>,
) -> bool {
    match decoded {
        Err(message) => {
            &&& r is Err
            &&& r->Err_0@ == EdgeErrorView::InvalidWasm(message)
            &&& after == before
        },
        Ok(bytes) => if has_key(before.modules, key_of(name, version)) {
            &&& r is Err
            &&& r->Err_0@ == EdgeErrorView::InvalidWasm(
                "module '"@ + name + "' version '"@ + version + "' already exists"@,
            )
            &&& after == before
        } else {
            exists|module: StoredModule|
                {
                    &&& r is Ok
                    &&& after == (AppView {
                        modules: #[trigger] stored(before.modules, key_of(name, version), module),
                        ..before
                    })
                    &&& describes(module.0, name, version, bytes)
                    &&& module.1@ == bytes
                    &&& r->Ok_0.module_id@ == key_of(name, version)
                    &&& is_fresh_id(module.0.id@)
                    &&& may_be_utc_now(module.0.created_at)
                    &&& warms(before.nodes, name, version, bytes, r->Ok_0.warm)
                }
        },
    }
}

/// `POST /modules`: registers a WASM module, and says which nodes' caches to
/// warm with it.
pub fn upload_module(app: &mut AppState, body: UploadModuleRequest) -> (r: Result<Uploaded, AppError>)
    requires
        old(app).wf(),
        body.wasm_base64@.len() <= usize::MAX / 4,
    ensures
        final(app).wf(),
        upload_outcome(old(app)@, final(app)@, body.name@, body.version@, base64_decoded(body.wasm_base64@), r),
{
    let decoded = base64_decode(body.wasm_base64.as_str());
    upload_decoded(app, body.name, body.version, decoded)
}

/// [`upload_module`], given what decoding the WASM bytes gave.
pub fn upload_decoded(app: &mut AppState, name: String, version: String, decoded: Result<Vec<u8>, String>) -> (r: Result<
    Uploaded,
    AppError,
>)
    requires
        old(app).wf(),
        decoded is Ok ==> decoded->Ok_0@.len() <= usize::MAX / 4,
    ensures
        final(app).wf(),
        upload_outcome(old(app)@, final(app)@, name@, version@, decoded_view(decoded), r),
{
    let bytes = match decoded {
        Ok(bytes) => bytes,
        Err(message) => {
            return Err(invalid_wasm(message));
        },
    };
    let addresses = warm_addresses(app);
    let mut wasm_bytes_base64 = String::new();
    if addresses.len() > 0 {
        wasm_bytes_base64 = base64_encode(bytes.as_slice());
    }
    let module_id = module_key(name.as_str(), version.as_str());
    match app.module_registry.store(name.as_str(), version.as_str(), bytes) {
        Ok(meta) => {
            let warm = if addresses.len() > 0 {
                Some(WarmRequest { addresses, name, version, wasm_bytes_base64 })
            } else {
                None
            };
            let r = Ok(Uploaded { module_id, warm });
            assert(app@ == (AppView {
                modules: stored(old(app)@.modules, key_of(name@, version@), (meta, bytes)),
                ..old(app)@
            }));
            r
        },
        Err(e) => Err(invalid_wasm(e.message())),
    }
}

/// Where a node's cache is warmed.
pub fn warm_url(address: &str) -> (url: String)
    ensures
        url@ == address@ + "/cache/warm"@,
{
    address.to_string().concat("/cache/warm")
}

/// `GET /modules`: the metadata of all modules, sorted by name, then by version.
pub fn list_modules(app: &AppState) -> (r: Vec<&ModuleMetadata>)
    ensures
        Seq::new(r@.len(), |i: int| *r@[i]).to_multiset() == metadata_of(app@.modules).to_multiset(),
        forall|i: int, j: int| 0 <= i < j < r@.len() ==> !listed_before(*(#[trigger] r@[j]), *(#[trigger] r@[i])),
{
    app.module_registry.list()
}

/// `GET /modules/:name/:version`: the bytes of a module.
pub fn get_module_bytes<'a>(app: &'a AppState, name: &str, version: &str) -> (r: Result<&'a Vec<u8>, AppError>)
    requires
        app.wf(),
    ensures
        match lookup(app@.modules, key_of(name@, version@)) {
            Some(module) => r is Ok && *r->Ok_0 == module.1,
            None => r is Err && r->Err_0@ == EdgeErrorView::TaskNotFound(key_of(name@, version@)),
        },
{
    match app.module_registry.get(name, version) {
        Some(module) => Ok(&module.1),
        None => Err(not_found(module_key(name, version))),
    }
}

// ── Laws ───────────────────────────────────────────────────────────────────

/// An endpoint's error says what the error that it was made from says.
pub proof fn law_error_is_kept(e: EdgeError)
    ensures
        AppError::of(e)@ == e@,
{
}

/// A node that has just been registered is found under its id and takes part in
/// the next scheduling decision, unless it is excluded from it.
pub proof fn law_registered_node_is_a_candidate(
    nodes: Seq<(Seq<char>, NodeInfo)>,
    body: RegisterNodeRequest,
    node: NodeInfo,
    exclude: Set<Seq<char>>,
)
    requires
        crate::table::distinct_keys(nodes),
        registers(body, node),
    ensures
        lookup(stored(nodes, body.node_id@, node), body.node_id@) == Some(node),
        !exclude.contains(body.node_id@) ==> candidates(stored(nodes, body.node_id@, node), exclude).contains(node),
{
    let after = stored(nodes, body.node_id@, node);
    law_lookup_stored(nodes, body.node_id@, node, body.node_id@);
    let p = key_index(after, body.node_id@);
    assert(0 <= p < after.len() && after[p].0 == body.node_id@);
    let keep = |n: NodeInfo| n.healthy && !exclude.contains(n.id@);
    assert(values(after)[p] == node);
    if !exclude.contains(body.node_id@) {
        values(after).lemma_filter_contains(keep, p);
    }
}

/// A task that refers to a registered module is sent with the digest of the
/// bytes that the registry serves under the URL in the request, so a node that
/// fetches them accepts them.
pub proof fn law_referenced_module_is_intact(app: AppState, body: SubmitTaskRequest)
    requires
        app.wf(),
        body.module_name is Some,
        body.module_version is Some,
        resolved_task(app@, body) is Ok,
    ensures
        ({
            let name = body.module_name->0@;
            let version = body.module_version->0@;
            let source = resolved_task(app@, body)->Ok_0.1;
            &&& source is Module
            &&& source->name == name
            &&& source->version == version
            &&& source->fetch_url == url_of(app@.self_url, name, version)
            &&& source->hash == crate::codec::sha256_text((lookup(app@.modules, key_of(name, version))->0).1@)
        }),
{
    let k = key_of(body.module_name->0@, body.module_version->0@);
    let modules = app@.modules;
    let p = key_index(modules, k);
    assert(0 <= p < modules.len() && modules[p].0 == k);
    assert(app.module_registry@[p] == modules[p]);
}

/// Whenever a submission is accepted, the request for it carries what was submitted:
/// the name of the function, the decoded input, the time budget and the memory limit,
/// five seconds and 64 mebibytes where none are given, and its code. A name together
/// with a version refers to the registered module; else the code is the decoded WASM
/// bytes.
pub proof fn law_request_carries_the_submission(
    app: AppView,
    body: SubmitTaskRequest,
    task_id: Seq<char>,
    trace_id: Seq<char>,
)
    requires
        resolved_task(app, body) is Ok,
    ensures
        ({
            let (input, source) = resolved_task(app, body)->Ok_0;
            let request = task_request(task_id, trace_id, body, input, source);
            &&& request.task_id == task_id
            &&& request.trace_id == trace_id
            &&& request.function_name == body.function_name@
            &&& base64_decoded(body.input_base64@) is Ok
            &&& request.input == base64_decoded(body.input_base64@)->Ok_0
            &&& body.timeout_ms is Some ==> request.timeout_ms == body.timeout_ms->0
            &&& body.timeout_ms is None ==> request.timeout_ms == 5_000
            &&& body.memory_limit_mb is Some ==> request.memory_limit_mb == body.memory_limit_mb->0
            &&& body.memory_limit_mb is None ==> request.memory_limit_mb == 64
            &&& request.source is Some
            &&& if body.module_name is Some && body.module_version is Some {
                let name = body.module_name->0@;
                let version = body.module_version->0@;
                &&& request.source->0 is Module
                &&& request.source->0->name == name
                &&& request.source->0->version == version
                &&& request.source->0->fetch_url == app.self_url + "/modules/"@ + name + "/"@ + version
                &&& lookup(app.modules, name + ":"@ + version) is Some
                &&& request.source->0->hash == (lookup(app.modules, name + ":"@ + version)->0).0.hash@
            } else {
                &&& request.source->0 is Bytes
                &&& body.wasm_base64 is Some
                &&& base64_decoded(body.wasm_base64->0@) is Ok
                &&& request.source->0->Bytes_0 == base64_decoded(body.wasm_base64->0@)->Ok_0
            }
        }),
{
}

/// A submission is refused exactly if its input cannot be decoded, if it names a module
/// and version that are not registered, or if it names none and brings no WASM bytes, or
/// none that can be decoded. Only the module that is not registered is answered as not
/// found.
pub proof fn law_when_a_submission_is_refused(app: AppView, body: SubmitTaskRequest)
    ensures
        ({
            let by_name = body.module_name is Some && body.module_version is Some;
            let key = body.module_name->0@ + ":"@ + body.module_version->0@;
            let no_input = base64_decoded(body.input_base64@) is Err;
            let unknown = by_name && lookup(app.modules, key) is None;
            let no_code = !by_name && (body.wasm_base64 is None || base64_decoded(body.wasm_base64->0@) is Err);
            let r = resolved_task(app, body);
            &&& r is Err <==> no_input || unknown || no_code
            &&& no_input ==> r->Err_0 == EdgeErrorView::InvalidWasm(base64_decoded(body.input_base64@)->Err_0)
            &&& !no_input && unknown ==> r->Err_0 == EdgeErrorView::TaskNotFound(key)
            &&& !no_input && no_code && body.wasm_base64 is None ==> r->Err_0 == EdgeErrorView::InvalidWasm(
                "provide wasm_base64 or module_name+module_version"@,
            )
            &&& !no_input && no_code && body.wasm_base64 is Some ==> r->Err_0 == EdgeErrorView::InvalidWasm(
                base64_decoded(body.wasm_base64->0@)->Err_0,
            )
        }),
{
}

/// Each request of a batch that is accepted carries what its item says, under an id of
/// its own, as if the item had been submitted alone.
pub proof fn law_batch_requests_carry_their_items(
    app: AppView,
    items: Seq<BatchTaskItem>,
    ids: Seq<Seq<char>>,
    trace_id: Seq<char>,
    r: Result<Vec<ExecuteTaskRequest>, AppError>,
    i: int,
)
    requires
        batch_outcome(app, items, ids, trace_id, r),
        r is Ok,
        0 <= i < items.len(),
    ensures
        items.len() <= 100,
        r->Ok_0@.len() == items.len(),
        ({
            let request = r->Ok_0@[i]@;
            let item = items[i];
            &&& request.task_id == ids[i]
            &&& request.trace_id == trace_id
            &&& request.function_name == item.function_name@
            &&& base64_decoded(item.input_base64@) is Ok
            &&& request.input == base64_decoded(item.input_base64@)->Ok_0
            &&& item.timeout_ms is Some ==> request.timeout_ms == item.timeout_ms->0
            &&& item.timeout_ms is None ==> request.timeout_ms == 5_000
            &&& item.memory_limit_mb is Some ==> request.memory_limit_mb == item.memory_limit_mb->0
            &&& item.memory_limit_mb is None ==> request.memory_limit_mb == 64
            &&& request.source is Some
            &&& if item.module_name is Some && item.module_version is Some {
                &&& request.source->0 is Module
                &&& request.source->0->name == item.module_name->0@
                &&& request.source->0->version == item.module_version->0@
            } else {
                &&& request.source->0 is Bytes
                &&& item.wasm_base64 is Some
                &&& base64_decoded(item.wasm_base64->0@) is Ok
                &&& request.source->0->Bytes_0 == base64_decoded(item.wasm_base64->0@)->Ok_0
            }
        }),
{
    assert(r->Ok_0@[i]@.task_id == ids[i]);
    law_request_carries_the_submission(app, as_submission(items[i]), ids[i], trace_id);
}

/// A batch is accepted exactly if it holds at most a hundred items and each of them
/// would be accepted alone; a larger one is refused as invalid, and otherwise the error
/// is that of the first item that would be refused alone.
pub proof fn law_when_a_batch_is_accepted(
    app: AppView,
    items: Seq<BatchTaskItem>,
    ids: Seq<Seq<char>>,
    trace_id: Seq<char>,
    r: Result<Vec<ExecuteTaskRequest>, AppError>,
    alone: Seq<SubmitTaskRequest>,
)
    requires
        batch_outcome(app, items, ids, trace_id, r),
        alone.len() == items.len(),
        forall|i: int|
            0 <= i < items.len() ==> {
                &&& (#[trigger] alone[i]).wasm_base64 == items[i].wasm_base64
                &&& alone[i].module_name == items[i].module_name
                &&& alone[i].module_version == items[i].module_version
                &&& alone[i].function_name == items[i].function_name
                &&& alone[i].input_base64 == items[i].input_base64
                &&& alone[i].timeout_ms == items[i].timeout_ms
                &&& alone[i].memory_limit_mb == items[i].memory_limit_mb
            },
    ensures
        r is Ok <==> items.len() <= 100 && forall|i: int|
            0 <= i < items.len() ==> resolved_task(app, #[trigger] alone[i]) is Ok,
        r is Err && items.len() > 100 ==> r->Err_0@ == EdgeErrorView::InvalidWasm(
            "batch limit is 100 tasks per request"@,
        ),
        r is Err && items.len() <= 100 ==> exists|n: int|
            {
                &&& 0 <= n < items.len()
                &&& resolved_task(app, #[trigger] alone[n]) is Err
                &&& r->Err_0@ == resolved_task(app, alone[n])->Err_0
                &&& forall|i: int| 0 <= i < n ==> resolved_task(app, #[trigger] alone[i]) is Ok
            },
{
    assert forall|i: int| 0 <= i < items.len() implies #[trigger] alone[i] == as_submission(items[i]) by {
    }
    match r {
        Ok(requests) => {
            assert forall|i: int| 0 <= i < items.len() implies resolved_task(app, #[trigger] alone[i]) is Ok by {
                assert(requests@[i]@.task_id == requests@[i]@.task_id);
            }
        },
        Err(e) => {
            if items.len() <= 100 {
                let n = choose|n: int| #[trigger]
                    first_unresolved(app, items, n) && e@ == resolved_task(app, as_submission(items[n]))->Err_0;
                assert(alone[n] == as_submission(items[n]));
                assert forall|i: int| 0 <= i < n implies resolved_task(app, #[trigger] alone[i]) is Ok by {
                    assert(resolved_task(app, as_submission(items[i])) is Ok);
                }
            }
        },
    }
}

/// A node is registered as it asks to be: under its id, at its addresses, healthy, with
/// no active tasks and with the capacity that it gives, by default ten.
pub proof fn law_node_is_registered_as_it_asks(body: RegisterNodeRequest, node: NodeInfo)
    requires
        registers(body, node),
    ensures
        node.id@ == body.node_id@,
        node.address@ == body.address@,
        body.http_address is Some ==> node.http_address@ == body.http_address->0@,
        body.http_address is None ==> node.http_address@.len() == 0,
        node.active_tasks == 0,
        node.healthy,
        body.max_concurrent_tasks is Some ==> node.max_concurrent_tasks == body.max_concurrent_tasks->0,
        body.max_concurrent_tasks is None ==> node.max_concurrent_tasks == 10,
{
}

/// An upload warms the cache of every healthy node that has an HTTP address, with the
/// very module.
pub proof fn law_every_healthy_node_is_warmed(
    nodes: Seq<(Seq<char>, NodeInfo)>,
    name: Seq<char>,
    version: Seq<char>,
    bytes: Seq<u8>,
    warm: Option<WarmRequest>,
    i: int,
)
    requires
        warms(nodes, name, version, bytes, warm),
        0 <= i < nodes.len(),
        nodes[i].1.healthy,
        nodes[i].1.http_address@.len() > 0,
    ensures
        warm is Some,
        warm->0.name@ == name,
        warm->0.version@ == version,
        base64_decoded(warm->0.wasm_bytes_base64@) is Ok,
        base64_decoded(warm->0.wasm_bytes_base64@)->Ok_0 == bytes,
        exists|k: int|
            0 <= k < warm->0.addresses@.len() && (#[trigger] warm->0.addresses@[k])@ == nodes[i].1.http_address@,
{
    let all = values(nodes);
    let keep = |n: NodeInfo| n.healthy && n.http_address@.len() > 0;
    assert(all[i] == nodes[i].1);
    all.lemma_filter_contains(keep, i);
    let k = choose|k: int| 0 <= k < warmable(nodes).len() && warmable(nodes)[k] == nodes[i].1;
    assert(warm->0.addresses@[k]@ == nodes[i].1.http_address@);
}

/// An upload warms no other caches than those of healthy nodes at their HTTP addresses.
pub proof fn law_only_healthy_nodes_are_warmed(
    nodes: Seq<(Seq<char>, NodeInfo)>,
    name: Seq<char>,
    version: Seq<char>,
    bytes: Seq<u8>,
    warm: WarmRequest,
    k: int,
)
    requires
        warms(nodes, name, version, bytes, Some(warm)),
        0 <= k < warm.addresses@.len(),
    ensures
        warm.addresses@[k]@.len() > 0,
        exists|i: int|
            0 <= i < nodes.len() && (#[trigger] nodes[i]).1.healthy && nodes[i].1.http_address@ == warm.addresses@[k]@,
{
    let all = values(nodes);
    let keep = |n: NodeInfo| n.healthy && n.http_address@.len() > 0;
    let node = warmable(nodes)[k];
    all.lemma_filter_pred(keep, k);
    assert(all.filter(keep).contains(node));
    all.lemma_filter_contains_rev(keep, node);
    let i = choose|i: int| 0 <= i < all.len() && all[i] == node;
    assert(nodes[i].1 == node);
}

/// An upload is accepted exactly if its bytes could be decoded and its name and version
/// are not registered. Then the registry serves the very bytes under that name and
/// version, with their size and digest, and everything else stays as it was; a refused
/// one changes nothing.
pub proof fn law_upload_is_registered(
    before: AppView,
    after: AppView,
    name: Seq<char>,
    version: Seq<char>,
    decoded: Result<Seq<u8>, Seq<char>>,
    r: Result<Uploaded, AppError>,
    other: Seq<char>,
)
    requires
        upload_outcome(before, after, name, version, decoded, r),
        crate::table::distinct_keys(before.modules),
        other != name + ":"@ + version,
    ensures
        r is Ok <==> decoded is Ok && lookup(before.modules, name + ":"@ + version) is None,
        r is Err ==> after == before && r->Err_0@ is InvalidWasm,
        r is Ok ==> {
            let found = lookup(after.modules, name + ":"@ + version);
            &&& r->Ok_0.module_id@ == name + ":"@ + version
            &&& found is Some
            &&& (found->0).1@ == decoded->Ok_0
            &&& (found->0).0.name@ == name
            &&& (found->0).0.version@ == version
            &&& (found->0).0.size_bytes == decoded->Ok_0.len()
            &&& (found->0).0.hash@ == crate::codec::sha256_text(decoded->Ok_0)
            &&& lookup(after.modules, other) == lookup(before.modules, other)
            &&& after == (AppView { modules: after.modules, ..before })
        },
{
    let key = key_of(name, version);
    assert(key == name + ":"@ + version);
    if let Ok(bytes) = decoded {
        if !has_key(before.modules, key) {
            let module = choose|module: StoredModule|
                {
                    &&& r is Ok
                    &&& after == (AppView { modules: #[trigger] stored(before.modules, key, module), ..before })
                    &&& describes(module.0, name, version, bytes)
                    &&& module.1@ == bytes
                    &&& r->Ok_0.module_id@ == key
                    &&& is_fresh_id(module.0.id@)
                    &&& may_be_utc_now(module.0.created_at)
                    &&& warms(before.nodes, name, version, bytes, r->Ok_0.warm)
                };
            law_lookup_stored(before.modules, key, module, key);
            law_lookup_stored(before.modules, key, module, other);
        }
    }
}

/// An upload of a name and version that are registered says which; one whose bytes could
/// not be decoded says why.
pub proof fn law_refused_upload_says_why(
    before: AppView,
    after: AppView,
    name: Seq<char>,
    version: Seq<char>,
    decoded: Result<Seq<u8>, Seq<char>>,
    r: Result<Uploaded, AppError>,
)
    requires
        upload_outcome(before, after, name, version, decoded, r),
        r is Err,
    ensures
        decoded is Err ==> r->Err_0@ == EdgeErrorView::InvalidWasm(decoded->Err_0),
        decoded is Ok ==> r->Err_0@ == EdgeErrorView::InvalidWasm(
            "module '"@ + name + "' version '"@ + version + "' already exists"@,
        ),
{
}

/// The HTTP status tells the kinds of errors apart: the client's own mistakes from a
/// thing that is not there, from a want of nodes, from a timeout, and from the rest.
pub proof fn law_status_tells_kinds_apart(e: EdgeErrorView)
    ensures
        AppError::status_of(e) == 404 <==> e is TaskNotFound,
        AppError::status_of(e) == 503 <==> e is NodeUnavailable,
        AppError::status_of(e) == 504 <==> e is Timeout,
        AppError::status_of(e) == 400 <==> e is InvalidWasm,
        AppError::status_of(e) == 500 <==> e is ExecutionFailed || e is NetworkError,
{
}

/// The circuit of a node is shown by the state of its breaker, and as closed if it has
/// none.
pub proof fn law_circuit_is_shown_by_its_state(app: AppView, node: Seq<char>)
    ensures
        ({
            let breaker = lookup(app.breakers, node);
            circuit_name(app, node) == (if breaker is None || breaker->0.state == CircuitState::Closed {
                "closed"@
            } else if breaker->0.state == CircuitState::Open {
                "open"@
            } else {
                "half_open"@
            })
        }),
{
}

/// Where the code of a task comes from depends on what the task names: with a name and a
/// version it is the registered module, whatever else the task brings, and else it is the
/// bytes that were decoded. The input is what was decoded, and without it nothing else counts.
pub proof fn law_code_is_what_the_task_names(
    app: AppView,
    body: SubmitTaskRequest,
    input: Result<Seq<u8>, Seq<char>>,
    wasm: Option<Result<Seq<u8>, Seq<char>>>,
)
    ensures
        ({
            let r = resolved(app, body, input, wasm);
            let by_name = body.module_name is Some && body.module_version is Some;
            let module = lookup(app.modules, body.module_name->0@ + ":"@ + body.module_version->0@);
            &&& r is Ok <==> input is Ok && (if by_name { module is Some } else { wasm is Some && wasm->0 is Ok })
            &&& r is Ok ==> r->Ok_0.0 == input->Ok_0
            &&& r is Ok && by_name ==> {
                &&& r->Ok_0.1 is Module
                &&& (r->Ok_0).1->name == body.module_name->0@
                &&& (r->Ok_0).1->version == body.module_version->0@
                &&& (r->Ok_0).1->hash == (module->0).0.hash@
            }
            &&& r is Ok && !by_name ==> r->Ok_0.1 == SourceView::Bytes(wasm->0->Ok_0)
            &&& input is Err ==> r->Err_0 == EdgeErrorView::InvalidWasm(input->Err_0)
        }),
{
}

/// Ids that are drawn follow those that were drawn before, as many as there are tasks, each
/// of them fresh.
pub proof fn law_each_task_has_a_draw_of_its_own(before: Seq<Seq<char>>, after: Seq<Seq<char>>, count: nat, i: int)
    requires
        draws(before, after, count),
        0 <= i < count,
    ensures
        after.len() == before.len() + count,
        after.skip(before.len() as int).len() == count,
        is_fresh_id(after.skip(before.len() as int)[i]),
        forall|j: int| 0 <= j < before.len() ==> #[trigger] after[j] == before[j],
{
    assert(is_fresh_id(after[before.len() + i]));
    assert forall|j: int| 0 <= j < before.len() implies #[trigger] after[j] == before[j] by {
        assert(after.take(before.len() as int)[j] == before[j]);
    }
}

} // verus!
