use std::time::Instant;

use ferroedge::clock::Timestamp;
use ferroedge::common::{EdgeError, NodeInfo, RegistryError, TaskResult};
use ferroedge::control_plane::api::dispatch::{select_node_for_task, select_node_with, RetryConfig};
use ferroedge::control_plane::api::handlers::{
    batch_task_ids, error_response, get_module_bytes, get_task, health, list_modules, list_nodes, metrics, prepare_batch, prepare_task,
    register_node, resolve_decoded, resolve_task_inputs, submit_task, submit_tasks_batch, upload_decoded, upload_module,
    warm_url, ApiResponse, AppError, BatchSubmitRequest, BatchTaskItem, RegisterNodeRequest, SubmitTaskRequest,
    UploadModuleRequest,
};
use ferroedge::control_plane::api::routes::{trace_id_of, TraceId};
use ferroedge::control_plane::circuit_breaker::{CircuitBreaker, CircuitState};
use ferroedge::control_plane::config::{Config, Environment};
use ferroedge::control_plane::connection_pool::NodeConnectionPool;
use ferroedge::control_plane::health::{probe_targets, HealthRound};
use ferroedge::control_plane::registry::ModuleRegistry;
use ferroedge::control_plane::scheduler::least_loaded::{select_least_loaded, select_least_loaded_seeded};
use ferroedge::control_plane::scheduler::round_robin::{pick_in_turn, select_node, select_node_excluded};
use ferroedge::control_plane::scheduler::{RoundRobinScheduler, Scheduler};
use ferroedge::control_plane::state::{AppState, ClockReadings};
use ferroedge::ids::IdSource;
use ferroedge::proto::{RpcCode, WasmSource};
use ferroedge::table::{IdSet, KeyedTable};

fn node(id: &str, active_tasks: usize, healthy: bool) -> NodeInfo {
    NodeInfo {
        id: id.to_string(),
        address: format!("http://{id}:50051"),
        http_address: format!("http://{id}:9090"),
        active_tasks,
        healthy,
        max_concurrent_tasks: 10,
    }
}

fn table(nodes: Vec<NodeInfo>) -> KeyedTable<NodeInfo> {
    let mut t = KeyedTable::new();
    for n in nodes {
        t.insert(n.id.clone(), n);
    }
    t
}

fn ids(list: &[&str]) -> IdSet {
    let mut set = IdSet::new();
    for id in list {
        set.insert(id.to_string());
    }
    set
}

fn register(app: &mut AppState, id: &str) {
    register_node(
        app,
        RegisterNodeRequest {
            node_id: id.to_string(),
            address: format!("http://{id}:50051"),
            http_address: None,
            max_concurrent_tasks: None,
        },
    );
}

fn is_uuid(s: &str) -> bool {
    let b = s.as_bytes();
    s.len() == 36
        && b[14] == b'4'
        && b"89ab".contains(&b[19])
        && (0..36).all(|i| match i {
            8 | 13 | 18 | 23 => b[i] == b'-',
            _ => b"0123456789abcdef".contains(&b[i]),
        })
}

// ── Tables ─────────────────────────────────────────────────────────────────

#[test]
fn table_keeps_order_and_replaces_in_place() {
    let mut t: KeyedTable<u32> = KeyedTable::new();
    assert!(t.is_empty());
    t.insert("a".to_string(), 1);
    t.insert("b".to_string(), 2);
    t.insert("a".to_string(), 3);
    assert_eq!(t.len(), 2);
    assert_eq!(t.key_at(0), "a");
    assert_eq!(*t.value_at(0), 3);
    *t.value_at_mut(1) += 10;
    assert_eq!(t.get("b"), Some(&12));
    *t.get_mut("a").expect("a") = 7;
    t.remove("b");
    t.remove("absent");
    assert!(t.contains_key("a") && !t.contains_key("b"));
    assert_eq!(t.get("a"), Some(&7));
    assert!(t.get_mut("b").is_none());
}

#[test]
fn id_sets() {
    let mut set = ids(&["x", "y", "x"]);
    let copy = set.clone();
    set.insert("z".to_string());
    assert!(set.contains("x") && set.contains("z"));
    assert!(copy.contains("y") && !copy.contains("z"));
}

// ── Circuit breaker ────────────────────────────────────────────────────────

#[test]
fn breaker_opens_at_the_fifth_failure_in_a_row() {
    let mut breaker = CircuitBreaker::default();
    assert_eq!(breaker.state_name(), "closed");
    for _ in 0..4 {
        breaker.record_failure();
        assert!(breaker.allow_request());
    }
    breaker.record_failure();
    assert_eq!(breaker.state, CircuitState::Open);
    assert_eq!(breaker.failure_count, 5);
    assert!(!breaker.allow_request());
    assert_eq!(breaker.state_name(), "open");
}

#[test]
fn success_starts_the_count_anew() {
    let mut breaker = CircuitBreaker::default();
    for _ in 0..4 {
        breaker.record_failure();
    }
    breaker.record_success();
    for _ in 0..4 {
        breaker.record_failure();
    }
    assert_eq!(breaker.state, CircuitState::Closed);
    assert_eq!(breaker.failure_count, 4);
}

#[test]
fn open_breaker_lets_a_probe_pass_after_thirty_seconds() {
    let mut breaker = CircuitBreaker::default();
    for _ in 0..5 {
        breaker.record_failure_at(Instant::now());
    }
    assert!(!breaker.allow_request_after(29_999_999_999));
    assert_eq!(breaker.state, CircuitState::Open);
    assert!(breaker.allow_request_after(30_000_000_000));
    assert_eq!(breaker.state_name(), "half_open");
    assert!(!breaker.allow_request(), "only one probe is let through");
    assert!(!breaker.allow_request_after(u128::MAX));
    assert!(!breaker.would_allow(u128::MAX));
    assert_eq!(breaker.state, CircuitState::HalfOpen);

    let mut reopened = breaker.clone();
    reopened.record_failure();
    assert_eq!(reopened.state, CircuitState::Open);
    assert!(reopened.would_allow(30_000_000_000) && !reopened.would_allow(29_999_999_999));
    assert_eq!(reopened.state, CircuitState::Open, "asking without a request changes nothing");
    breaker.record_success();
    assert_eq!(breaker.state, CircuitState::Closed);
    assert!(breaker.allow_request());
}

#[test]
fn open_breaker_without_a_failure_waits_for_ever() {
    let mut breaker = CircuitBreaker::default();
    breaker.state = CircuitState::Open;
    assert!(!breaker.allow_request());
    breaker.cooldown_nanos = 0;
    assert!(breaker.allow_request());
}

#[test]
fn failure_while_open_only_updates_the_time() {
    let mut breaker = CircuitBreaker::default();
    breaker.state = CircuitState::Open;
    breaker.record_failure();
    assert_eq!(breaker.state, CircuitState::Open);
    assert_eq!(breaker.failure_count, 1);
    assert!(breaker.last_failure.is_some());
}

// ── Schedulers ─────────────────────────────────────────────────────────────

#[test]
fn round_robin_takes_turns() {
    let nodes = table(vec![node("a", 0, true), node("b", 0, false), node("c", 0, true)]);
    let mut index: usize = 0;
    let mut seen = Vec::new();
    for _ in 0..4 {
        seen.push(select_node(&nodes, &mut index).expect("a node").id);
    }
    assert_eq!(seen, ["a", "c", "a", "c"]);
    assert_eq!(index, 4);
}

#[test]
fn round_robin_wraps_its_cursor() {
    let nodes = table(vec![node("a", 0, true), node("b", 0, true)]);
    let mut index: usize = usize::MAX;
    assert_eq!(select_node(&nodes, &mut index).expect("a node").id, "b");
    assert_eq!(index, 0);
}

#[test]
fn select_node_advances_on_every_call() {
    let mut index: usize = 7;
    assert!(select_node(&KeyedTable::new(), &mut index).is_none());
    assert_eq!(index, 8);
    let mut other: usize = 7;
    assert!(select_node_excluded(&KeyedTable::new(), &mut other, &ids(&[])).is_none());
    assert_eq!(other, 8);
    let nodes = table(vec![node("a", 0, true), node("b", 0, false), node("c", 0, true)]);
    for _ in 0..5 {
        let selected = select_node(&nodes, &mut index).map(|n| n.id);
        let excluding = select_node_excluded(&nodes, &mut other, &ids(&["b", "x"])).map(|n| n.id);
        assert_eq!((selected, index), (excluding, other), "no healthy node is excluded");
    }
    assert_eq!(pick_in_turn(&table(vec![node("a", 0, true), node("b", 0, true)]), 3, &ids(&[])).expect("b").id, "b");
}

#[test]
fn round_robin_skips_excluded_nodes() {
    let nodes = table(vec![node("a", 0, true), node("b", 0, true)]);
    let mut index: usize = 0;
    assert_eq!(select_node_excluded(&nodes, &mut index, &ids(&["a"])).expect("b").id, "b");
    assert_eq!(index, 1);
    assert!(select_node_excluded(&nodes, &mut index, &ids(&["a", "b"])).is_none());
    assert_eq!(index, 2, "the cursor moves on every call");
}

#[test]
fn scheduler_without_healthy_nodes() {
    let mut index: usize = 5;
    let mut nodes = table(vec![node("a", 0, false)]);
    let err = RoundRobinScheduler.next_node(&mut nodes, &mut index).expect_err("no node");
    assert_eq!(err.message(), "node unavailable: no healthy nodes registered");
    assert_eq!(index, 5);
    nodes.insert("b".to_string(), node("b", 0, true));
    assert_eq!(RoundRobinScheduler.next_node(&mut nodes, &mut index).expect("b").id, "b");
    assert_eq!(index, 6);
}

#[test]
fn least_loaded_takes_the_fewest_active_tasks() {
    let nodes = table(vec![node("a", 3, true), node("b", 1, true), node("c", 0, false), node("d", 2, true)]);
    assert_eq!(select_least_loaded(&nodes, &ids(&[])).expect("b").id, "b");
    assert_eq!(select_least_loaded(&nodes, &ids(&["b"])).expect("d").id, "d");
}

#[test]
fn least_loaded_skips_full_nodes() {
    let mut full = node("a", 10, true);
    let nodes = table(vec![full.clone(), node("b", 9, true)]);
    assert_eq!(select_least_loaded(&nodes, &ids(&[])).expect("b").id, "b");
    full.max_concurrent_tasks = 0;
    full.active_tasks = 0;
    assert!(select_least_loaded(&table(vec![full]), &ids(&[])).is_none());
}

#[test]
fn least_loaded_ties_are_broken_by_the_seed() {
    let nodes = table(vec![node("a", 1, true), node("b", 2, true), node("c", 1, true)]);
    let pick = |seed: usize| select_least_loaded_seeded(&nodes, &ids(&[]), seed).expect("a node").id.clone();
    assert_eq!(pick(0), "a");
    assert_eq!(pick(1), "c");
    assert_eq!(pick(7), "c");
}

// ── Module registry ────────────────────────────────────────────────────────

#[test]
fn registry_gives_back_what_was_stored() {
    let mut registry = ModuleRegistry::new();
    let meta = registry.store("echo", "1.0.0", b"abc".to_vec()).expect("stored");
    assert!(is_uuid(&meta.id));
    assert_eq!(meta.size_bytes, 3);
    assert_eq!(meta.hash, "ba7816bf8f01cfea414140de5dae2223b00361a396177a9cb410ff61f20015ad");
    assert!(meta.created_at.secs > 1_600_000_000);
    let (found, bytes) = registry.get("echo", "1.0.0").expect("found");
    assert_eq!(found.id, meta.id);
    assert_eq!(bytes, b"abc");
    assert!(registry.get("echo", "2.0.0").is_none());
    assert_eq!(registry.len(), 1);
}

#[test]
fn registry_refuses_a_second_module_of_the_same_key() {
    let mut registry = ModuleRegistry::default();
    let at = Timestamp { secs: 7, nanos: 9 };
    let meta = registry.store_as("a", "1", vec![1], "id-1".to_string(), at).expect("stored");
    assert_eq!((meta.id.as_str(), meta.created_at), ("id-1", at));
    let err = registry.store("a", "1", vec![2]).expect_err("taken");
    assert_eq!(err.message(), "module 'a' version '1' already exists");
    assert_eq!(registry.get("a", "1").expect("first stays").1, [1]);
    let err = registry.store("a", "1", Vec::new()).expect_err("taken");
    assert!(matches!(err, RegistryError::AlreadyExists(_, _)));
}

#[test]
fn registry_errors_have_messages() {
    let missing = RegistryError::NotFound("a".to_string(), "1".to_string());
    assert_eq!(missing.message(), "module 'a' version '1' not found");
    assert_eq!(RegistryError::InvalidWasm("why".to_string()).message(), "invalid wasm bytes: why");
}

#[test]
fn registry_lists_by_name_then_version() {
    let mut registry = ModuleRegistry::new();
    for (name, version) in [("b", "2"), ("a", "10"), ("b", "1"), ("a", "9"), ("ab", "0"), ("", "x")] {
        registry.store(name, version, Vec::new()).expect("stored");
    }
    let listed: Vec<(&str, &str)> = registry.list().iter().map(|m| (m.name.as_str(), m.version.as_str())).collect();
    assert_eq!(listed, [("", "x"), ("a", "10"), ("a", "9"), ("ab", "0"), ("b", "1"), ("b", "2")]);
}

// ── Connection pool ────────────────────────────────────────────────────────

#[test]
fn pool_opens_one_channel_per_node() {
    let mut pool: NodeConnectionPool<String> = NodeConnectionPool::new();
    let open = |e: tonic::transport::Endpoint| e.uri().to_string();
    let first = pool.get_or_create("n1", "http://127.0.0.1:50051", open).expect("valid");
    assert_eq!(first, "http://127.0.0.1:50051/");
    let again = pool.get_or_create("n1", "http://elsewhere:1", open).expect("kept");
    assert_eq!(again, "http://127.0.0.1:50051/");
    assert_eq!(pool.node_count(), 1);
    pool.evict("n1");
    let fresh = pool.get_or_create("n1", "http://elsewhere:1", open).expect("opened anew");
    assert_eq!(fresh, "http://elsewhere:1/");
}

#[test]
fn pool_refuses_an_invalid_address() {
    let mut pool: NodeConnectionPool<u8> = NodeConnectionPool::default();
    let status = pool.get_or_create("n1", "not a uri", |_| 0u8).expect_err("invalid");
    assert_eq!(status.code, RpcCode::Internal);
    assert!(status.message.starts_with("invalid address 'not a uri': "), "got: {}", status.message);
    assert!(status.message.len() > "invalid address 'not a uri': ".len());
    assert_eq!(pool.node_count(), 0);
    let status = pool
        .open_channel("n1", "addr", Err("why".to_string()), |_| 0u8)
        .expect_err("invalid");
    assert_eq!(status.message, "invalid address 'addr': why");
}

#[test]
fn pool_holds_real_channels() {
    let runtime = tokio::runtime::Runtime::new().expect("runtime");
    let _inside = runtime.enter();
    let mut pool: NodeConnectionPool<tonic::transport::Channel> = NodeConnectionPool::new();
    pool.get_or_create("n1", "http://127.0.0.1:1", |e| e.connect_lazy()).expect("valid");
    assert_eq!(pool.node_count(), 1);
}

// ── Health checks ──────────────────────────────────────────────────────────

#[test]
fn health_round_marks_nodes() {
    let mut app = AppState::default();
    for id in ["a", "b", "c"] {
        register(&mut app, id);
    }
    assert_eq!(
        probe_targets(&app),
        [
            ("a".to_string(), "http://a:50051".to_string()),
            ("b".to_string(), "http://b:50051".to_string()),
            ("c".to_string(), "http://c:50051".to_string()),
        ]
    );
    let mut round = HealthRound::new();
    round.record(&mut app, "a", Some(4));
    round.record(&mut app, "b", None);
    round.record(&mut app, "gone", Some(1));
    assert_eq!(round.healthy_count, 2);
    let nodes = list_nodes(&app);
    assert_eq!(nodes.len(), 3);
    assert!(nodes[0].healthy && nodes[0].active_tasks == 4);
    assert!(!nodes[1].healthy && nodes[1].active_tasks == 0);
    assert!(nodes[2].healthy);
    round.record(&mut app, "b", Some(0));
    assert!(list_nodes(&app)[1].healthy);
}

// ── Node selection ─────────────────────────────────────────────────────────

fn readings(since_failure: Vec<u128>, seed: usize) -> ClockReadings {
    ClockReadings { since_failure, seed }
}

#[test]
fn selection_leaves_out_tried_and_blocked_nodes() {
    let mut app = AppState::default();
    for id in ["a", "b", "c"] {
        register(&mut app, id);
    }
    let mut open = CircuitBreaker::default();
    for _ in 0..5 {
        open.record_failure();
    }
    app.circuit_breakers.insert("b".to_string(), open);
    let picked = select_node_for_task(&mut app, &ids(&["a"])).expect("c is left");
    assert_eq!(picked.id, "c");
    assert!(select_node_for_task(&mut app, &ids(&["a", "c"])).is_none());
    let late = readings(vec![30_000_000_000], 0);
    let picked = select_node_with(&mut app, &ids(&["a", "c"]), &late).expect("b may be probed");
    assert_eq!(picked.id, "b");
    assert_eq!(app.circuit_breakers.get("b").expect("b").state, CircuitState::HalfOpen);
    assert!(select_node_with(&mut app, &ids(&["a", "c"]), &late).is_none(), "b is being probed");
}

#[test]
fn only_the_chosen_node_takes_its_probe() {
    let mut app = AppState::default();
    for id in ["a", "b"] {
        register(&mut app, id);
        let mut open = CircuitBreaker::default();
        open.state = CircuitState::Open;
        app.circuit_breakers.insert(id.to_string(), open);
    }
    let late = readings(vec![30_000_000_000, 30_000_000_000], 0);
    assert_eq!(select_node_with(&mut app, &ids(&[]), &late).expect("a").id, "a");
    assert_eq!(app.circuit_breakers.get("a").expect("a").state, CircuitState::HalfOpen);
    assert_eq!(app.circuit_breakers.get("b").expect("b").state, CircuitState::Open);
    assert_eq!(select_node_with(&mut app, &ids(&[]), &late).expect("b").id, "b");
}

#[test]
fn selection_follows_the_strategy() {
    let mut app = AppState::default();
    for (id, load) in [("a", 3), ("b", 1), ("c", 1)] {
        register(&mut app, id);
        app.nodes.get_mut(id).expect("registered").active_tasks = load;
    }
    assert_eq!(select_node_with(&mut app, &ids(&[]), &readings(vec![], 0)).expect("a").id, "a");
    assert_eq!(app.scheduler_index, 1);
    app.scheduling_strategy = "least_loaded".to_string();
    assert_eq!(select_node_with(&mut app, &ids(&[]), &readings(vec![], 1)).expect("c").id, "c");
    assert_eq!(select_node_with(&mut app, &ids(&[]), &readings(vec![], 2)).expect("b").id, "b");
    assert_eq!(app.scheduler_index, 1);
}

#[test]
fn counters_have_room_until_one_is_full() {
    let mut app = AppState::default();
    assert!(app.counters_have_room());
    app.total_failed = u64::MAX;
    assert!(!app.counters_have_room());
    app.total_failed = 0;
    let mut worn = CircuitBreaker::default();
    worn.failure_count = u32::MAX;
    app.circuit_breakers.insert("a".to_string(), worn);
    assert!(!app.counters_have_room());
}

// ── Endpoints ──────────────────────────────────────────────────────────────

fn submission(wasm: Option<&str>, module: Option<(&str, &str)>, input: &str) -> SubmitTaskRequest {
    SubmitTaskRequest {
        wasm_base64: wasm.map(|s| s.to_string()),
        module_name: module.map(|m| m.0.to_string()),
        module_version: module.map(|m| m.1.to_string()),
        function_name: "process".to_string(),
        input_base64: input.to_string(),
        timeout_ms: None,
        memory_limit_mb: None,
    }
}

#[test]
fn submitted_task_with_its_own_bytes() {
    let app = AppState::default();
    let request = submit_task(&app, "trace".to_string(), submission(Some("AGFzbQ=="), None, "aGVsbG8=")).ok().expect("valid");
    assert!(is_uuid(&request.task_id));
    assert_eq!(request.trace_id, "trace");
    assert_eq!(request.function_name, "process");
    assert_eq!(request.input, b"hello");
    assert_eq!((request.timeout_ms, request.memory_limit_mb), (5_000, 64));
    match request.wasm_source {
        Some(WasmSource::WasmBytes(bytes)) => assert_eq!(bytes, b"\0asm"),
        other => panic!("unexpected source: {other:?}"),
    }
}

#[test]
fn submitted_task_with_a_registered_module() {
    let mut app = AppState::default();
    app.self_url = "http://cp:8080".to_string();
    app.module_registry.store("echo", "1.0", b"abc".to_vec()).expect("stored");
    let mut body = submission(None, Some(("echo", "1.0")), "");
    body.timeout_ms = Some(7);
    body.memory_limit_mb = Some(8);
    let request = prepare_task(&app, "t".to_string(), "tr".to_string(), body).ok().expect("valid");
    assert_eq!(request.task_id, "t");
    assert_eq!((request.timeout_ms, request.memory_limit_mb), (7, 8));
    assert!(request.input.is_empty());
    match request.wasm_source {
        Some(WasmSource::ModuleRef(module)) => {
            assert_eq!(module.name, "echo");
            assert_eq!(module.version, "1.0");
            assert_eq!(module.fetch_url, "http://cp:8080/modules/echo/1.0");
            assert_eq!(module.hash, "ba7816bf8f01cfea414140de5dae2223b00361a396177a9cb410ff61f20015ad");
        }
        other => panic!("unexpected source: {other:?}"),
    }
}

fn error_of<T>(r: Result<T, AppError>) -> (u16, String) {
    match r {
        Ok(_) => panic!("expected an error"),
        Err(e) => {
            let (status, body): (u16, ApiResponse<u8>) = e.into_response();
            assert!(body.data.is_none());
            (status, body.error.expect("a message"))
        }
    }
}

#[test]
fn task_inputs_that_cannot_be_resolved() {
    let app = AppState::default();
    let (status, message) = error_of(resolve_task_inputs(&app, &submission(None, None, "")));
    assert_eq!((status, message.as_str()), (400, "invalid wasm: provide wasm_base64 or module_name+module_version"));
    let (status, message) = error_of(resolve_task_inputs(&app, &submission(None, Some(("a", "1")), "")));
    assert_eq!((status, message.as_str()), (404, "task not found: a:1"));
    let (status, message) = error_of(resolve_task_inputs(&app, &submission(None, None, "?")));
    assert_eq!(status, 400);
    assert!(message.starts_with("invalid wasm: "), "got: {message}");
    let (status, _) = error_of(resolve_task_inputs(&app, &submission(Some("?"), None, "")));
    assert_eq!(status, 400);
    let mut half = submission(Some("AGFzbQ=="), Some(("a", "1")), "");
    half.module_version = None;
    assert!(resolve_task_inputs(&app, &half).is_ok(), "a name without a version counts for nothing");
    let wrong_input = resolve_decoded(&app, &submission(None, None, ""), Err("bad".to_string()), None);
    assert_eq!(error_of(wrong_input).1, "invalid wasm: bad");
    let wrong_wasm = resolve_decoded(&app, &submission(None, None, ""), Ok(vec![]), Some(Err("bad".to_string())));
    assert_eq!(error_of(wrong_wasm).1, "invalid wasm: bad");
}

fn item(wasm: &str) -> BatchTaskItem {
    BatchTaskItem {
        wasm_base64: Some(wasm.to_string()),
        module_name: None,
        module_version: None,
        function_name: "process".to_string(),
        input_base64: "aGVsbG8=".to_string(),
        timeout_ms: None,
        memory_limit_mb: None,
    }
}

#[test]
fn batches() {
    let app = AppState::default();
    let trace = "trace".to_string();
    let empty = submit_tasks_batch(&app, &mut IdSource::new(), &trace, BatchSubmitRequest { tasks: Vec::new() });
    assert!(empty.ok().expect("accepted").is_empty());

    let hundred = BatchSubmitRequest { tasks: (0..100).map(|_| item("AGFzbQ==")).collect() };
    let requests = submit_tasks_batch(&app, &mut IdSource::new(), &trace, hundred).ok().expect("accepted");
    assert_eq!(requests.len(), 100);
    let distinct: std::collections::HashSet<&str> = requests.iter().map(|r| r.task_id.as_str()).collect();
    assert_eq!(distinct.len(), 100);
    assert_eq!(requests[99].trace_id, "trace");

    let too_many = BatchSubmitRequest { tasks: (0..101).map(|_| item("AGFzbQ==")).collect() };
    assert_eq!(
        error_of(submit_tasks_batch(&app, &mut IdSource::new(), &trace, too_many)),
        (400, "invalid wasm: batch limit is 100 tasks per request".to_string())
    );
}

#[test]
fn a_batch_with_given_ids() {
    let app = AppState::default();
    let trace = "trace".to_string();
    let body = BatchSubmitRequest { tasks: (0..3).map(|_| item("AGFzbQ==")).collect() };
    let given: Vec<String> = ["x", "y", "z"].iter().map(|s| s.to_string()).collect();
    let requests = prepare_batch(&app, given, &trace, body).ok().expect("accepted");
    let ids: Vec<&str> = requests.iter().map(|r| r.task_id.as_str()).collect();
    assert_eq!(ids, ["x", "y", "z"]);
    assert_eq!(requests[1].input, b"hello");
    let too_many = BatchSubmitRequest { tasks: (0..101).map(|_| item("AGFzbQ==")).collect() };
    let given = (0..101).map(|i| format!("id-{i}")).collect();
    assert_eq!(error_of(prepare_batch(&app, given, &trace, too_many)).0, 400);
}

#[test]
fn one_bad_item_refuses_the_whole_batch() {
    let app = AppState::default();
    let trace = "trace".to_string();
    let mut bad = item("AGFzbQ==");
    bad.input_base64 = "!!!".to_string();
    let mut missing = item("AGFzbQ==");
    missing.module_name = Some("m".to_string());
    missing.module_version = Some("1".to_string());
    let first = submit_tasks_batch(&app, &mut IdSource::new(), &trace, BatchSubmitRequest { tasks: vec![item("AGFzbQ=="), bad.clone(), missing.clone()] });
    let (status, message) = error_of(first);
    assert_eq!(status, 400);
    assert!(message.starts_with("invalid wasm: "));
    let first = submit_tasks_batch(&app, &mut IdSource::new(), &trace, BatchSubmitRequest { tasks: vec![missing, bad] });
    assert_eq!(error_of(first), (404, "task not found: m:1".to_string()));
    assert_eq!(app.total_submitted, 0);
}

#[test]
fn batch_answers_in_submission_order() {
    let ids = batch_task_ids(vec![Some("a".to_string()), None, Some("c".to_string())]);
    assert_eq!(ids, ["a", "error", "c"]);
}

#[test]
fn uploaded_module_is_served_and_pushed_to_nodes() {
    let mut app = AppState::default();
    register(&mut app, "plain");
    for (id, healthy) in [("warm", true), ("sick", false)] {
        register(&mut app, id);
        let n = app.nodes.get_mut(id).expect("registered");
        n.http_address = format!("http://{id}:9090");
        n.healthy = healthy;
    }
    let body = UploadModuleRequest {
        name: "echo".to_string(),
        version: "1.0".to_string(),
        wasm_base64: "AGFzbQEAAAA=".to_string(),
    };
    let uploaded = upload_module(&mut app, body).ok().expect("stored");
    assert_eq!(uploaded.module_id, "echo:1.0");
    assert!(is_uuid(&app.module_registry.get("echo", "1.0").expect("stored").0.id));
    let warm = uploaded.warm.expect("one node to warm");
    assert_eq!(warm.addresses, ["http://warm:9090"]);
    assert_eq!((warm.name.as_str(), warm.version.as_str()), ("echo", "1.0"));
    assert_eq!(warm.wasm_bytes_base64, "AGFzbQEAAAA=");
    assert_eq!(warm_url(&warm.addresses[0]), "http://warm:9090/cache/warm");
    assert_eq!(get_module_bytes(&app, "echo", "1.0").ok().expect("served"), b"\0asm\x01\0\0\0");
    assert_eq!(list_modules(&app).len(), 1);
    assert_eq!(error_of(get_module_bytes(&app, "echo", "2.0")), (404, "task not found: echo:2.0".to_string()));

    let again = upload_decoded(&mut app, "echo".to_string(), "1.0".to_string(), Ok(vec![1]));
    assert_eq!(
        error_of(again),
        (400, "invalid wasm: module 'echo' version '1.0' already exists".to_string())
    );
    let broken = upload_decoded(&mut app, "x".to_string(), "1".to_string(), Err("why".to_string()));
    assert_eq!(error_of(broken), (400, "invalid wasm: why".to_string()));
}

#[test]
fn upload_without_nodes_pushes_nothing() {
    let mut app = AppState::default();
    let uploaded = upload_decoded(&mut app, "a".to_string(), "1".to_string(), Ok(Vec::new())).ok().expect("stored");
    assert!(uploaded.warm.is_none());
}

#[test]
fn registration_and_reports() {
    let mut app = AppState::default();
    register_node(
        &mut app,
        RegisterNodeRequest {
            node_id: "n".to_string(),
            address: "http://n:1".to_string(),
            http_address: Some("http://n:2".to_string()),
            max_concurrent_tasks: Some(3),
        },
    );
    register(&mut app, "m");
    app.nodes.get_mut("m").expect("m").healthy = false;
    let mut open = CircuitBreaker::default();
    open.state = CircuitState::HalfOpen;
    app.circuit_breakers.insert("n".to_string(), open);
    app.total_submitted = 5;
    app.queued = 2;

    let nodes = list_nodes(&app);
    assert_eq!(nodes[0].http_address, "http://n:2");
    assert_eq!(nodes[0].max_concurrent_tasks, 3);
    assert_eq!(nodes[1].http_address, "");
    assert_eq!(nodes[1].max_concurrent_tasks, 10);

    let report = health(&app);
    assert_eq!((report.status.as_str(), report.node_count), ("ok", 2));

    let report = metrics(&app);
    assert_eq!(report.strategy, "round_robin");
    assert_eq!((report.healthy_nodes, report.unhealthy_nodes), (1, 1));
    assert_eq!(report.circuit_breakers, [("n".to_string(), "half_open"), ("m".to_string(), "closed")]);
    assert_eq!((report.total_submitted, report.queued), (5, 2));

    register(&mut app, "n");
    assert_eq!(list_nodes(&app).len(), 2);
    assert_eq!(list_nodes(&app)[0].http_address, "");
    assert!(get_task(&app, "unknown").is_none());
}

#[test]
fn errors_have_statuses_and_messages() {
    let text = || "x".to_string();
    let cases = [
        (EdgeError::TaskNotFound(text()), 404, "task not found: x"),
        (EdgeError::NodeUnavailable(text()), 503, "node unavailable: x"),
        (EdgeError::Timeout, 504, "execution timed out"),
        (EdgeError::InvalidWasm(text()), 400, "invalid wasm: x"),
        (EdgeError::ExecutionFailed(text()), 500, "execution failed: x"),
        (EdgeError::NetworkError(text()), 500, "network error: x"),
    ];
    for (e, status, message) in cases {
        assert_eq!(error_of(Err::<u8, AppError>(AppError::from(e))), (status, message.to_string()));
    }
    let ok = ApiResponse::ok(3u8);
    assert_eq!((ok.data, ok.error), (Some(3), None));
    let bad: ApiResponse<u8> = error_response("why".to_string());
    assert_eq!((bad.data, bad.error), (None, Some("why".to_string())));
}

#[test]
fn trace_ids() {
    assert_eq!(trace_id_of(Some("abc")).0, "abc");
    let TraceId(fresh) = trace_id_of(None).clone();
    assert!(is_uuid(&fresh));
}

#[test]
fn copies_are_equal() {
    let result = TaskResult {
        task_id: "t".to_string(),
        node_id: "n".to_string(),
        success: false,
        output: vec![1, 2],
        execution_time_ms: 3,
        error: Some("e".to_string()),
    };
    let copy = result.clone();
    assert_eq!((copy.task_id, copy.node_id, copy.success), (result.task_id, result.node_id, false));
    assert_eq!((copy.output, copy.execution_time_ms, copy.error), (vec![1, 2], 3, Some("e".to_string())));
    let body = submission(Some("a"), None, "b").clone();
    assert_eq!((body.wasm_base64.as_deref(), body.module_name, body.input_base64.as_str()), (Some("a"), None, "b"));
}

#[test]
fn retry_defaults() {
    let retry = RetryConfig::default();
    assert_eq!((retry.max_attempts, retry.backoff_ms), (3, 500));
}

// ── Settings ───────────────────────────────────────────────────────────────

fn environment(http_port: Option<&str>, metrics_port: Option<&str>) -> Environment {
    Environment {
        http_port: http_port.map(|s| s.to_string()),
        metrics_port: metrics_port.map(|s| s.to_string()),
        self_url: None,
        rust_log: None,
        scheduling_strategy: None,
    }
}

#[test]
fn control_plane_settings() {
    let config = Config::from_environment(environment(None, None)).expect("defaults");
    assert_eq!((config.http_port, config.metrics_port), (8080, 9090));
    assert_eq!(config.rust_log, "info");
    assert_eq!(config.scheduling_strategy, "round_robin");
    assert_eq!(config.self_url, "http://127.0.0.1:8080");
    let config = Config::from_environment(environment(Some("+081"), None)).expect("a number");
    assert_eq!((config.http_port, config.self_url.as_str()), (81, "http://127.0.0.1:81"));
    let err = Config::from_environment(environment(Some("65536"), Some("x"))).expect_err("too large");
    assert_eq!(err, "HTTP_PORT must be a valid port number");
    let err = Config::from_environment(environment(Some("65535"), Some(""))).expect_err("empty");
    assert_eq!(err, "METRICS_PORT must be a valid port number");
    let mut env = environment(None, None);
    env.self_url = Some("http://cp".to_string());
    env.scheduling_strategy = Some("least_loaded".to_string());
    env.rust_log = Some("debug".to_string());
    let config = Config::from_environment(env).expect("valid");
    assert_eq!(config.self_url, "http://cp");
    assert_eq!(config.scheduling_strategy, "least_loaded");
    assert_eq!(config.rust_log, "debug");
}
