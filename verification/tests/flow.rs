use std::sync::Arc;
use std::time::Instant;

use ferroedge::common::NodeInfo;
use ferroedge::control_plane::api::dispatch::{Action, Dispatch};
use ferroedge::control_plane::api::handlers::{
    get_module_bytes, get_task, list_nodes, metrics, register_node, submit_task, upload_module, RegisterNodeRequest,
    SubmitTaskRequest, UploadModuleRequest,
};
use ferroedge::control_plane::circuit_breaker::CircuitState;
use ferroedge::control_plane::health::{probe_targets, HealthRound};
use ferroedge::control_plane::state::{AppState, ClockReadings};
use ferroedge::edge_node::server::grpc::{health, EdgeTask, Stage};
use ferroedge::edge_node::state::NodeState;
use ferroedge::load_tester::percentile;
use ferroedge::proto::{ExecuteTaskRequest, ExecuteTaskResponse, RpcCode, RpcStatus, WasmSource};
use ferroedge::wasm_runtime::cache::CompiledModuleCache;
use ferroedge::wasm_runtime::engine::WasmEngine;
use ferroedge::wasm_runtime::sandbox::{check_valid, ExecutionConfig, WasmSandbox};

use base64::engine::general_purpose::STANDARD as B64;
use base64::Engine as _;

fn echo_wasm_bytes() -> Vec<u8> {
    wat::parse_str(
        r#"
        (module
          (memory (export "memory") 1)
          (func (export "alloc") (param $size i32) (result i32)
            i32.const 0)
          (func (export "process") (param $ptr i32) (param $len i32) (result i32)
            local.get $len)
        )
        "#,
    )
    .expect("echo WAT is valid")
}

/// The default engine; where the address space does not hold the memory that it
/// reserves for a program, the compact one.
fn make_engine() -> Arc<WasmEngine> {
    let engine = Arc::new(WasmEngine::new().expect("WasmEngine"));
    let config = ExecutionConfig { memory_limit_bytes: 65_536, timeout_ms: 5_000, function_name: "process".to_string() };
    match WasmSandbox::new(Arc::clone(&engine)).execute(&echo_wasm_bytes(), &config, b"") {
        Ok(_) => engine,
        Err(_) => Arc::new(WasmEngine::new_compact().expect("WasmEngine")),
    }
}

/// An edge node in this process.
struct Node {
    alive: bool,
    slots: usize,
    state: NodeState,
    engine: Arc<WasmEngine>,
    sandbox: WasmSandbox,
    cache: CompiledModuleCache,
}

impl Node {
    fn new(id: &str, slots: usize) -> Node {
        let engine = make_engine();
        Node {
            alive: true,
            slots,
            state: NodeState::new(id),
            sandbox: WasmSandbox::new(Arc::clone(&engine)),
            cache: CompiledModuleCache::new(Arc::clone(&engine), 50, 300),
            engine,
        }
    }

    fn execute(&mut self, app: &AppState, request: ExecuteTaskRequest) -> Result<ExecuteTaskResponse, RpcStatus> {
        if !self.alive {
            return Err(RpcStatus { code: RpcCode::Other, message: "connection refused".to_string() });
        }
        let permit = self.state.active_tasks < self.slots;
        let mut task = EdgeTask::begin(&mut self.state, request, permit)?;
        loop {
            let result = match &task.stage {
                Stage::LookUpBytes(_) => {
                    let found = self.cache.get_cached(&task.key().expect("a key"));
                    task = task.looked_up(found);
                    continue;
                }
                Stage::Validate(bytes) => {
                    let validation = check_valid(&self.engine, bytes);
                    task = match task.validated(&mut self.state, validation) {
                        Ok(task) => task,
                        Err(response) => return Ok(response),
                    };
                    continue;
                }
                Stage::CompileBytes(bytes) => {
                    let compiled = self.cache.get_or_compile(&task.key().expect("a key"), bytes);
                    task = match task.compiled_bytes(&mut self.state, compiled) {
                        Ok(task) => task,
                        Err(response) => return Ok(response),
                    };
                    continue;
                }
                Stage::Run(module) => self.sandbox.execute_compiled(Arc::clone(module), &task.config, &task.input),
                Stage::LookUp(_) => {
                    let found = self.cache.get_cached(&task.key().expect("a key"));
                    task = task.looked_up(found);
                    continue;
                }
                Stage::Download(module) => {
                    let bytes = match get_module_bytes(app, &module.name, &module.version) {
                        Ok(bytes) => Ok(bytes.clone()),
                        Err(_) => Err("not found".to_string()),
                    };
                    task = task.downloaded(&mut self.state, bytes)?;
                    continue;
                }
                Stage::Compile(_, bytes) => {
                    let compiled = self.cache.get_or_compile(&task.key().expect("a key"), bytes);
                    task = task.compiled(&mut self.state, compiled)?;
                    continue;
                }
            };
            return Ok(task.finish(&mut self.state, result));
        }
    }
}

/// Registers an in-process node.
fn register(app: &mut AppState, id: &str) {
    register_node(
        app,
        RegisterNodeRequest {
            node_id: id.to_string(),
            address: format!("http://{id}"),
            http_address: None,
            max_concurrent_tasks: Some(20),
        },
    );
}

/// Dispatches a task to its end; gives the pauses that were asked for.
fn drive(app: &mut AppState, nodes: &mut [Node], request: ExecuteTaskRequest) -> (String, Vec<u64>) {
    let mut pauses = Vec::new();
    let mut dispatch = Dispatch::begin(app, request);
    while !dispatch.is_done() {
        match dispatch.schedule(app) {
            Action::Execute { node_id, address, request } => {
                assert_eq!(address, format!("http://{node_id}"));
                let node = nodes.iter_mut().find(|n| n.state.node_id == node_id).expect("a known node");
                let reply = node.execute(app, request);
                if let Action::Wait(ms) = dispatch.handle_reply(app, reply) {
                    pauses.push(ms);
                }
            }
            Action::Wait(ms) => pauses.push(ms),
            Action::Finished => {}
        }
    }
    (dispatch.task_id().clone(), pauses)
}

fn echo_task(app: &AppState, input: &[u8]) -> ExecuteTaskRequest {
    let body = SubmitTaskRequest {
        wasm_base64: Some(B64.encode(echo_wasm_bytes())),
        module_name: None,
        module_version: None,
        function_name: "process".to_string(),
        input_base64: B64.encode(input),
        timeout_ms: None,
        memory_limit_mb: None,
    };
    submit_task(app, "trace".to_string(), body).ok().expect("valid task")
}

fn plain_request(id: &str) -> ExecuteTaskRequest {
    ExecuteTaskRequest {
        task_id: id.to_string(),
        function_name: "process".to_string(),
        input: vec![1, 2],
        timeout_ms: 1,
        memory_limit_mb: 2,
        trace_id: "trace".to_string(),
        wasm_source: Some(WasmSource::WasmBytes(vec![3])),
    }
}

fn reply(success: bool, error: &str) -> Result<ExecuteTaskResponse, RpcStatus> {
    Ok(ExecuteTaskResponse {
        task_id: "t".to_string(),
        success,
        output: vec![9],
        execution_time_ms: 4,
        error: error.to_string(),
    })
}

fn exhausted() -> Result<ExecuteTaskResponse, RpcStatus> {
    Err(RpcStatus { code: RpcCode::ResourceExhausted, message: "full".to_string() })
}

#[test]
fn test_full_task_flow() {
    let mut app = AppState::default();
    let mut nodes = [Node::new("test-node", 10)];
    register(&mut app, "test-node");

    let request = echo_task(&app, b"hello");
    assert!(get_task(&app, &request.task_id).is_none(), "still pending");
    let (task_id, pauses) = drive(&mut app, &mut nodes, request);
    assert!(pauses.is_empty());

    let result = get_task(&app, &task_id).expect("task_id in response");
    assert!(result.success, "expected success=true, got: {result:?}");
    assert_eq!(result.output, b"hello", "output mismatch");
    assert_eq!(result.node_id, "test-node");
    assert_eq!(result.error, None);
}

#[test]
fn test_concurrent_task_execution() {
    let mut app = AppState::default();
    let mut nodes = [Node::new("stress-node-1", 20), Node::new("stress-node-2", 20)];
    register(&mut app, "stress-node-1");
    register(&mut app, "stress-node-2");

    let mut dispatches: Vec<(Dispatch, Option<(String, ExecuteTaskRequest)>)> = Vec::new();
    for i in 0..100 {
        let request = echo_task(&app, format!("task-{i}").as_bytes());
        dispatches.push((Dispatch::begin(&mut app, request), None));
    }
    let mut latencies_ms: Vec<u64> = Vec::with_capacity(100);
    let start = Instant::now();
    while latencies_ms.len() < 100 {
        for (dispatch, sent) in dispatches.iter_mut() {
            if dispatch.is_done() {
                continue;
            }
            match sent.take() {
                None => {
                    if let Action::Execute { node_id, request, .. } = dispatch.schedule(&mut app) {
                        *sent = Some((node_id, request));
                    }
                }
                Some((node_id, request)) => {
                    let node = nodes.iter_mut().find(|n| n.state.node_id == node_id).expect("a known node");
                    let reply = node.execute(&app, request);
                    dispatch.handle_reply(&mut app, reply);
                }
            }
            if dispatch.is_done() {
                latencies_ms.push(start.elapsed().as_millis() as u64);
            }
        }
    }

    assert_eq!(latencies_ms.len(), 100, "all 100 tasks must have a result");
    latencies_ms.sort_unstable();
    assert!(percentile(&latencies_ms, 50) <= percentile(&latencies_ms, 99));
    for (i, (dispatch, _)) in dispatches.iter().enumerate() {
        let result = get_task(&app, dispatch.task_id()).expect("a result");
        assert_eq!(result.output, format!("task-{i}").as_bytes());
    }
    let report = metrics(&app);
    assert_eq!(report.total_submitted, 100, "metrics must show 100 submitted tasks");
    assert_eq!((report.total_success, report.total_failed), (100, 0));
    assert_eq!((nodes[0].state.total_executed, nodes[1].state.total_executed), (50, 50));
    assert_eq!(nodes[0].cache.stats().misses, 1, "inline bytes are compiled once per node");
    assert_eq!(nodes[0].cache.stats().hits, 49);
    for node in list_nodes(&app) {
        assert!(node.active_tasks <= node.max_concurrent_tasks);
    }
}

#[test]
fn test_node_failure_handling() {
    let mut app = AppState::default();
    let mut nodes = [Node::new("fail-node-1", 20), Node::new("fail-node-2", 20)];
    register(&mut app, "fail-node-1");
    register(&mut app, "fail-node-2");

    for i in 0..10u32 {
        let request = echo_task(&app, b"hello");
        let (task_id, _) = drive(&mut app, &mut nodes, request);
        assert!(get_task(&app, &task_id).expect("done").success, "phase-1 task {i} must succeed");
    }

    nodes[0].alive = false;
    let mut round = HealthRound::new();
    for (id, _) in probe_targets(&app) {
        let node = nodes.iter().find(|n| n.state.node_id == id).expect("a known node");
        let answer = if node.alive { Some(health(&id, &node.state).active_tasks) } else { None };
        round.record(&mut app, &id, answer);
    }
    assert_eq!(round.healthy_count, 1);
    assert!(
        !app.nodes.get("fail-node-1").expect("registered").healthy,
        "fail-node-1 must be unhealthy after abort + health check"
    );
    assert!(app.nodes.get("fail-node-2").expect("registered").healthy, "fail-node-2 must still be healthy");

    for i in 0..10u32 {
        let request = echo_task(&app, b"hello");
        let (task_id, _) = drive(&mut app, &mut nodes, request);
        let result = get_task(&app, &task_id).expect("done");
        assert!(result.success, "phase-3 task {i} must succeed");
        assert_eq!(result.node_id, "fail-node-2", "phase-3 task {i} must be routed to fail-node-2");
    }
}

#[test]
fn a_dead_node_is_retried_elsewhere() {
    let mut app = AppState::default();
    let mut nodes = [Node::new("dead", 1), Node::new("live", 1)];
    nodes[0].alive = false;
    register(&mut app, "dead");
    register(&mut app, "live");
    let request = echo_task(&app, b"x");
    let (task_id, pauses) = drive(&mut app, &mut nodes, request);
    assert_eq!(pauses, [500]);
    let result = get_task(&app, &task_id).expect("done");
    assert_eq!((result.success, result.node_id.as_str()), (true, "live"));
    assert_eq!(app.total_retried, 1);
    assert_eq!(app.circuit_breakers.get("dead").expect("a breaker").failure_count, 1);
    assert_eq!(app.circuit_breakers.get("live").expect("a breaker").failure_count, 0);
}

#[test]
fn uploaded_modules_run_from_the_cache() {
    let mut app = AppState::default();
    let mut nodes = [Node::new("n", 1)];
    register(&mut app, "n");
    let upload = UploadModuleRequest {
        name: "echo".to_string(),
        version: "1.0".to_string(),
        wasm_base64: B64.encode(echo_wasm_bytes()),
    };
    upload_module(&mut app, upload).ok().expect("stored");
    for _ in 0..2 {
        let body = SubmitTaskRequest {
            wasm_base64: None,
            module_name: Some("echo".to_string()),
            module_version: Some("1.0".to_string()),
            function_name: "process".to_string(),
            input_base64: B64.encode(b"cached"),
            timeout_ms: None,
            memory_limit_mb: None,
        };
        let request = submit_task(&app, "trace".to_string(), body).ok().expect("valid task");
        let (task_id, _) = drive(&mut app, &mut nodes, request);
        assert_eq!(get_task(&app, &task_id).expect("done").output, b"cached");
    }
    let stats = nodes[0].cache.stats();
    assert_eq!((stats.size, stats.hits, stats.misses), (1, 1, 1));
    assert_eq!(nodes[0].state.active_tasks, 0);
}

#[test]
fn without_nodes_a_task_is_queued_three_times() {
    let mut app = AppState::default();
    let mut dispatch = Dispatch::begin(&mut app, plain_request("t"));
    for _ in 0..3 {
        assert!(matches!(dispatch.schedule(&mut app), Action::Wait(1_000)));
        assert_eq!(app.queued, 1);
    }
    assert!(matches!(dispatch.schedule(&mut app), Action::Finished));
    assert!(dispatch.is_done());
    assert_eq!(app.queued, 0);
    assert_eq!((app.total_submitted, app.total_success, app.total_failed), (1, 0, 1));
    let result = get_task(&app, "t").expect("stored");
    assert_eq!((result.success, result.node_id.as_str()), (false, "none"));
    assert_eq!(result.error.as_deref(), Some("no nodes available"));
    assert!(result.output.is_empty());
}

#[test]
fn the_third_failed_attempt_is_the_last() {
    let mut app = AppState::default();
    for id in ["a", "b", "c", "d"] {
        register(&mut app, id);
    }
    let mut dispatch = Dispatch::begin(&mut app, plain_request("t"));
    let mut seen = Vec::new();
    for attempt in 1..=3 {
        match dispatch.schedule(&mut app) {
            Action::Execute { node_id, request, .. } => {
                assert_eq!(request.task_id, "t");
                assert_eq!(request.input, [1, 2]);
                assert_eq!((request.timeout_ms, request.memory_limit_mb), (1, 2));
                assert!(!seen.contains(&node_id), "a node is tried once");
                seen.push(node_id);
            }
            other => panic!("unexpected: {other:?}"),
        }
        let action = dispatch.handle_reply_at(&mut app, reply(false, &format!("boom {attempt}")), Instant::now());
        match action {
            Action::Wait(ms) => assert!(attempt < 3 && ms == 500),
            Action::Finished => assert_eq!(attempt, 3),
            other => panic!("unexpected: {other:?}"),
        }
    }
    assert_eq!(get_task(&app, "t").expect("stored").error.as_deref(), Some("All nodes failed: boom 3"));
    assert_eq!(app.total_retried, 1, "a task counts as retried once");
    assert_eq!((app.total_success, app.total_failed), (0, 1));
}

#[test]
fn nodes_at_capacity_are_waited_for() {
    let mut app = AppState::default();
    for i in 0..8 {
        register(&mut app, &format!("n{i}"));
    }
    let mut dispatch = Dispatch::begin(&mut app, plain_request("t"));
    for _ in 0..30 {
        assert!(matches!(dispatch.schedule(&mut app), Action::Execute { .. }));
        assert!(matches!(dispatch.handle_reply(&mut app, exhausted()), Action::Wait(100)));
    }
    assert!(matches!(dispatch.schedule(&mut app), Action::Execute { .. }));
    assert!(matches!(dispatch.handle_reply(&mut app, exhausted()), Action::Finished));
    assert_eq!(
        get_task(&app, "t").expect("stored").error.as_deref(),
        Some("All nodes failed: all nodes persistently at capacity")
    );
    assert_eq!(app.circuit_breakers.get("n0").expect("a breaker").failure_count, 4);
    assert_eq!(app.total_retried, 0);
}

#[test]
fn replies_at_capacity_count_as_failures_of_the_node() {
    let mut app = AppState::default();
    register(&mut app, "a");
    let mut dispatch = Dispatch::begin(&mut app, plain_request("t"));
    for count in 1..=5 {
        assert!(matches!(dispatch.schedule(&mut app), Action::Execute { .. }));
        assert!(matches!(dispatch.handle_reply(&mut app, exhausted()), Action::Wait(100)));
        assert_eq!(app.circuit_breakers.get("a").expect("a breaker").failure_count, count);
    }
    assert_eq!(app.circuit_breakers.get("a").expect("a breaker").state, CircuitState::Open);
    assert!(matches!(dispatch.schedule(&mut app), Action::Wait(1_000)));
}

#[test]
fn a_tampered_module_fails_as_invalid() {
    let mut app = AppState::default();
    for id in ["a", "b", "c"] {
        register(&mut app, id);
    }
    let mut dispatch = Dispatch::begin(&mut app, plain_request("t"));
    while !dispatch.is_done() {
        if let Action::Execute { .. } = dispatch.schedule(&mut app) {
            let tampered = RpcStatus { code: RpcCode::DataLoss, message: "hash mismatch".to_string() };
            dispatch.handle_reply(&mut app, Err(tampered));
        }
    }
    assert_eq!(
        get_task(&app, "t").expect("stored").error.as_deref(),
        Some("All nodes failed: invalid wasm: hash mismatch")
    );
}

#[test]
fn a_success_is_recorded_with_its_node() {
    let mut app = AppState::default();
    register(&mut app, "a");
    let mut dispatch = Dispatch::begin(&mut app, plain_request("t"));
    let now = ClockReadings { since_failure: Vec::new(), seed: 0 };
    assert!(matches!(dispatch.schedule_with(&mut app, &now), Action::Execute { .. }));
    assert!(matches!(dispatch.handle_reply(&mut app, reply(true, "")), Action::Finished));
    let result = get_task(&app, "t").expect("stored");
    assert_eq!((result.success, result.node_id.as_str(), result.execution_time_ms), (true, "a", 4));
    assert_eq!(result.output, [9]);
    assert_eq!(app.circuit_breakers.get("a").expect("a breaker").state, CircuitState::Closed);
    assert_eq!((app.total_submitted, app.total_success, app.total_failed), (1, 1, 0));
}

#[test]
fn five_failed_tasks_open_the_circuit() {
    let mut app = AppState::default();
    register(&mut app, "a");
    let lost = || Err(RpcStatus { code: RpcCode::Other, message: "lost".to_string() });
    for i in 0..5 {
        let mut dispatch = Dispatch::begin(&mut app, plain_request(&format!("t{i}")));
        assert!(matches!(dispatch.schedule(&mut app), Action::Execute { .. }));
        dispatch.handle_reply(&mut app, lost());
    }
    assert_eq!(app.circuit_breakers.get("a").expect("a breaker").state, CircuitState::Open);
    let mut dispatch = Dispatch::begin(&mut app, plain_request("next"));
    assert!(matches!(dispatch.schedule(&mut app), Action::Wait(1_000)), "the node is left out");
    let node: &NodeInfo = app.nodes.get("a").expect("registered");
    assert!(node.healthy);
}
