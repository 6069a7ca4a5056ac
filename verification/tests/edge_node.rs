use std::sync::Arc;

use ferroedge::codec::sha256_hex;
use ferroedge::edge_node::config::{Config, Environment};
use ferroedge::edge_node::downloader::ModuleDownloader;
use ferroedge::edge_node::metrics::{
    decode_warm_request, memory_report, rss_bytes, rss_kilobytes, settle_warm_request, warm_answer, WarmCacheRequest,
};
use ferroedge::edge_node::registration::{local_hostname, own_address, registration_url};
use ferroedge::edge_node::server::grpc::{health, EdgeTask, Stage};
use ferroedge::edge_node::state::NodeState;
use ferroedge::proto::{ExecuteTaskRequest, ModuleRef, RpcCode, WasmSource};
use ferroedge::wasm_runtime::cache::CacheStats;
use ferroedge::wasm_runtime::engine::WasmEngine;
use ferroedge::wasm_runtime::sandbox::{ExecutionResult, WasmError};

fn request(wasm_source: Option<WasmSource>) -> ExecuteTaskRequest {
    ExecuteTaskRequest {
        task_id: "t1".to_string(),
        function_name: "process".to_string(),
        input: b"in".to_vec(),
        timeout_ms: 0,
        memory_limit_mb: 0,
        trace_id: "trace".to_string(),
        wasm_source,
    }
}

fn reference(hash: &str) -> Option<WasmSource> {
    Some(WasmSource::ModuleRef(ModuleRef {
        name: "echo".to_string(),
        version: "1.0".to_string(),
        hash: hash.to_string(),
        fetch_url: "http://cp/modules/echo/1.0".to_string(),
    }))
}

fn downloading(st: &mut NodeState, hash: &str) -> EdgeTask {
    let task = EdgeTask::begin(st, request(reference(hash)), true).expect("taken on");
    task.looked_up(None)
}

#[test]
fn a_full_node_refuses_a_task() {
    let mut st = NodeState::new("n1");
    let mut huge = request(Some(WasmSource::WasmBytes(vec![1])));
    huge.memory_limit_mb = u64::MAX;
    let status = EdgeTask::begin(&mut st, huge, false).err().expect("no slot");
    assert_eq!(status.code, RpcCode::ResourceExhausted);
    assert_eq!(status.message, "node is at maximum concurrent task capacity");
    assert_eq!((st.active_tasks, st.total_failed), (0, 0));
}

#[test]
fn a_task_without_code_is_refused() {
    let mut st = NodeState::new("n1");
    let status = EdgeTask::begin(&mut st, request(None), true).err().expect("nothing to run");
    assert_eq!(status.code, RpcCode::InvalidArgument);
    assert_eq!(status.message, "wasm_source must be set (wasm_bytes or module_ref)");
    assert_eq!((st.active_tasks, st.total_failed), (0, 1));
}

#[test]
fn limits_of_a_request() {
    let mut st = NodeState::new("n1");
    let task = EdgeTask::begin(&mut st, request(Some(WasmSource::WasmBytes(vec![1]))), true).expect("taken on");
    assert_eq!(task.config.memory_limit_bytes, 1_048_576);
    assert_eq!(task.config.timeout_ms, 5_000);
    let mut asked = request(Some(WasmSource::WasmBytes(vec![1])));
    asked.timeout_ms = 250;
    asked.memory_limit_mb = 64;
    let task = EdgeTask::begin(&mut st, asked, true).expect("taken on");
    assert_eq!(task.config.memory_limit_bytes, 67_108_864);
    assert_eq!(task.config.timeout_ms, 250);
    assert_eq!(task.config.function_name, "process");
    assert_eq!(st.active_tasks, 2);
}

#[test]
fn a_task_that_succeeds() {
    let mut st = NodeState::new("n1");
    let task = EdgeTask::begin(&mut st, request(Some(WasmSource::WasmBytes(vec![1]))), true).expect("taken on");
    assert!(matches!(&task.stage, Stage::LookUpBytes(bytes) if bytes == &[1]));
    let task = task.looked_up(None);
    assert!(matches!(&task.stage, Stage::Validate(bytes) if bytes == &[1]));
    assert_eq!(task.key(), Some(sha256_hex(&[1])));
    let task = task.validated(&mut st, Ok(())).ok().expect("valid");
    assert!(matches!(&task.stage, Stage::CompileBytes(bytes) if bytes == &[1]));
    assert_eq!(task.key(), Some(sha256_hex(&[1])));
    let task = task.compiled_bytes(&mut st, Ok(empty_module())).ok().expect("compiled");
    assert!(matches!(&task.stage, Stage::Run(_)));
    assert_eq!(st.active_tasks, 1);
    let done = ExecutionResult { output: b"out".to_vec(), execution_time_ms: 12, memory_used_bytes: 65_536 };
    let response = task.finish(&mut st, Ok(done));
    assert!(response.success);
    assert_eq!(response.task_id, "t1");
    assert_eq!(response.output, b"out");
    assert_eq!(response.execution_time_ms, 12);
    assert_eq!(response.error, "");
    assert_eq!((st.active_tasks, st.total_executed, st.total_failed, st.total_execution_time_ms), (0, 1, 0, 12));
}

#[test]
fn a_task_that_fails() {
    let mut st = NodeState::new("n1");
    let task = EdgeTask::begin(&mut st, request(Some(WasmSource::WasmBytes(vec![1]))), true).expect("taken on");
    let response = task.looked_up(Some(empty_module())).finish(&mut st, Err(WasmError::MemoryLimitExceeded));
    assert!(!response.success);
    assert!(response.output.is_empty());
    assert_eq!(response.execution_time_ms, 0);
    assert_eq!(response.error, "Memory limit exceeded");
    assert_eq!((st.active_tasks, st.total_executed, st.total_failed), (0, 0, 1));
}

#[test]
fn bytes_that_are_not_valid_or_do_not_compile_fail_the_task() {
    let mut st = NodeState::new("n1");
    let task = EdgeTask::begin(&mut st, request(Some(WasmSource::WasmBytes(vec![1]))), true).expect("taken on");
    let invalid = Err(WasmError::InvalidWasm("why".to_string()));
    let response = task.looked_up(None).validated(&mut st, invalid).err().expect("not valid");
    assert_eq!((response.task_id.as_str(), response.success), ("t1", false));
    assert_eq!(response.error, "Invalid WASM binary: why");
    assert_eq!((st.active_tasks, st.total_failed), (0, 1));

    let task = EdgeTask::begin(&mut st, request(Some(WasmSource::WasmBytes(vec![1]))), true).expect("taken on");
    let task = task.looked_up(None).validated(&mut st, Ok(())).ok().expect("valid");
    let failed = Err(WasmError::CompilationFailed("why".to_string()));
    let response = task.compiled_bytes(&mut st, failed).err().expect("does not compile");
    assert_eq!(response.error, "Compilation failed: why");
    assert_eq!((st.active_tasks, st.total_failed), (0, 2));
}

fn empty_module() -> Arc<wasmtime::Module> {
    let engine = WasmEngine::new().expect("engine");
    Arc::new(engine.compile(&wat::parse_str("(module)").expect("bad WAT")).expect("compiles"))
}

#[test]
fn a_cached_module_runs_at_once() {
    let module = empty_module();
    let mut st = NodeState::new("n1");
    let task = EdgeTask::begin(&mut st, request(reference("")), true).expect("taken on");
    match &task.stage {
        Stage::LookUp(module) => assert_eq!(EdgeTask::cache_key(module), "echo:1.0"),
        _ => panic!("expected a lookup"),
    }
    assert_eq!(task.key().as_deref(), Some("echo:1.0"));
    let task = task.looked_up(Some(Arc::clone(&module)));
    assert_eq!(task.key(), None);
    assert!(matches!(&task.stage, Stage::Run(found) if Arc::ptr_eq(found, &module)));

    let inline = EdgeTask::begin(&mut st, request(Some(WasmSource::WasmBytes(b"abc".to_vec()))), true).expect("taken on");
    assert_eq!(
        EdgeTask::inline_key(b"abc"),
        "ba7816bf8f01cfea414140de5dae2223b00361a396177a9cb410ff61f20015ad"
    );
    assert_eq!(inline.key(), Some(EdgeTask::inline_key(b"abc")));
    let inline = inline.looked_up(Some(Arc::clone(&module)));
    assert!(matches!(&inline.stage, Stage::Run(found) if Arc::ptr_eq(found, &module)));
}

#[test]
fn a_download_is_checked_and_compiled() {
    let mut st = NodeState::new("n1");
    let task = downloading(&mut st, &sha256_hex(b"wasm"));
    assert!(matches!(&task.stage, Stage::Download(_)));
    assert_eq!(task.key().as_deref(), Some("echo:1.0"));
    let task = task.downloaded(&mut st, Ok(b"wasm".to_vec())).ok().expect("intact");
    assert_eq!(task.key().as_deref(), Some("echo:1.0"));
    assert!(matches!(&task.stage, Stage::Compile(_, bytes) if bytes == b"wasm"));
    let status = task
        .compiled(&mut st, Err(WasmError::CompilationFailed("why".to_string())))
        .err()
        .expect("does not compile");
    assert_eq!(status.code, RpcCode::Internal);
    assert_eq!(status.message, "compilation failed: Compilation failed: why");
    assert_eq!((st.active_tasks, st.total_failed), (0, 0));
}

#[test]
fn a_download_with_the_wrong_digest_is_refused() {
    let mut st = NodeState::new("n1");
    let task = downloading(&mut st, &sha256_hex(b"wasm"));
    let status = task.downloaded(&mut st, Ok(b"other".to_vec())).err().expect("tampered");
    assert_eq!(status.code, RpcCode::DataLoss);
    assert_eq!(status.message, "module hash mismatch — possible tampering");
    assert_eq!((st.active_tasks, st.total_failed), (0, 1));

    let task = downloading(&mut st, "");
    assert!(task.downloaded(&mut st, Ok(b"anything".to_vec())).is_ok(), "no digest, no check");
    assert_eq!(st.active_tasks, 1);

    let task = downloading(&mut st, "x");
    assert!(task.settle_download(&mut st, Ok(Vec::new()), true).is_ok());
}

#[test]
fn a_failed_download_frees_the_slot() {
    let mut st = NodeState::new("n1");
    let task = downloading(&mut st, "");
    let status = task.downloaded(&mut st, Err("no route".to_string())).err().expect("failed");
    assert_eq!(status.code, RpcCode::Internal);
    assert_eq!(status.message, "module download failed: no route");
    assert_eq!((st.active_tasks, st.total_failed), (0, 0));
}

#[test]
fn health_answer() {
    let mut st = NodeState::new("n1");
    st.take_on();
    st.take_on();
    st.release();
    let answer = health("n1", &st);
    assert_eq!((answer.node_id.as_str(), answer.active_tasks, answer.ready), ("n1", 1, true));
    st.release();
    st.release();
    assert_eq!(st.active_tasks, 0);
}

#[test]
fn downloads() {
    let downloader = ModuleDownloader::new("http://cp:8080");
    assert_eq!(downloader.download_url("echo", "1.0"), "http://cp:8080/modules/echo/1.0");
    assert_eq!(ModuleDownloader::accept_response("a", "1", true, "200 OK", vec![1, 2]), Ok(vec![1, 2]));
    assert_eq!(
        ModuleDownloader::accept_response("a", "1", false, "404 Not Found", Vec::new()),
        Err("control-plane returned 404 Not Found for module a:1".to_string())
    );
}

#[test]
fn digests_in_hexadecimal() {
    assert_eq!(sha256_hex(b""), "e3b0c44298fc1c149afbf4c8996fb92427ae41e4649b934ca495991b7852b855");
    assert!(ModuleDownloader::verify_digest(&[0x00, 0x1f, 0xa0, 0xff], "001fa0ff"));
    assert!(!ModuleDownloader::verify_digest(&[0x1f], "1F"));
    assert!(ModuleDownloader::verify_hash(
        b"abc",
        "ba7816bf8f01cfea414140de5dae2223b00361a396177a9cb410ff61f20015ad"
    ));
    assert!(!ModuleDownloader::verify_hash(
        b"abc",
        "BA7816BF8F01CFEA414140DE5DAE2223B00361A396177A9CB410FF61F20015AD"
    ));
}

#[test]
fn memory_reports() {
    let mut st = NodeState::new("n1");
    st.active_tasks = 3;
    let stats = CacheStats { size: 1, hits: 0, misses: 0, evictions: 0, total_wasm_bytes: 77 };
    let report = memory_report(&st, &stats, 5);
    assert_eq!(report.heap_allocated_bytes, 5);
    assert_eq!(report.wasm_memory_bytes, 3 * 64 * 1024 * 1024);
    assert_eq!(report.cache_memory_estimate_bytes, 77);
    assert_eq!(report.active_stores, 3);
}

#[test]
fn resident_memory_is_read_from_the_status_text() {
    assert_eq!(rss_kilobytes("Name:\tx\nVmRSS:\t    1234 kB\nVmData: 9 kB\n"), Some(1234));
    assert_eq!(rss_kilobytes("VmRSS: x kB\nVmRSS:\u{3000}7"), Some(7));
    assert_eq!(rss_kilobytes("VmRSS:1234 5 kB"), Some(5));
    assert_eq!(rss_kilobytes(" VmRSS: 1 kB"), None);
    assert_eq!(rss_kilobytes("VmRSS:\nVmRSS"), None);
    assert_eq!(rss_kilobytes("VmRSS: 18446744073709551616 kB"), None);
    assert_eq!(rss_kilobytes("VmRSS: +3\r\n"), Some(3));
    assert_eq!(rss_kilobytes(""), None);
    assert_eq!(rss_bytes(Some(2)), 2048);
    assert_eq!(rss_bytes(None), 0);
}

#[test]
fn cache_warming() {
    let body = WarmCacheRequest {
        name: "echo".to_string(),
        version: "1.0".to_string(),
        wasm_bytes_base64: "AGFzbQ==".to_string(),
    };
    let (key, bytes) = decode_warm_request(&body).ok().expect("valid");
    assert_eq!((key.as_str(), bytes.as_slice()), ("echo:1.0", b"\0asm".as_slice()));
    let bad = WarmCacheRequest { wasm_bytes_base64: "AGFzbQ".to_string(), ..body };
    let answer = decode_warm_request(&bad).err().expect("no padding");
    assert_eq!(answer.status, 400);
    assert!(answer.outcome.expect_err("refused").starts_with("invalid base64: "));
    let answer = settle_warm_request("a", "1", Err("why".to_string())).err().expect("refused");
    assert_eq!(answer.outcome, Err("invalid base64: why".to_string()));
    let answer = warm_answer("a:1".to_string(), Ok(()));
    assert_eq!((answer.status, answer.outcome), (200, Ok("a:1".to_string())));
    let answer = warm_answer("a:1".to_string(), Err(WasmError::CompilationFailed("why".to_string())));
    assert_eq!((answer.status, answer.outcome), (500, Err("Compilation failed: why".to_string())));
}

fn environment() -> Environment {
    Environment {
        node_id: Some("n1".to_string()),
        grpc_port: None,
        control_plane_url: Some("http://cp".to_string()),
        rust_log: None,
        max_tasks: None,
        metrics_port: None,
        cache_max_size: None,
        cache_ttl_secs: None,
    }
}

#[test]
fn edge_node_settings() {
    let config = Config::from_environment(environment()).expect("defaults");
    assert_eq!(config.node_id, "n1");
    assert_eq!((config.grpc_port, config.metrics_port), (50051, 9090));
    assert_eq!((config.max_concurrent_tasks, config.cache_max_size, config.cache_ttl_secs), (10, 50, 300));
    assert_eq!(config.rust_log, "info");
    assert_eq!(config.control_plane_url, "http://cp");

    let mut env = environment();
    env.max_tasks = Some("4".to_string());
    env.cache_ttl_secs = Some("18446744073709551615".to_string());
    let config = Config::from_environment(env).expect("valid");
    assert_eq!((config.max_concurrent_tasks, config.cache_ttl_secs), (4, u64::MAX));
}

#[test]
fn edge_node_settings_that_are_wrong() {
    let problem = |change: fn(&mut Environment)| {
        let mut env = environment();
        change(&mut env);
        Config::from_environment(env).expect_err("wrong")
    };
    assert_eq!(problem(|e| e.node_id = None), "NODE_ID must be set");
    assert_eq!(problem(|e| e.grpc_port = Some("x".to_string())), "GRPC_PORT must be a valid port number");
    assert_eq!(problem(|e| e.control_plane_url = None), "CONTROL_PLANE_URL must be set");
    assert_eq!(problem(|e| e.max_tasks = Some("-1".to_string())), "MAX_TASKS must be a valid integer");
    assert_eq!(problem(|e| e.metrics_port = Some("65536".to_string())), "METRICS_PORT must be a valid port number");
    assert_eq!(problem(|e| e.cache_max_size = Some("1.5".to_string())), "CACHE_MAX_SIZE must be a valid integer");
    assert_eq!(
        problem(|e| e.cache_ttl_secs = Some("18446744073709551616".to_string())),
        "CACHE_TTL_SECS must be a valid integer"
    );
}

#[test]
fn registration_addresses() {
    assert_eq!(registration_url("http://cp:8080"), "http://cp:8080/nodes/register");
    assert_eq!(own_address("edge-1", 50051), "http://edge-1:50051");
    assert_eq!(local_hostname(None), "127.0.0.1");
    assert_eq!(local_hostname(Some("edge-1".to_string())), "edge-1");
}
