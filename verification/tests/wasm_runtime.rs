use std::sync::Arc;
use std::time::{Duration, Instant};

use ferroedge::codec::sha256_hex;
use ferroedge::edge_node::downloader::ModuleDownloader;
use ferroedge::wasm_runtime::cache::{CacheStats, CompiledModuleCache};
use ferroedge::wasm_runtime::engine::WasmEngine;
use ferroedge::wasm_runtime::guest::{Fault, FaultKind, LimitState, OpenError};
use ferroedge::wasm_runtime::sandbox::{
    check_valid, execute_started, execute_wasm, map_fault, map_open_error, map_trap_error, output_length, prepare, settle_call, settle_copy,
    ExecutionConfig, WasmError, WasmSandbox,
};

const ECHO_WAT: &str = r#"
(module
  (memory (export "memory") 1)
  (func (export "alloc") (param $size i32) (result i32)
    i32.const 0
  )
  (func (export "process") (param $ptr i32) (param $len i32) (result i32)
    local.get $len
  )
)
"#;

const NO_PROCESS_WAT: &str = r#"
(module
  (memory (export "memory") 1)
  (func (export "alloc") (param $size i32) (result i32)
    i32.const 0
  )
)
"#;

const INFINITE_LOOP_WAT: &str = r#"
(module
  (memory (export "memory") 1)
  (func (export "alloc") (param $size i32) (result i32)
    i32.const 0
  )
  (func (export "process") (param $ptr i32) (param $len i32) (result i32)
    (loop $spin
      br $spin
    )
    i32.const 0
  )
)
"#;

const MEMORY_GROW_WAT: &str = r#"
(module
  (memory (export "memory") 1)
  (func (export "alloc") (param $size i32) (result i32)
    i32.const 0
  )
  (func (export "process") (param $ptr i32) (param $len i32) (result i32)
    i32.const 1000
    memory.grow
    i32.const -1
    i32.eq
    if
      unreachable
    end
    i32.const 0
  )
)
"#;

fn program(alloc: &str, process: &str) -> Vec<u8> {
    let text = format!(
        r#"(module
             (memory (export "memory") 1)
             (func (export "alloc") (param i32) (result i32) {alloc})
             (func (export "process") (param i32) (param i32) (result i32) {process}))"#
    );
    wat::parse_str(text).expect("bad WAT")
}

fn make_engine() -> Arc<WasmEngine> {
    Arc::new(WasmEngine::new().expect("failed to create WasmEngine"))
}

/// A sandbox on the default engine; where the address space does not hold the
/// memory that it reserves for a program, on the compact one.
fn make_sandbox() -> (Arc<WasmEngine>, WasmSandbox) {
    let engine = make_engine();
    let sandbox = WasmSandbox::new(Arc::clone(&engine));
    let echo = wat::parse_str(ECHO_WAT).expect("bad WAT");
    if sandbox.execute(&echo, &config("process", 5_000, 64), b"").is_ok() {
        return (engine, sandbox);
    }
    let engine = Arc::new(WasmEngine::new_compact().expect("failed to create WasmEngine"));
    (Arc::clone(&engine), WasmSandbox::new(engine))
}

fn config(function_name: &str, timeout_ms: u64, memory_limit_mb: u64) -> ExecutionConfig {
    ExecutionConfig {
        memory_limit_bytes: memory_limit_mb * 1024 * 1024,
        timeout_ms,
        function_name: function_name.to_string(),
    }
}

#[test]
fn test_valid_wasm_execution() {
    let (_, sandbox) = make_sandbox();
    let wasm = wat::parse_str(ECHO_WAT).expect("bad WAT");
    let input = b"hello wasm";

    let result = sandbox
        .execute(&wasm, &config("process", 5_000, 64), input)
        .expect("execution should succeed");

    assert_eq!(result.output, input, "output must equal input");
    assert!(result.execution_time_ms < 5_000, "should finish well within timeout");
    assert_eq!(result.memory_used_bytes, 65_536);
}

#[test]
fn test_invalid_wasm_bytes() {
    let (_, sandbox) = make_sandbox();
    let garbage = b"this is definitely not wasm";

    let err = sandbox
        .execute(garbage, &config("process", 5_000, 64), b"")
        .expect_err("should fail on invalid bytes");

    assert!(matches!(err, WasmError::InvalidWasm(_)), "expected InvalidWasm, got: {err:?}");
    assert!(err.message().starts_with("Invalid WASM binary: "));
}

#[test]
fn test_missing_export() {
    let (_, sandbox) = make_sandbox();
    let wasm = wat::parse_str(NO_PROCESS_WAT).expect("bad WAT");

    let err = sandbox
        .execute(&wasm, &config("process", 5_000, 64), b"data")
        .expect_err("should fail on missing export");

    assert!(matches!(err, WasmError::MissingExport(_)), "expected MissingExport, got: {err:?}");
    assert_eq!(err.message(), "Missing export: process");
}

#[test]
fn missing_exports_are_reported_in_order() {
    let (_, sandbox) = make_sandbox();
    let empty = wat::parse_str("(module)").expect("bad WAT");
    let err = sandbox.execute(&empty, &config("process", 5_000, 64), b"").expect_err("no exports");
    assert_eq!(err.message(), "Missing export: alloc");

    let no_memory = wat::parse_str(
        r#"(module
             (func (export "alloc") (param i32) (result i32) i32.const 0)
             (func (export "run") (param i32) (param i32) (result i32) i32.const 0))"#,
    )
    .expect("bad WAT");
    let err = sandbox.execute(&no_memory, &config("process", 5_000, 64), b"").expect_err("no function");
    assert_eq!(err.message(), "Missing export: process");
    let err = sandbox.execute(&no_memory, &config("run", 5_000, 64), b"").expect_err("no memory");
    assert_eq!(err.message(), "Missing export: memory");

    let wrong_types = wat::parse_str(
        r#"(module
             (memory (export "memory") 1)
             (func (export "alloc") (param i64) (result i32) i32.const 0)
             (func (export "run") (param i32) (result i32) i32.const 0))"#,
    )
    .expect("bad WAT");
    let err = sandbox.execute(&wrong_types, &config("run", 5_000, 64), b"").expect_err("another type");
    assert_eq!(err.message(), "Missing export: alloc");
    let err = sandbox.execute(&no_memory, &config("run", 5_000, 64), b"").expect_err("no memory");
    assert_eq!(err.message(), "Missing export: memory");
}

#[test]
fn test_timeout_enforcement() {
    let (engine, sandbox) = make_sandbox();
    let wasm = wat::parse_str(INFINITE_LOOP_WAT).expect("bad WAT");

    let runtime = tokio::runtime::Runtime::new().expect("runtime");
    let (err, elapsed) = runtime.block_on(async move {
        let wall = Instant::now();
        let timer_engine = Arc::clone(&engine);
        let timer = tokio::spawn(async move {
            tokio::time::sleep(Duration::from_millis(100)).await;
            timer_engine.increment_epoch();
        });
        let run = tokio::task::spawn_blocking(move || {
            sandbox.execute(&wasm, &config("process", 100, 64), b"").expect_err("should time out")
        });
        let err = run.await.expect("run");
        timer.abort();
        (err, wall.elapsed())
    });

    assert!(matches!(err, WasmError::Timeout(_)), "expected Timeout, got: {err:?}");
    assert_eq!(err.message(), "Execution timeout after 100ms");
    assert!(
        elapsed.as_millis() < 300,
        "should abort within ~2× timeout, took {}ms",
        elapsed.as_millis()
    );
}

#[test]
fn test_memory_limit() {
    let (_, sandbox) = make_sandbox();
    let wasm = wat::parse_str(MEMORY_GROW_WAT).expect("bad WAT");
    let cfg = ExecutionConfig {
        memory_limit_bytes: 64 * 1024,
        timeout_ms: 5_000,
        function_name: "process".to_string(),
    };

    let err = sandbox.execute(&wasm, &cfg, b"").expect_err("should fail on memory limit");

    assert!(
        matches!(err, WasmError::MemoryLimitExceeded | WasmError::Trap(_)),
        "expected MemoryLimitExceeded or Trap, got: {err:?}"
    );
    assert_eq!(err.message(), "Memory limit exceeded");
}

#[test]
fn memory_within_the_limit_is_granted_and_reported() {
    let (_, sandbox) = make_sandbox();
    let wasm = wat::parse_str(MEMORY_GROW_WAT).expect("bad WAT");
    let done = sandbox.execute(&wasm, &config("process", 5_000, 64), b"").expect("65 MB are not needed");
    assert!(done.output.is_empty());
    assert_eq!(done.memory_used_bytes, 1001 * 65_536);

    let cfg = ExecutionConfig {
        memory_limit_bytes: 1001 * 65_536 - 1,
        timeout_ms: 5_000,
        function_name: "process".to_string(),
    };
    let err = sandbox.execute(&wasm, &cfg, b"").expect_err("one byte short");
    assert_eq!(err.message(), "Memory limit exceeded");

    let cfg = ExecutionConfig {
        memory_limit_bytes: 65_535,
        timeout_ms: 5_000,
        function_name: "process".to_string(),
    };
    let err = sandbox.execute(&wasm, &cfg, b"").expect_err("initial memory is denied");
    assert_eq!(err.message(), "Memory limit exceeded");
}

#[test]
fn output_is_read_where_the_input_was_written() {
    let (_, sandbox) = make_sandbox();
    let upper = program(
        "i32.const 1000",
        "(i32.store8 (local.get 0) (i32.sub (i32.load8_u (local.get 0)) (i32.const 32))) local.get 1",
    );
    let done = sandbox.execute(&upper, &config("process", 5_000, 64), b"hello").expect("runs");
    assert_eq!(done.output, b"Hello");

    let longer = program("i32.const 0", "i32.const 7");
    let done = sandbox.execute(&longer, &config("process", 5_000, 64), b"hello").expect("runs");
    assert_eq!(done.output, b"hello\0\0");
}

#[test]
fn only_the_input_is_written_into_the_memory_of_a_program() {
    let (_, sandbox) = make_sandbox();
    let text = r#"(module
         (memory (export "memory") 1)
         (data (i32.const 0) "abcdefgh")
         (func (export "alloc") (param i32) (result i32)
           (i32.store8 (i32.const 7) (i32.const 33))
           i32.const 4)
         (func (export "process") (param i32) (param i32) (result i32)
           (i32.store8 (i32.const 8) (i32.load8_u (i32.const 3)))
           i32.const 5))"#;
    let wasm = wat::parse_str(text).expect("bad WAT");
    for _ in 0..2 {
        let done = sandbox.execute(&wasm, &config("process", 5_000, 64), b"hi").expect("runs");
        assert_eq!(done.output, b"hig!d");
    }
}

#[test]
fn the_program_is_told_pointer_and_length() {
    let (_, sandbox) = make_sandbox();
    let size_passed_on = program("local.get 0", "(i32.add (local.get 0) (local.get 1))");
    let done = sandbox.execute(&size_passed_on, &config("process", 5_000, 64), b"abcd").expect("runs");
    assert_eq!(done.output, b"abcd\0\0\0\0");
}

#[test]
fn failures_of_a_program_are_told_apart() {
    let (_, sandbox) = make_sandbox();
    let cfg = config("process", 5_000, 64);

    let negative = program("i32.const 0", "i32.const -7");
    let err = sandbox.execute(&negative, &cfg, b"x").expect_err("negative length");
    assert_eq!(err.message(), "IO error: process returned negative length: -7");

    let beyond = program("i32.const 0", "i32.const 65537");
    let err = sandbox.execute(&beyond, &cfg, b"x").expect_err("output beyond memory");
    assert_eq!(err.message(), "IO error: out of bounds memory access");

    let bad_pointer = program("i32.const -1", "i32.const 0");
    let err = sandbox.execute(&bad_pointer, &cfg, b"x").expect_err("input beyond memory");
    assert_eq!(err.message(), "IO error: out of bounds memory access");

    let end_of_memory = program("i32.const 65535", "i32.const 1");
    let done = sandbox.execute(&end_of_memory, &cfg, b"x").expect("last byte of memory");
    assert_eq!(done.output, b"x");

    let trap = program("i32.const 0", "unreachable");
    let err = sandbox.execute(&trap, &cfg, b"x").expect_err("trap");
    assert_eq!(err.message(), "Runtime trap: UnreachableCodeReached");

    let alloc_trap = program("unreachable", "i32.const 0");
    let err = sandbox.execute(&alloc_trap, &cfg, b"x").expect_err("trap in alloc");
    assert_eq!(err.message(), "Runtime trap: UnreachableCodeReached");

    let import = wat::parse_str(r#"(module (import "env" "f" (func)))"#).expect("bad WAT");
    let err = sandbox.execute(&import, &cfg, b"x").expect_err("nothing to import");
    assert!(matches!(err, WasmError::Trap(_)), "got: {err:?}");
}

#[test]
fn execute_wasm_takes_mebibytes() {
    let wasm = wat::parse_str(MEMORY_GROW_WAT).expect("bad WAT");
    let err = execute_wasm(make_sandbox().0, &wasm, "process", b"", 5_000, 1).expect_err("one MiB is too little");
    assert!(matches!(err, WasmError::MemoryLimitExceeded));
    let echo = wat::parse_str(ECHO_WAT).expect("bad WAT");
    let done = execute_wasm(make_sandbox().0, &echo, "process", b"abc", 5_000, 1).expect("runs");
    assert_eq!(done.output, b"abc");
}

#[test]
fn faults_map_to_errors() {
    let interrupted = map_trap_error(FaultKind::Interrupted, 250);
    assert!(matches!(interrupted, WasmError::Timeout(250)));
    let trap = map_trap_error(FaultKind::Trap("StackOverflow".to_string()), 250);
    assert_eq!(trap.message(), "Runtime trap: StackOverflow");
    let lower = map_trap_error(FaultKind::Other("epoch interrupt reached".to_string()), 250);
    assert!(matches!(lower, WasmError::Timeout(250)));
    let upper = map_trap_error(FaultKind::Other("Interrupt".to_string()), 250);
    assert!(matches!(upper, WasmError::Timeout(250)));
    let other = map_trap_error(FaultKind::Other("INTERRUPT".to_string()), 250);
    assert_eq!(other.message(), "Runtime trap: INTERRUPT");
    let denied = map_fault(Fault { denied: true, kind: FaultKind::Interrupted }, 250);
    assert!(matches!(denied, WasmError::MemoryLimitExceeded));
    let allowed = map_fault(Fault { denied: false, kind: FaultKind::Interrupted }, 250);
    assert_eq!(allowed.message(), "Execution timeout after 250ms");
    assert_eq!(map_open_error(OpenError::NoMemory, "f", 1).message(), "Missing export: memory");
    assert_eq!(map_open_error(OpenError::NoFunction, "f", 1).message(), "Missing export: f");
    assert_eq!(WasmError::CompilationFailed("why".to_string()).message(), "Compilation failed: why");
}

#[test]
fn default_engine_validates_and_compiles() {
    let engine = WasmEngine::new().expect("failed to create WasmEngine");
    let wasm = wat::parse_str(ECHO_WAT).expect("bad WAT");
    assert!(engine.validate(&wasm).is_ok());
    assert!(engine.compile(&wasm).is_ok());
    assert!(engine.validate(b"\0asm").is_err());
    assert!(engine.compile(b"\0asm").is_err());
    assert!(engine.compile(ECHO_WAT.as_bytes()).is_ok(), "text is compiled too");
    assert!(engine.validate(ECHO_WAT.as_bytes()).is_err());
    engine.increment_epoch();
}

#[test]
fn execution_time_counts_from_the_start() {
    let (engine, _) = make_sandbox();
    let module = engine.compile(&wat::parse_str(ECHO_WAT).expect("bad WAT")).expect("compiles");
    let start = Instant::now();
    let runtime = tokio::runtime::Runtime::new().expect("runtime");
    runtime.block_on(async { tokio::time::sleep(Duration::from_millis(30)).await });
    let done = execute_started(&engine, &module, &config("process", 5_000, 64), b"abc", start).expect("runs");
    assert!(done.execution_time_ms >= 30);
    assert_eq!(done.output, b"abc");
}

#[test]
fn a_module_of_another_engine_does_not_run() {
    let (_, sandbox) = make_sandbox();
    let foreign = make_engine().compile(&wat::parse_str(ECHO_WAT).expect("bad WAT")).expect("compiles");
    let err = sandbox
        .execute_compiled(Arc::new(foreign), &config("process", 5_000, 64), b"abc")
        .expect_err("another engine");
    assert!(matches!(err, WasmError::Trap(_)), "got: {err:?}");
}

#[test]
fn a_cache_compiles_on_its_own_engine() {
    let (engine, sandbox) = make_sandbox();
    let mut cache = CompiledModuleCache::new(Arc::clone(&engine), 2, 60);
    assert!(Arc::ptr_eq(&engine, &cache.engine()));
    let module = cache.get_or_compile("echo", &wat::parse_str(ECHO_WAT).expect("bad WAT")).expect("compiles");
    let done = sandbox.execute_compiled(module, &config("process", 5_000, 64), b"abc").expect("runs");
    assert_eq!(done.output, b"abc");
}

#[test]
fn replies_are_settled() {
    assert_eq!(settle_call(Ok(-3), 9).expect("a number"), -3);
    let fault = Fault { denied: false, kind: FaultKind::Trap("StackOverflow".to_string()) };
    assert_eq!(settle_call(Err(fault), 9).expect_err("a fault").message(), "Runtime trap: StackOverflow");
    assert_eq!(settle_copy(Ok::<u8, String>(4)).expect("copied"), 4);
    let err = settle_copy(Err::<u8, String>("why".to_string())).expect_err("not copied");
    assert_eq!(err.message(), "IO error: why");
}

#[test]
fn bytes_are_validated_before_they_are_compiled() {
    let engine = make_engine();
    let wasm = wat::parse_str(ECHO_WAT).expect("bad WAT");
    assert!(check_valid(&engine, &wasm).is_ok());
    assert!(prepare(&engine, &wasm).is_ok());
    assert!(matches!(check_valid(&engine, b"text"), Err(WasmError::InvalidWasm(_))));
    assert!(matches!(prepare(&engine, ECHO_WAT.as_bytes()), Err(WasmError::InvalidWasm(_))));
}

#[test]
fn a_compiled_module_runs_like_its_bytes() {
    let (engine, sandbox) = make_sandbox();
    for wat in [ECHO_WAT, NO_PROCESS_WAT, MEMORY_GROW_WAT] {
        let wasm = wat::parse_str(wat).expect("bad WAT");
        let module = Arc::new(engine.compile(&wasm).expect("compiles"));
        let cfg = config("process", 5_000, 1);
        for _ in 0..2 {
            let from_bytes = sandbox.execute(&wasm, &cfg, b"abc").map(|d| (d.output, d.memory_used_bytes));
            let compiled = sandbox.execute_compiled(Arc::clone(&module), &cfg, b"abc").map(|d| (d.output, d.memory_used_bytes));
            assert_eq!(from_bytes.map_err(|e| e.message()), compiled.map_err(|e| e.message()));
        }
    }
}

#[test]
fn hits_and_misses_add_up() {
    let mut cache = CompiledModuleCache::new(make_engine(), 2, 60);
    let wasm = wat::parse_str(ECHO_WAT).expect("bad WAT");
    let mut counted = 0;
    for key in ["a", "b", "a", "c", "b", "bad", "a"] {
        if cache.get_cached(key).is_some() {
            counted += 1;
        }
        let bytes: &[u8] = if key == "bad" { b"\0asm" } else { &wasm };
        let _ = cache.get_or_compile(key, bytes);
        counted += 1;
        let stats = cache.stats();
        assert_eq!(stats.hits + stats.misses, counted);
        assert!(stats.size <= 2);
        assert_eq!(stats, cache.stats());
    }
}

#[test]
fn output_lengths() {
    assert_eq!(output_length(0).expect("zero"), 0);
    assert_eq!(output_length(i32::MAX).expect("largest"), 2_147_483_647);
    let err = output_length(i32::MIN).expect_err("negative");
    assert_eq!(err.message(), "IO error: process returned negative length: -2147483648");
}

#[test]
fn limits_remember_a_denial() {
    let mut limits = LimitState::new(65_536);
    assert!(limits.grant(65_536));
    assert!(!limits.grant(65_537));
    assert!(limits.grant(0));
}

// ── Cache ──────────────────────────────────────────────────────────────────

#[test]
fn test_cache_hit() {
    let engine = make_engine();
    let mut cache = CompiledModuleCache::new(Arc::clone(&engine), 10, 60);
    let wasm = wat::parse_str(ECHO_WAT).expect("bad WAT");

    let t0 = Instant::now();
    let _ = cache.get_or_compile("echo:1.0", &wasm).expect("first compile");
    let compile_time = t0.elapsed();

    let t1 = Instant::now();
    let _ = cache.get_or_compile("echo:1.0", &wasm).expect("cache hit");
    let cached_time = t1.elapsed();

    assert!(
        compile_time > cached_time * 10,
        "cache hit should be >10× faster: compile={compile_time:?}, cached={cached_time:?}"
    );

    let stats = cache.stats();
    assert_eq!(stats.hits, 1, "expected 1 hit");
    assert_eq!(stats.misses, 1, "expected 1 miss");
}

#[test]
fn test_cache_ttl() {
    let engine = make_engine();
    let ttl = Duration::from_millis(100).as_nanos();
    let mut cache = CompiledModuleCache::new_with_ttl(Arc::clone(&engine), 10, ttl);
    let wasm = wat::parse_str(ECHO_WAT).expect("bad WAT");

    cache.get_or_compile("echo:ttl", &wasm).expect("initial compile");

    let runtime = tokio::runtime::Runtime::new().expect("runtime");
    runtime.block_on(async { tokio::time::sleep(Duration::from_millis(200)).await });

    cache.get_or_compile("echo:ttl", &wasm).expect("re-compile after TTL");

    let stats = cache.stats();
    assert_eq!(stats.misses, 2, "both calls should be misses (TTL expired between them)");
    assert!(stats.evictions >= 1, "expired entry must be evicted");
}

#[test]
fn test_hash_verification() {
    let original = b"valid wasm bytes (placeholder)";
    let expected_hash = sha256_hex(original);

    let actual = sha256_hex(original);
    assert_eq!(actual, expected_hash, "correct bytes should match hash");
    assert!(ModuleDownloader::verify_hash(original, &expected_hash));

    let mut tampered = original.to_vec();
    tampered[0] ^= 0xFF;
    let tampered_hash = sha256_hex(&tampered);
    assert_ne!(tampered_hash, expected_hash, "tampered bytes must not match original hash");
    assert!(!ModuleDownloader::verify_hash(&tampered, &expected_hash));
}

#[test]
fn test_cache_eviction() {
    let engine = make_engine();
    let mut cache = CompiledModuleCache::new(Arc::clone(&engine), 3, 60);
    let wasm = wat::parse_str(ECHO_WAT).expect("bad WAT");

    cache.get_or_compile("mod:1", &wasm).expect("insert 1");
    cache.get_or_compile("mod:2", &wasm).expect("insert 2");
    cache.get_or_compile("mod:3", &wasm).expect("insert 3");

    let stats_before = cache.stats();
    assert_eq!(stats_before.size, 3, "cache should be full (size=3)");

    cache.get_or_compile("mod:4", &wasm).expect("insert 4 — triggers eviction");

    let stats_after = cache.stats();
    assert_eq!(stats_after.size, 3, "cache size must not exceed max_size after eviction");
    assert!(
        stats_after.evictions >= 1,
        "at least one eviction must have occurred, got: {}",
        stats_after.evictions
    );
    assert_eq!(stats_after.total_wasm_bytes, 3 * wasm.len() as u64);
    assert!(cache.get_cached("mod:1").is_none(), "the oldest entry has left");
    assert!(cache.get_cached("mod:2").is_some());
}

#[test]
fn least_recently_used_entry_leaves() {
    let engine = make_engine();
    let mut cache = CompiledModuleCache::new(Arc::clone(&engine), 2, 60);
    let wasm = wat::parse_str(ECHO_WAT).expect("bad WAT");
    let first = cache.get_or_compile("a", &wasm).expect("a");
    cache.get_or_compile("b", &wasm).expect("b");
    let again = cache.get_cached("a").expect("a is there");
    assert!(Arc::ptr_eq(&first, &again));
    cache.get_or_compile("c", &wasm).expect("c");
    assert!(cache.get_cached("a").is_some());
    assert!(cache.get_cached("b").is_none());
    assert!(cache.get_cached("c").is_some());
    assert_eq!(
        cache.stats(),
        CacheStats { size: 2, hits: 3, misses: 3, evictions: 1, total_wasm_bytes: 2 * wasm.len() as u64 }
    );
}

#[test]
fn entries_expire_once_older_than_the_time_to_live() {
    let engine = make_engine();
    let mut cache = CompiledModuleCache::new_with_ttl(Arc::clone(&engine), 2, 1_000);
    let wasm = wat::parse_str(ECHO_WAT).expect("bad WAT");
    let module = Arc::new(engine.compile(&wasm).expect("compiles"));
    cache.insert("a", Arc::clone(&module), 40);
    assert!(cache.get_cached_at_age("a", 1_000).is_some());
    assert!(cache.get_cached_at_age("a", 1_001).is_none());
    assert!(cache.get_cached_at_age("a", 0).is_none());
    assert_eq!(cache.stats(), CacheStats { size: 0, hits: 1, misses: 0, evictions: 1, total_wasm_bytes: 0 });
    assert!(cache.look_up_at_age("a", 0).is_none());
    assert_eq!(cache.stats().misses, 1);
}

#[test]
fn total_bytes_follow_replacement_and_invalidation() {
    let engine = make_engine();
    let mut cache = CompiledModuleCache::new(Arc::clone(&engine), 2, 60);
    let wasm = wat::parse_str(ECHO_WAT).expect("bad WAT");
    let module = Arc::new(engine.compile(&wasm).expect("compiles"));
    cache.insert_at("a", Arc::clone(&module), 40, Instant::now());
    cache.insert_at("b", Arc::clone(&module), 2, Instant::now());
    cache.insert_at("a", Arc::clone(&module), 50, Instant::now());
    assert_eq!(cache.stats(), CacheStats { size: 2, hits: 0, misses: 0, evictions: 0, total_wasm_bytes: 52 });
    cache.invalidate("a");
    cache.invalidate("absent");
    assert_eq!(cache.stats(), CacheStats { size: 1, hits: 0, misses: 0, evictions: 0, total_wasm_bytes: 2 });
    assert!(cache.get_cached("a").is_none());
    assert!(cache.get_cached("b").is_some());
}

#[test]
fn a_cache_of_size_zero_holds_one_module() {
    let engine = make_engine();
    let mut cache = CompiledModuleCache::new(Arc::clone(&engine), 0, 60);
    let wasm = wat::parse_str(ECHO_WAT).expect("bad WAT");
    cache.get_or_compile("a", &wasm).expect("a");
    cache.get_or_compile("b", &wasm).expect("b");
    assert_eq!(cache.stats().size, 1);
    assert!(cache.look_up("b").is_some());
    assert!(cache.look_up("a").is_none());
}

#[test]
fn what_does_not_compile_is_not_cached() {
    let mut cache = CompiledModuleCache::new(make_engine(), 2, 60);
    let err = cache.get_or_compile("bad", b"\0asm").expect_err("not a module");
    assert!(matches!(err, WasmError::CompilationFailed(_)), "got: {err:?}");
    assert_eq!(cache.stats(), CacheStats { size: 0, hits: 0, misses: 1, evictions: 0, total_wasm_bytes: 0 });
    assert_eq!(CacheStats::default().size, 0);
}
