//! Sandboxed execution of WASM modules.

pub mod cache;
pub mod engine;
pub mod guest;
pub mod sandbox;

pub use cache::{CacheStats, CachedModule, CompiledModuleCache};
pub use engine::WasmEngine;
pub use sandbox::{execute_wasm, ExecutionConfig, ExecutionResult, WasmError, WasmSandbox};
