//! Verified core of an edge-computing platform: a control plane that places
//! WebAssembly tasks on edge nodes, and the edge nodes that run them.

pub mod clock;
pub mod codec;
pub mod common;
pub mod control_plane;
pub mod edge_node;
pub mod ids;
pub mod load_tester;
pub mod proto;
pub mod settings;
pub mod table;
pub mod telemetry;
pub mod text;
pub mod wasm_runtime;
