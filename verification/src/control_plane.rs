//! The control plane: it keeps track of edge nodes and WASM modules and places
//! tasks on nodes.

pub mod api;
pub mod circuit_breaker;
pub mod config;
pub mod connection_pool;
pub mod health;
pub mod registry;
pub mod scheduler;
pub mod state;
