//! Types shared by the control plane and the edge nodes.

pub mod errors;
pub mod module;
pub mod types;

pub use errors::EdgeError;
pub use module::{ModuleMetadata, RegistryError};
pub use types::{NodeInfo, Task, TaskResult};
