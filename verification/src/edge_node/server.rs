//! The node's service.

pub mod grpc;
