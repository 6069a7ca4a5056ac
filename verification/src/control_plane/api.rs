//! The control plane's API.

pub mod dispatch;
pub mod handlers;
pub mod routes;
