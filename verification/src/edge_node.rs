//! The edge node: it runs tasks that the control plane sends.

pub mod config;
pub mod downloader;
pub mod metrics;
pub mod registration;
pub mod server;
pub mod state;
