use vstd::prelude::*;

use crate::settings::{number_or, number_setting, setting, text_or};
use crate::text::number_of;

verus! {

/// Settings of an edge node.
#[derive(Debug)]
pub struct Config {
    pub node_id: String,
    pub grpc_port: u16,
    pub control_plane_url: String,
    pub rust_log: String,
    pub max_concurrent_tasks: usize,
    /// Port for the metrics HTTP server (default: 9090).
    pub metrics_port: u16,
    /// Maximum number of compiled modules to keep in the LRU cache.
    pub cache_max_size: usize,
    /// Time to live of cache entries in seconds (default: 300 = 5 min).
    pub cache_ttl_secs: u64,
}

impl Clone for Config {
    fn clone(&self) -> (r: Self)
        ensures
            r == *self,
    {
        Config {
            node_id: self.node_id.clone(),
            grpc_port: self.grpc_port,
            control_plane_url: self.control_plane_url.clone(),
            rust_log: self.rust_log.clone(),
            max_concurrent_tasks: self.max_concurrent_tasks,
            metrics_port: self.metrics_port,
            cache_max_size: self.cache_max_size,
            cache_ttl_secs: self.cache_ttl_secs,
        }
    }
}

/// The environment variables that the settings come from.
#[derive(Debug)]
pub struct Environment {
    /// `NODE_ID`
    pub node_id: Option<String>,
    /// `GRPC_PORT`
    pub grpc_port: Option<String>,
    /// `CONTROL_PLANE_URL`
    pub control_plane_url: Option<String>,
    /// `RUST_LOG`
    pub rust_log: Option<String>,
    /// `MAX_TASKS`
    pub max_tasks: Option<String>,
    /// `METRICS_PORT`
    pub metrics_port: Option<String>,
    /// `CACHE_MAX_SIZE`
    pub cache_max_size: Option<String>,
    /// `CACHE_TTL_SECS`
    pub cache_ttl_secs: Option<String>,
}

/// The message for the first variable that is missing or wrong, in the order in
/// which they are read.
pub open spec fn first_problem(env: Environment) -> Option<Seq<char>> {
    if env.node_id is None {
        Some("NODE_ID must be set"@)
    } else if number_setting(env.grpc_port, 50051, u16::MAX as nat) is None {
        Some("GRPC_PORT must be a valid port number"@)
    } else if env.control_plane_url is None {
        Some("CONTROL_PLANE_URL must be set"@)
    } else if number_setting(env.max_tasks, 10, usize::MAX as nat) is None {
        Some("MAX_TASKS must be a valid integer"@)
    } else if number_setting(env.metrics_port, 9090, u16::MAX as nat) is None {
        Some("METRICS_PORT must be a valid port number"@)
    } else if number_setting(env.cache_max_size, 50, usize::MAX as nat) is None {
        Some("CACHE_MAX_SIZE must be a valid integer"@)
    } else if number_setting(env.cache_ttl_secs, 300, u64::MAX as nat) is None {
        Some("CACHE_TTL_SECS must be a valid integer"@)
    } else {
        None
    }
}

impl Config {
    /// The settings that the environment asks for, or the message that says
    /// which variable is missing or wrong.
    pub fn from_environment(env: Environment) -> (r: Result<Config, String>)
        ensures
            match r {
                Ok(config) => {
                    &&& first_problem(env) is None
                    &&& config.node_id == env.node_id->0
                    &&& number_setting(env.grpc_port, 50051, u16::MAX as nat) == Some(config.grpc_port as nat)
                    &&& config.control_plane_url == env.control_plane_url->0
                    &&& config.rust_log@ == setting(env.rust_log, "info"@)
                    &&& number_setting(env.max_tasks, 10, usize::MAX as nat) == Some(config.max_concurrent_tasks as nat)
                    &&& number_setting(env.metrics_port, 9090, u16::MAX as nat) == Some(config.metrics_port as nat)
                    &&& number_setting(env.cache_max_size, 50, usize::MAX as nat) == Some(config.cache_max_size as nat)
                    &&& number_setting(env.cache_ttl_secs, 300, u64::MAX as nat) == Some(config.cache_ttl_secs as nat)
                },
                Err(message) => first_problem(env) == Some(message@),
            },
            r is Ok && env.grpc_port is None ==> r->Ok_0.grpc_port == 50051,
            r is Ok && env.max_tasks is None ==> r->Ok_0.max_concurrent_tasks == 10,
            r is Ok && env.metrics_port is None ==> r->Ok_0.metrics_port == 9090,
            r is Ok && env.cache_max_size is None ==> r->Ok_0.cache_max_size == 50,
            r is Ok && env.cache_ttl_secs is None ==> r->Ok_0.cache_ttl_secs == 300,
            r is Ok && env.rust_log is None ==> r->Ok_0.rust_log@ == "info"@,
    {
        let node_id = match env.node_id {
            Some(id) => id,
            None => {
                return Err("NODE_ID must be set".to_string());
            },
        };
        let grpc_port: u64 = match number_or(&env.grpc_port, 50051, 65_535) {
            Some(port) => port,
            None => {
                return Err("GRPC_PORT must be a valid port number".to_string());
            },
        };
        let control_plane_url = match env.control_plane_url {
            Some(url) => url,
            None => {
                return Err("CONTROL_PLANE_URL must be set".to_string());
            },
        };
        let max_tasks: u64 = match number_or(&env.max_tasks, 10, usize::MAX as u64) {
            Some(n) => n,
            None => {
                return Err("MAX_TASKS must be a valid integer".to_string());
            },
        };
        let metrics_port: u64 = match number_or(&env.metrics_port, 9090, 65_535) {
            Some(port) => port,
            None => {
                return Err("METRICS_PORT must be a valid port number".to_string());
            },
        };
        let cache_max_size: u64 = match number_or(&env.cache_max_size, 50, usize::MAX as u64) {
            Some(n) => n,
            None => {
                return Err("CACHE_MAX_SIZE must be a valid integer".to_string());
            },
        };
        let cache_ttl_secs: u64 = match number_or(&env.cache_ttl_secs, 300, u64::MAX) {
            Some(secs) => secs,
            None => {
                return Err("CACHE_TTL_SECS must be a valid integer".to_string());
            },
        };
        Ok(
            Config {
                node_id,
                grpc_port: grpc_port as u16,
                control_plane_url,
                rust_log: text_or(env.rust_log, "info"),
                max_concurrent_tasks: max_tasks as usize,
                metrics_port: metrics_port as u16,
                cache_max_size: cache_max_size as usize,
                cache_ttl_secs,
            },
        )
    }
}

/// An environment has no problem exactly if the node's id and the control plane's address
/// are set and each number that is set denotes one within its range.
pub proof fn law_environment_without_problem(env: Environment)
    ensures
        first_problem(env) is None <==> {
            &&& env.node_id is Some
            &&& env.control_plane_url is Some
            &&& env.grpc_port is Some ==> number_of(env.grpc_port->0@) is Some && number_of(env.grpc_port->0@)->0 <= 65_535
            &&& env.metrics_port is Some ==> number_of(env.metrics_port->0@) is Some && number_of(env.metrics_port->0@)->0
                <= 65_535
            &&& env.max_tasks is Some ==> number_of(env.max_tasks->0@) is Some && number_of(env.max_tasks->0@)->0
                <= usize::MAX
            &&& env.cache_max_size is Some ==> number_of(env.cache_max_size->0@) is Some && number_of(
                env.cache_max_size->0@,
            )->0 <= usize::MAX
            &&& env.cache_ttl_secs is Some ==> number_of(env.cache_ttl_secs->0@) is Some && number_of(
                env.cache_ttl_secs->0@,
            )->0 <= u64::MAX
        },
        env.node_id is None ==> first_problem(env) == Some("NODE_ID must be set"@),
        env.node_id is Some && env.grpc_port is None && env.control_plane_url is None ==> first_problem(env) == Some(
            "CONTROL_PLANE_URL must be set"@,
        ),
{
}

} // verus!
