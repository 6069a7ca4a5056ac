use vstd::prelude::*;
use vstd::string::StringExecFns;

use crate::settings::{number_or, number_setting, setting, text_or};
use crate::text::{decimal, decimal_text};

verus! {

/// Settings of the control plane.
#[derive(Debug)]
pub struct Config {
    pub http_port: u16,
    /// Prometheus metrics server port (default: 9090).
    pub metrics_port: u16,
    pub rust_log: String,
    pub scheduling_strategy: String,
    /// Public base URL of this control plane, used to construct the URLs from
    /// which edge nodes fetch modules.
    /// Env: `SELF_URL` (default: `http://127.0.0.1:{http_port}`)
    pub self_url: String,
}

impl Clone for Config {
    fn clone(&self) -> (r: Self)
        ensures
            r == *self,
    {
        Config {
            http_port: self.http_port,
            metrics_port: self.metrics_port,
            rust_log: self.rust_log.clone(),
            scheduling_strategy: self.scheduling_strategy.clone(),
            self_url: self.self_url.clone(),
        }
    }
}

/// The environment variables that the settings come from.
#[derive(Debug)]
pub struct Environment {
    /// `HTTP_PORT`
    pub http_port: Option<String>,
    /// `METRICS_PORT`
    pub metrics_port: Option<String>,
    /// `SELF_URL`
    pub self_url: Option<String>,
    /// `RUST_LOG`
    pub rust_log: Option<String>,
    /// `SCHEDULING_STRATEGY`
    pub scheduling_strategy: Option<String>,
}

impl Config {
    /// The settings that the environment asks for, or the message that says
    /// which variable is wrong.
    pub fn from_environment(env: Environment) -> (r: Result<Config, String>)
        ensures
            ({
                let http_port = number_setting(env.http_port, 8080, u16::MAX as nat);
                let metrics_port = number_setting(env.metrics_port, 9090, u16::MAX as nat);
                match r {
                    Ok(config) => {
                        &&& http_port == Some(config.http_port as nat)
                        &&& metrics_port == Some(config.metrics_port as nat)
                        &&& config.rust_log@ == setting(env.rust_log, "info"@)
                        &&& config.scheduling_strategy@ == setting(env.scheduling_strategy, "round_robin"@)
                        &&& config.self_url@ == setting(
                            env.self_url,
                            "http://127.0.0.1:"@ + decimal_text(config.http_port as nat),
                        )
                    },
                    Err(message) => if http_port is None {
                        message@ == "HTTP_PORT must be a valid port number"@
                    } else {
                        metrics_port is None && message@ == "METRICS_PORT must be a valid port number"@
                    },
                }
            }),
    {
        let http_port: u64 = match number_or(&env.http_port, 8080, 65_535) {
            Some(port) => port,
            None => {
                return Err("HTTP_PORT must be a valid port number".to_string());
            },
        };
        let metrics_port: u64 = match number_or(&env.metrics_port, 9090, 65_535) {
            Some(port) => port,
            None => {
                return Err("METRICS_PORT must be a valid port number".to_string());
            },
        };
        let default_url = "http://127.0.0.1:".to_string().concat(decimal(http_port).as_str());
        Ok(
            Config {
                http_port: http_port as u16,
                metrics_port: metrics_port as u16,
                rust_log: text_or(env.rust_log, "info"),
                scheduling_strategy: text_or(env.scheduling_strategy, "round_robin"),
                self_url: text_or(env.self_url, default_url.as_str()),
            },
        )
    }
}

} // verus!
