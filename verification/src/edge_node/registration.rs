//! What an edge node tells the control plane about itself.

use vstd::prelude::*;
use vstd::string::StringExecFns;

use crate::text::{decimal, decimal_text};

verus! {

/// Where a node registers.
pub fn registration_url(control_plane_url: &str) -> (url: String)
    ensures
        url@ == control_plane_url@ + "/nodes/register"@,
{
    control_plane_url.to_string().concat("/nodes/register")
}

/// The address of one of the node's own ports: `http://{host}:{port}`.
pub fn own_address(host: &str, port: u16) -> (address: String)
    ensures
        address@ == "http://"@ + host@ + ":"@ + decimal_text(port as nat),
{
    "http://".to_string().concat(host).concat(":").concat(decimal(port as u64).as_str())
}

/// The name under which others reach this machine, by default the local
/// address.
pub fn local_hostname(setting: Option<String>) -> (host: String)
    ensures
        match setting {
            Some(name) => host == name,
            None => host@ == "127.0.0.1"@,
        },
{
    match setting {
        Some(name) => name,
        None => "127.0.0.1".to_string(),
    }
}

} // verus!
