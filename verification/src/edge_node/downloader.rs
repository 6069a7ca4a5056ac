//! Fetching WASM modules from the control plane.

use vstd::prelude::*;
use vstd::string::StringExecFns;

use crate::codec::{hex_encode, hex_text, sha256_digest, sha256_text};
use crate::text::same_text;

verus! {

/// Knows where modules are fetched from.
pub struct ModuleDownloader {
    pub control_plane_url: String,
}

/// The URL of a module's bytes.
pub open spec fn url_of(base: Seq<char>, name: Seq<char>, version: Seq<char>) -> Seq<char> {
    base + "/modules/"@ + name + "/"@ + version
}

/// The URL of a module's bytes.
pub fn module_url(base: &str, name: &str, version: &str) -> (url: String)
    ensures
        url@ == url_of(base@, name@, version@),
{
    base.to_string().concat("/modules/").concat(name).concat("/").concat(version)
}

/// The message for a download that the control plane refused.
pub open spec fn refused_text(status: Seq<char>, name: Seq<char>, version: Seq<char>) -> Seq<char> {
    "control-plane returned "@ + status + " for module "@ + name + ":"@ + version
}

impl ModuleDownloader {
    pub fn new(control_plane_url: &str) -> (downloader: Self)
        ensures
            downloader.control_plane_url@ == control_plane_url@,
    {
        ModuleDownloader { control_plane_url: control_plane_url.to_string() }
    }

    /// Where the bytes of a module are fetched:
    /// `{control_plane_url}/modules/{name}/{version}`.
    pub fn download_url(&self, name: &str, version: &str) -> (url: String)
        ensures
            url@ == url_of(self.control_plane_url@, name@, version@),
    {
        module_url(self.control_plane_url.as_str(), name, version)
    }

    /// The outcome of a download, from the control plane's answer: its body if
    /// its status is one of success.
    pub fn accept_response(name: &str, version: &str, success: bool, status: &str, body: Vec<u8>) -> (r: Result<Vec<u8>, String>)
        ensures
            match r {
                Ok(bytes) => success && bytes == body,
                Err(message) => !success && message@ == refused_text(status@, name@, version@),
            },
    {
        if success {
            Ok(body)
        } else {
            Err(
                "control-plane returned ".to_string().concat(status).concat(" for module ").concat(name).concat(
                    ":",
                ).concat(version),
            )
        }
    }

    /// Verify that the SHA-256 hex digest of `bytes` matches `expected_hash`.
    pub fn verify_hash(bytes: &[u8], expected_hash: &str) -> (intact: bool)
        ensures
            intact == (sha256_text(bytes@) == expected_hash@),
    {
        let digest = sha256_digest(bytes);
        Self::verify_digest(digest.as_slice(), expected_hash)
    }

    /// Verify that a digest is `expected_hash` in hexadecimal.
    pub fn verify_digest(digest: &[u8], expected_hash: &str) -> (same: bool)
        requires
            digest@.len() <= usize::MAX / 4,
        ensures
            same == (hex_text(digest@) == expected_hash@),
    {
        let actual = hex_encode(digest);
        same_text(actual.as_str(), expected_hash)
    }
}

/// The URL of a module's bytes begins with the base and ends with the name and the version;
/// the message for a refused download tells the status, the name and the version.
pub proof fn law_url_names_the_module(base: Seq<char>, name: Seq<char>, version: Seq<char>)
    ensures
        url_of(base, name, version) == base + "/modules/"@ + name + "/"@ + version,
        refused_text(base, name, version) == "control-plane returned "@ + base + " for module "@ + name + ":"@ + version,
{
}

} // verus!
