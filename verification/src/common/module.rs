use vstd::prelude::*;
use vstd::string::StringExecFns;

use crate::clock::Timestamp;

verus! {

/// Metadata of a stored WASM module.
#[derive(Debug)]
pub struct ModuleMetadata {
    /// Unique id: UUID v4
    pub id: String,
    /// Human-readable module name (e.g. "image-processor")
    pub name: String,
    /// Semantic version string (e.g. "1.0.0")
    pub version: String,
    /// Size of raw wasm bytes
    pub size_bytes: usize,
    /// Wall-clock time the module was registered
    pub created_at: Timestamp,
    /// SHA-256 hex digest of the raw wasm bytes
    pub hash: String,
}

impl Clone for ModuleMetadata {
    fn clone(&self) -> (r: Self)
        ensures
            r == *self,
    {
        ModuleMetadata {
            id: self.id.clone(),
            name: self.name.clone(),
            version: self.version.clone(),
            size_bytes: self.size_bytes,
            created_at: self.created_at,
            hash: self.hash.clone(),
        }
    }
}

/// Why the module registry refused a request.
#[derive(Debug)]
pub enum RegistryError {
    AlreadyExists(String, String),
    NotFound(String, String),
    InvalidWasm(String),
}

impl RegistryError {
    /// The message shown for this error.
    pub open spec fn text(&self) -> Seq<char> {
        match self {
            RegistryError::AlreadyExists(name, version) => {
                "module '"@ + name@ + "' version '"@ + version@ + "' already exists"@
            },
            RegistryError::NotFound(name, version) => {
                "module '"@ + name@ + "' version '"@ + version@ + "' not found"@
            },
            RegistryError::InvalidWasm(what) => "invalid wasm bytes: "@ + what@,
        }
    }

    /// The message shown for this error.
    pub fn message(&self) -> (s: String)
        ensures
            s@ == self.text(),
    {
        match self {
            RegistryError::AlreadyExists(name, version) => {
                "module '".to_string().concat(name.as_str()).concat("' version '").concat(
                    version.as_str(),
                ).concat("' already exists")
            },
            RegistryError::NotFound(name, version) => {
                "module '".to_string().concat(name.as_str()).concat("' version '").concat(
                    version.as_str(),
                ).concat("' not found")
            },
            RegistryError::InvalidWasm(what) => "invalid wasm bytes: ".to_string().concat(what.as_str()),
        }
    }
}

/// The message of a refusal names the module and the version that it is about.
pub proof fn law_refusal_names_the_module(name: String, version: String)
    ensures
        RegistryError::AlreadyExists(name, version).text() == "module '"@ + name@ + "' version '"@ + version@
            + "' already exists"@,
        RegistryError::NotFound(name, version).text() == "module '"@ + name@ + "' version '"@ + version@ + "' not found"@,
        RegistryError::InvalidWasm(name).text() == "invalid wasm bytes: "@ + name@,
{
}

} // verus!
