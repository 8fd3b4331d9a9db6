//! The closed set of failure kinds, each with a retryability flag.

use vstd::prelude::*;

verus! {

/// Every failure the library reports falls into one of these kinds.
/// A non-zero guest exit code is a result, never an error.
#[derive(Debug, Clone)]
pub enum BashletError {
    /// Invalid or missing configuration.
    Config(String),
    /// A platform prerequisite for the named backend is missing.
    BackendNotAvailable { backend: String, reason: String },
    /// The backend failed to become ready.
    SandboxInit(String),
    /// A subprocess or guest operation failed.
    SandboxExecution(String),
    /// The time budget was exceeded.
    SandboxTimeout { seconds: u64 },
    /// A host path referenced by a mount does not exist.
    MountPathNotFound { path: String },
    /// The WASM package is missing.
    WasmNotFound { path: String },
    /// The hypervisor REST API answered outside the 2xx range.
    FirecrackerApi { message: String, status: Option<u16> },
    /// The VM did not become ready within the attempt budget.
    VMBootFailed(String),
    /// The host-to-guest transport failed.
    VMCommunication(String),
    /// An asset could not be fetched.
    AssetDownload { url: String },
    /// Session lookup miss.
    SessionNotFound { id: String },
    /// The session's TTL has elapsed.
    SessionExpired { id: String },
    /// A non-expired session already carries this name.
    SessionNameExists { name: String },
    /// Host input/output failure.
    Io(String),
    /// JSON encoding or decoding failure.
    Json(String),
    /// TOML parse failure.
    TomlParse(String),
}

impl BashletError {
    /// Which kinds a caller may sensibly retry.
    pub open spec fn retryable_spec(&self) -> bool {
        match self {
            BashletError::SandboxTimeout { .. } => true,
            BashletError::VMCommunication(..) => true,
            BashletError::AssetDownload { .. } => true,
            _ => false,
        }
    }

    /// A timeout, a transport failure and a failed download may be
    /// retried; every other kind is deterministic and is not.
    pub fn is_retryable(&self) -> (r: bool)
        ensures
            r == self.retryable_spec(),
    {
        match self {
            BashletError::SandboxTimeout { .. } => true,
            BashletError::VMCommunication(..) => true,
            BashletError::AssetDownload { .. } => true,
            _ => false,
        }
    }
}

} // verus!
