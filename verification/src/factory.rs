//! Backend selection: resolving `auto` against what the host offers,
//! and the diagnostic listing of every backend.

use vstd::prelude::*;
use vstd::string::StringExecFns;

use crate::args::Mount;
use crate::config::BackendType;
use crate::error::BashletError;

verus! {

/// Runtime parameters a backend is constructed with, joined from
/// configuration and the command line.
#[derive(Debug)]
pub struct RuntimeConfig {
    pub mounts: Vec<Mount>,
    pub env_vars: Vec<(String, String)>,
    pub workdir: String,
    pub memory_limit_mb: u64,
    pub timeout_seconds: u64,
}

/// One row of the backend listing.
#[derive(Debug)]
pub struct BackendInfo {
    pub name: &'static str,
    pub available: bool,
    pub description: &'static str,
    pub unavailable_reason: Option<&'static str>,
}

/// The backend `auto` resolves to: the first available in the order
/// microVM, container, WASM.
pub open spec fn auto_choice(
    firecracker_available: bool,
    docker_available: bool,
    wasmer_available: bool,
) -> Option<BackendType> {
    if firecracker_available {
        Some(BackendType::Firecracker)
    } else if docker_available {
        Some(BackendType::Docker)
    } else if wasmer_available {
        Some(BackendType::Wasmer)
    } else {
        None
    }
}

/// Resolves the requested backend kind against the host's
/// availability probes: `auto` takes the first available backend, an
/// explicit microVM or container choice must be available, and the
/// WASM and remote kinds pass through.
pub fn resolve_backend_type(
    requested: &BackendType,
    firecracker_available: bool,
    docker_available: bool,
    wasmer_available: bool,
) -> (r: Result<BackendType, BashletError>)
    ensures
        match requested {
            BackendType::Auto => match auto_choice(
                firecracker_available,
                docker_available,
                wasmer_available,
            ) {
                Some(b) => r == Ok::<BackendType, BashletError>(b),
                None => (r matches Err(BashletError::BackendNotAvailable { backend, .. })
                    && backend@ == "auto"@),
            },
            BackendType::Firecracker => if firecracker_available {
                r == Ok::<BackendType, BashletError>(BackendType::Firecracker)
            } else {
                (r matches Err(BashletError::BackendNotAvailable { backend, .. }) && backend@
                    == "firecracker"@)
            },
            BackendType::Docker => if docker_available {
                r == Ok::<BackendType, BashletError>(BackendType::Docker)
            } else {
                (r matches Err(BashletError::BackendNotAvailable { backend, .. }) && backend@
                    == "docker"@)
            },
            BackendType::Wasmer => r == Ok::<BackendType, BashletError>(BackendType::Wasmer),
            BackendType::Ssh => r == Ok::<BackendType, BashletError>(BackendType::Ssh),
        },
{
    match requested {
        BackendType::Auto => {
            if firecracker_available {
                Ok(BackendType::Firecracker)
            } else if docker_available {
                Ok(BackendType::Docker)
            } else if wasmer_available {
                Ok(BackendType::Wasmer)
            } else {
                Err(
                    BashletError::BackendNotAvailable {
                        backend: String::from_str("auto"),
                        reason: String::from_str("No sandbox backends available"),
                    },
                )
            }
        },
        BackendType::Firecracker => {
            if firecracker_available {
                Ok(BackendType::Firecracker)
            } else {
                Err(
                    BashletError::BackendNotAvailable {
                        backend: String::from_str("firecracker"),
                        reason: String::from_str(
                            "Firecracker requires Linux with KVM support (/dev/kvm)",
                        ),
                    },
                )
            }
        },
        BackendType::Docker => {
            if docker_available {
                Ok(BackendType::Docker)
            } else {
                Err(
                    BashletError::BackendNotAvailable {
                        backend: String::from_str("docker"),
                        reason: String::from_str(
                            "Docker daemon is not accessible. Ensure Docker is installed and running.",
                        ),
                    },
                )
            }
        },
        BackendType::Wasmer => Ok(BackendType::Wasmer),
        BackendType::Ssh => Ok(BackendType::Ssh),
    }
}

/// The diagnostic listing: one row per backend, with availability
/// and, when missing, the reason.
pub fn available_backends(
    firecracker_available: bool,
    docker_available: bool,
    wasmer_available: bool,
) -> (r: Vec<BackendInfo>)
    ensures
        r@.len() == 3,
        r@[0].name@ == "wasmer"@ && r@[0].available == wasmer_available && (wasmer_available
            ==> r@[0].unavailable_reason is None) && (!wasmer_available
            ==> r@[0].unavailable_reason is Some),
        r@[1].name@ == "firecracker"@ && r@[1].available == firecracker_available && (
        firecracker_available ==> r@[1].unavailable_reason is None) && (!firecracker_available
            ==> r@[1].unavailable_reason is Some),
        r@[2].name@ == "docker"@ && r@[2].available == docker_available && (docker_available
            ==> r@[2].unavailable_reason is None) && (!docker_available
            ==> r@[2].unavailable_reason is Some),
{
    let mut backends: Vec<BackendInfo> = Vec::new();
    backends.push(
        BackendInfo {
            name: "wasmer",
            available: wasmer_available,
            description: "WebAssembly sandbox (cross-platform)",
            unavailable_reason: if wasmer_available {
                None
            } else {
                Some("Wasmer CLI not installed")
            },
        },
    );
    backends.push(
        BackendInfo {
            name: "firecracker",
            available: firecracker_available,
            description: "MicroVM sandbox (Linux with KVM only)",
            unavailable_reason: if firecracker_available {
                None
            } else {
                Some("Requires Linux with KVM (/dev/kvm)")
            },
        },
    );
    backends.push(
        BackendInfo {
            name: "docker",
            available: docker_available,
            description: "Docker container sandbox",
            unavailable_reason: if docker_available {
                None
            } else {
                Some("Docker daemon not accessible")
            },
        },
    );
    backends
}

} // verus!
