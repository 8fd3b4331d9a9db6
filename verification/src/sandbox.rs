//! Core sandbox value types shared by every backend.

use vstd::prelude::*;

use crate::error::BashletError;

verus! {

/// The outcome of one guest command. A non-zero exit code is a
/// result, not an error; `-1` means the code could not be
/// determined (for instance, the process died on a signal).
#[derive(Debug)]
pub struct CommandResult {
    pub stdout: String,
    pub stderr: String,
    pub exit_code: i32,
}

/// What a backend supports. Callers inspect these flags but never
/// set them; each backend dictates its own.
#[derive(Debug, Clone, Default)]
pub struct BackendCapabilities {
    /// Full native Linux environment, not a WASM emulation.
    pub native_linux: bool,
    /// Network access inside the sandbox.
    pub networking: bool,
    /// Filesystem state that persists across commands.
    pub persistent_fs: bool,
}

/// Descriptive information about a running sandbox instance; never
/// persisted.
#[derive(Debug, Clone)]
pub struct SandboxInfo {
    /// Backend type identifier.
    pub backend_type: String,
    /// Instance identifier (VM id, container id, remote destination).
    pub instance_id: Option<String>,
    /// Whether the sandbox is currently running.
    pub running: bool,
    /// Backend-specific key/value pairs.
    pub metadata: Vec<(String, String)>,
}

/// The views of an argument vector.
pub open spec fn strs_view(v: Seq<String>) -> Seq<Seq<char>> {
    v.map_values(|s: String| s@)
}

/// The first index whose flag is false, or `-1` when all are true.
pub open spec fn first_missing(exists: Seq<bool>, i: int) -> int
    decreases exists.len() - i,
{
    if 0 <= i && i < exists.len() {
        if !exists[i] {
            i
        } else {
            first_missing(exists, i + 1)
        }
    } else {
        -1
    }
}

/// Checks that every mount's host path was seen to exist. The
/// caller probes the filesystem and hands the outcomes in, one flag
/// per mount; the first missing path decides the error.
pub fn check_mounts(mounts: &Vec<crate::args::Mount>, mounts_exist: &Vec<bool>) -> (r: Result<
    (),
    BashletError,
>)
    requires
        mounts_exist@.len() == mounts@.len(),
    ensures
        match r {
            Ok(_) => first_missing(mounts_exist@, 0) == -1,
            Err(e) => ({
                let k = first_missing(mounts_exist@, 0);
                &&& k >= 0
                &&& (e matches BashletError::MountPathNotFound { path } && path@
                    == mounts@[k].host_path@)
            }),
        },
{
    let mut k: usize = 0;
    while k < mounts_exist.len()
        invariant
            k <= mounts_exist@.len(),
            mounts_exist@.len() == mounts@.len(),
            first_missing(mounts_exist@, 0) == first_missing(mounts_exist@, k as int),
        decreases mounts_exist@.len() - k,
    {
        if !mounts_exist[k] {
            assert(first_missing(mounts_exist@, k as int) == k);
            return Err(
                BashletError::MountPathNotFound { path: mounts[k].host_path.clone() },
            );
        }
        k += 1;
    }
    Ok(())
}

/// The command every health probe runs inside the guest.
pub fn health_command() -> (r: &'static str)
    ensures
        r@ == "echo ok"@,
{
    "echo ok"
}

/// The exit code a finished process reports: the code itself when
/// there is one, and `-1` when none could be determined (for
/// instance, the process died on a signal).
pub fn exit_code_or_unknown(code: Option<i32>) -> (r: i32)
    ensures
        match code {
            Some(c) => r == c,
            None => r == -1,
        },
{
    match code {
        Some(c) => c,
        None => -1,
    }
}

/// A backend is healthy exactly when the probe command exited with
/// code zero.
pub fn health_check_passed(result: &CommandResult) -> (r: bool)
    ensures
        r == (result.exit_code == 0),
{
    result.exit_code == 0
}

} // verus!
