//! The WASM backend: every command is one invocation of the WASM
//! runtime CLI against a shell package, with directory mappings for
//! the mounts.

use vstd::prelude::*;
use vstd::string::StringExecFns;

use crate::args::Mount;
use crate::error::BashletError;
use crate::sandbox::{check_mounts, first_missing, strs_view, BackendCapabilities, SandboxInfo};
use crate::strconv::{chars_to_string, push_str_chars};

verus! {

/// The `guest:host` form of one directory mapping.
pub open spec fn mapdir_arg(m: crate::args::MountV) -> Seq<char> {
    m.guest_path + ":"@ + m.host_path
}

/// The `--mapdir` pairs for a mount list.
pub open spec fn mapdir_args(ms: Seq<crate::args::MountV>) -> Seq<Seq<char>>
    decreases ms.len(),
{
    if ms.len() == 0 {
        Seq::empty()
    } else {
        seq!["--mapdir"@, mapdir_arg(ms[0])] + mapdir_args(ms.subrange(1, ms.len() as int))
    }
}

/// The `--env` pairs for an environment list.
pub open spec fn wasm_env_args(es: Seq<(Seq<char>, Seq<char>)>) -> Seq<Seq<char>>
    decreases es.len(),
{
    if es.len() == 0 {
        Seq::empty()
    } else {
        seq!["--env"@, es[0].0 + "="@ + es[0].1] + wasm_env_args(es.subrange(1, es.len() as int))
    }
}

/// One invocation of the runtime: `run`, the mappings, the
/// environment, the package, and the command handed to the
/// in-package shell.
pub open spec fn wasm_run_args_spec(
    mounts: Seq<crate::args::MountV>,
    envs: Seq<(Seq<char>, Seq<char>)>,
    webc_path: Seq<char>,
    command: Seq<char>,
) -> Seq<Seq<char>> {
    seq!["run"@] + mapdir_args(mounts) + wasm_env_args(envs) + seq![
        webc_path,
        "--"@,
        "-c"@,
        command,
    ]
}

proof fn lemma_mapdir_args_snoc(ms: Seq<crate::args::MountV>, m: crate::args::MountV)
    ensures
        mapdir_args(ms.push(m)) == mapdir_args(ms) + seq!["--mapdir"@, mapdir_arg(m)],
    decreases ms.len(),
{
    let one = seq!["--mapdir"@, mapdir_arg(m)];
    if ms.len() == 0 {
        assert(ms.push(m)[0] == m);
        assert(ms.push(m).subrange(1, 1) =~= Seq::<crate::args::MountV>::empty());
        assert(mapdir_args(ms.push(m)) == one + mapdir_args(Seq::<crate::args::MountV>::empty()));
        assert(one + Seq::<Seq<char>>::empty() =~= one);
        assert(mapdir_args(ms) + one =~= one);
    } else {
        let tail = ms.subrange(1, ms.len() as int);
        assert(ms.push(m).subrange(1, ms.len() + 1 as int) =~= tail.push(m));
        lemma_mapdir_args_snoc(tail, m);
        assert(ms.push(m)[0] == ms[0]);
        let head = seq!["--mapdir"@, mapdir_arg(ms[0])];
        assert(mapdir_args(ms.push(m)) == head + (mapdir_args(tail) + one));
        assert(mapdir_args(ms) + one == (head + mapdir_args(tail)) + one);
        assert(head + (mapdir_args(tail) + one) =~= (head + mapdir_args(tail)) + one);
    }
}

proof fn lemma_wasm_env_args_snoc(es: Seq<(Seq<char>, Seq<char>)>, e: (Seq<char>, Seq<char>))
    ensures
        wasm_env_args(es.push(e)) == wasm_env_args(es) + seq!["--env"@, e.0 + "="@ + e.1],
    decreases es.len(),
{
    let one = seq!["--env"@, e.0 + "="@ + e.1];
    if es.len() == 0 {
        assert(es.push(e)[0] == e);
        assert(es.push(e).subrange(1, 1) =~= Seq::<(Seq<char>, Seq<char>)>::empty());
        assert(wasm_env_args(es.push(e)) == one + wasm_env_args(
            Seq::<(Seq<char>, Seq<char>)>::empty(),
        ));
        assert(one + Seq::<Seq<char>>::empty() =~= one);
        assert(wasm_env_args(es) + one =~= one);
    } else {
        let tail = es.subrange(1, es.len() as int);
        assert(es.push(e).subrange(1, es.len() + 1 as int) =~= tail.push(e));
        lemma_wasm_env_args_snoc(tail, e);
        assert(es.push(e)[0] == es[0]);
        let head = seq!["--env"@, es[0].0 + "="@ + es[0].1];
        assert(wasm_env_args(es.push(e)) == head + (wasm_env_args(tail) + one));
        assert(wasm_env_args(es) + one == (head + wasm_env_args(tail)) + one);
        assert(head + (wasm_env_args(tail) + one) =~= (head + wasm_env_args(tail)) + one);
    }
}

/// Appends one argument.
fn push_arg(args: &mut Vec<String>, s: String)
    ensures
        strs_view(final(args)@) == strs_view(old(args)@).push(s@),
{
    let ghost sv = s@;
    args.push(s);
    proof {
        assert(strs_view(args@) =~= strs_view(old(args)@).push(sv));
    }
}

/// The WASM backend: the runtime binary, the shell package, and the
/// run parameters. Stateless — nothing survives a command.
#[derive(Debug)]
pub struct WasmerBackend {
    pub wasmer_binary: String,
    pub webc_path: String,
    pub mounts: Vec<Mount>,
    pub env_vars: Vec<(String, String)>,
    pub workdir: String,
}

/// No native Linux, no networking, nothing persists.
pub open spec fn wasm_caps() -> BackendCapabilities {
    BackendCapabilities { native_linux: false, networking: false, persistent_fs: false }
}

impl WasmerBackend {
    /// Assembles the backend around an already-acquired runtime
    /// binary and package; downloading either happens outside.
    pub fn new(
        wasmer_binary: String,
        webc_path: String,
        mounts: Vec<Mount>,
        env_vars: Vec<(String, String)>,
        workdir: String,
    ) -> (r: Self)
        ensures
            r.wasmer_binary == wasmer_binary,
            r.webc_path == webc_path,
            r.mounts == mounts,
            r.env_vars == env_vars,
            r.workdir == workdir,
    {
        WasmerBackend { wasmer_binary, webc_path, mounts, env_vars, workdir }
    }

    /// The backend is always available: the runtime can be fetched
    /// at run time.
    pub fn is_available() -> (r: bool)
        ensures
            r,
    {
        true
    }

    /// The backend's name.
    pub fn name(&self) -> (r: &'static str)
        ensures
            r@ == "wasmer"@,
    {
        "wasmer"
    }

    /// The capabilities; fixed for every instance.
    pub fn capabilities(&self) -> (r: BackendCapabilities)
        ensures
            r == wasm_caps(),
    {
        BackendCapabilities { native_linux: false, networking: false, persistent_fs: false }
    }

    /// The argument list for one `execute`; every mount's host path
    /// must exist.
    pub fn execute_args(&self, command: &str, mounts_exist: &Vec<bool>) -> (r: Result<
        Vec<String>,
        BashletError,
    >)
        requires
            mounts_exist@.len() == self.mounts@.len(),
        ensures
            match r {
                Ok(args) => first_missing(mounts_exist@, 0) == -1 && strs_view(args@)
                    == wasm_run_args_spec(
                    self.mounts@.map_values(|m: Mount| m@),
                    crate::session::env_view(self.env_vars@),
                    self.webc_path@,
                    command@,
                ),
                Err(e) => ({
                    let k = first_missing(mounts_exist@, 0);
                    &&& k >= 0
                    &&& (e matches BashletError::MountPathNotFound { path } && path@
                        == self.mounts@[k].host_path@)
                }),
            },
    {
        match check_mounts(&self.mounts, mounts_exist) {
            Err(e) => Err(e),
            Ok(_) => {
                let ghost mvs = self.mounts@.map_values(|m: Mount| m@);
                let ghost evs = crate::session::env_view(self.env_vars@);
                let mut args: Vec<String> = Vec::new();
                push_arg(&mut args, String::from_str("run"));
                let mut k: usize = 0;
                while k < self.mounts.len()
                    invariant
                        k <= self.mounts@.len(),
                        mvs == self.mounts@.map_values(|m: Mount| m@),
                        strs_view(args@) == seq!["run"@] + mapdir_args(mvs.subrange(0, k as int)),
                    decreases self.mounts@.len() - k,
                {
                    let ghost pre = mvs.subrange(0, k as int);
                    let ghost args0 = args@;
                    push_arg(&mut args, String::from_str("--mapdir"));
                    let mut a: Vec<char> = Vec::new();
                    push_str_chars(&mut a, self.mounts[k].guest_path.as_str());
                    a.push(':');
                    push_str_chars(&mut a, self.mounts[k].host_path.as_str());
                    proof {
                        reveal_strlit(":");
                        assert(a@ =~= mapdir_arg(mvs[k as int]));
                    }
                    push_arg(&mut args, chars_to_string(&a));
                    proof {
                        lemma_mapdir_args_snoc(pre, mvs[k as int]);
                        assert(mvs.subrange(0, k + 1 as int) =~= pre.push(mvs[k as int]));
                        assert(strs_view(args@) == strs_view(args0).push("--mapdir"@).push(
                            mapdir_arg(mvs[k as int]),
                        ));
                        assert(strs_view(args0).push("--mapdir"@).push(mapdir_arg(mvs[k as int]))
                            =~= seq!["run"@] + mapdir_args(mvs.subrange(0, k + 1 as int)));
                    }
                    k += 1;
                }
                proof {
                    assert(mvs.subrange(0, mvs.len() as int) =~= mvs);
                }
                let mut j: usize = 0;
                while j < self.env_vars.len()
                    invariant
                        j <= self.env_vars@.len(),
                        mvs == self.mounts@.map_values(|m: Mount| m@),
                        evs == crate::session::env_view(self.env_vars@),
                        strs_view(args@) == seq!["run"@] + mapdir_args(mvs) + wasm_env_args(
                            evs.subrange(0, j as int),
                        ),
                    decreases self.env_vars@.len() - j,
                {
                    let ghost pre = evs.subrange(0, j as int);
                    let ghost args0 = args@;
                    push_arg(&mut args, String::from_str("--env"));
                    let mut a: Vec<char> = Vec::new();
                    push_str_chars(&mut a, self.env_vars[j].0.as_str());
                    a.push('=');
                    push_str_chars(&mut a, self.env_vars[j].1.as_str());
                    proof {
                        reveal_strlit("=");
                        assert(a@ =~= evs[j as int].0 + "="@ + evs[j as int].1);
                    }
                    push_arg(&mut args, chars_to_string(&a));
                    proof {
                        lemma_wasm_env_args_snoc(pre, evs[j as int]);
                        assert(evs.subrange(0, j + 1 as int) =~= pre.push(evs[j as int]));
                        assert(strs_view(args@) == strs_view(args0).push("--env"@).push(
                            evs[j as int].0 + "="@ + evs[j as int].1,
                        ));
                        assert(strs_view(args0).push("--env"@).push(
                            evs[j as int].0 + "="@ + evs[j as int].1,
                        ) =~= seq!["run"@] + mapdir_args(mvs) + wasm_env_args(
                            evs.subrange(0, j + 1 as int),
                        ));
                    }
                    j += 1;
                }
                proof {
                    assert(evs.subrange(0, evs.len() as int) =~= evs);
                }
                push_arg(&mut args, self.webc_path.clone());
                push_arg(&mut args, String::from_str("--"));
                push_arg(&mut args, String::from_str("-c"));
                push_arg(&mut args, String::from_str(command));
                proof {
                    assert(strs_view(args@) =~= wasm_run_args_spec(
                        mvs,
                        evs,
                        self.webc_path@,
                        command@,
                    ));
                }
                Ok(args)
            },
        }
    }

    /// Descriptive information about the instance.
    pub fn info(&self) -> (r: SandboxInfo)
        ensures
            r.backend_type@ == "wasmer"@,
            r.instance_id is None,
            r.running,
    {
        let mut md: Vec<(String, String)> = Vec::new();
        md.push((String::from_str("webc_path"), self.webc_path.clone()));
        md.push((String::from_str("workdir"), self.workdir.clone()));
        SandboxInfo {
            backend_type: String::from_str("wasmer"),
            instance_id: None,
            running: true,
            metadata: md,
        }
    }
}

/// Whether the runtime is released for this platform pair.
pub open spec fn wasmer_platform_supported(os: Seq<char>, arch: Seq<char>) -> bool {
    (os == "linux"@ || os == "macos"@ || os == "windows"@) && (arch == "x86_64"@ || arch
        == "aarch64"@)
}

/// The release's name for a supported operating system.
pub open spec fn wasmer_os_name(os: Seq<char>) -> Seq<char> {
    if os == "linux"@ {
        "linux"@
    } else if os == "macos"@ {
        "darwin"@
    } else {
        "windows"@
    }
}

/// The release's name for a supported architecture.
pub open spec fn wasmer_arch_name(arch: Seq<char>) -> Seq<char> {
    if arch == "x86_64"@ {
        "amd64"@
    } else {
        "arm64"@
    }
}

/// The pinned address the runtime archive is fetched from.
pub open spec fn wasmer_url_spec(os: Seq<char>, arch: Seq<char>) -> Seq<char> {
    "https://github.com/wasmerio/wasmer/releases/download/v6.0.0/wasmer-"@ + wasmer_os_name(os)
        + "-"@ + wasmer_arch_name(arch) + ".tar.gz"@
}

/// Where the runtime binary comes from: the search path, the
/// cache, or a fetched release.
#[derive(Debug)]
pub enum WasmerSource {
    /// A working binary answers on the search path; call it by name.
    System,
    /// The cached binary answers; use it.
    Cached(String),
    /// Fetch the archive from the pinned address and extract into
    /// the cache.
    Fetch { url: String, dest: String },
}

/// Decides how to obtain the runtime binary, in resolution order: a
/// working binary on the search path, then a working cached binary,
/// then the pinned release for this platform. The caller probes
/// whether each candidate answers its version check and hands the
/// outcomes in.
pub fn wasmer_binary_source(
    path_probe_ok: bool,
    cache_path: String,
    cache_probe_ok: bool,
    os: &str,
    arch: &str,
) -> (r: Result<WasmerSource, BashletError>)
    ensures
        path_probe_ok ==> (r matches Ok(s) && s is System),
        !path_probe_ok && cache_probe_ok ==> (r matches Ok(s) && (
        s matches WasmerSource::Cached(p) && p == cache_path)),
        !path_probe_ok && !cache_probe_ok && wasmer_platform_supported(os@, arch@) ==> (
        r matches Ok(s) && (s matches WasmerSource::Fetch { url, dest } && url@ == wasmer_url_spec(
            os@,
            arch@,
        ) && dest == cache_path)),
        !path_probe_ok && !cache_probe_ok && !wasmer_platform_supported(os@, arch@) ==> (
        r matches Err(e) && (e matches BashletError::BackendNotAvailable { backend, .. }
            && backend@ == "wasmer"@)),
{
    if path_probe_ok {
        Ok(WasmerSource::System)
    } else if cache_probe_ok {
        Ok(WasmerSource::Cached(cache_path))
    } else {
        match wasmer_download_url(os, arch) {
            Ok(url) => Ok(WasmerSource::Fetch { url, dest: cache_path }),
            Err(e) => Err(e),
        }
    }
}

/// The download address of the runtime for a platform: the pinned
/// release archive, named by the platform; unsupported platforms
/// are refused.
pub fn wasmer_download_url(os: &str, arch: &str) -> (r: Result<String, BashletError>)
    ensures
        match r {
            Ok(url) => wasmer_platform_supported(os@, arch@) && url@ == wasmer_url_spec(
                os@,
                arch@,
            ),
            Err(e) => (e matches BashletError::BackendNotAvailable { backend, .. } && backend@
                == "wasmer"@) && !wasmer_platform_supported(os@, arch@),
        },
{
    let cs_os = crate::strconv::string_to_chars(os);
    let os_str: &str = if crate::strconv::chars_eq_str(&cs_os, "linux") {
        "linux"
    } else if crate::strconv::chars_eq_str(&cs_os, "macos") {
        "darwin"
    } else if crate::strconv::chars_eq_str(&cs_os, "windows") {
        "windows"
    } else {
        return Err(
            BashletError::BackendNotAvailable {
                backend: String::from_str("wasmer"),
                reason: String::from_str("Unsupported OS"),
            },
        );
    };
    assert(os_str@ == wasmer_os_name(os@));
    let cs_arch = crate::strconv::string_to_chars(arch);
    let arch_str: &str = if crate::strconv::chars_eq_str(&cs_arch, "x86_64") {
        "amd64"
    } else if crate::strconv::chars_eq_str(&cs_arch, "aarch64") {
        "arm64"
    } else {
        return Err(
            BashletError::BackendNotAvailable {
                backend: String::from_str("wasmer"),
                reason: String::from_str("Unsupported architecture"),
            },
        );
    };
    assert(arch_str@ == wasmer_arch_name(arch@));
    let mut out: Vec<char> = Vec::new();
    push_str_chars(&mut out, "https://github.com/wasmerio/wasmer/releases/download/v6.0.0/wasmer-");
    push_str_chars(&mut out, os_str);
    push_str_chars(&mut out, "-");
    push_str_chars(&mut out, arch_str);
    push_str_chars(&mut out, ".tar.gz");
    proof {
        assert(out@ =~= wasmer_url_spec(os@, arch@));
    }
    Ok(chars_to_string(&out))
}

} // verus!
