//! Configuration records: which backend to use and each backend's
//! settings, with named presets that can be merged into a run.

use vstd::prelude::*;
use vstd::string::StringExecFns;

use crate::args::Mount;
use crate::error::BashletError;
use crate::strconv::{chars_to_string, push_str_chars, string_to_chars};

verus! {

/// The kind of sandbox backend to run commands in.
#[derive(Debug, Clone, Copy, PartialEq, Eq, Structural)]
pub enum BackendType {
    /// WebAssembly sandbox (cross-platform).
    Wasmer,
    /// MicroVM sandbox (Linux with KVM only).
    Firecracker,
    /// Container sandbox.
    Docker,
    /// Remote server over SSH.
    Ssh,
    /// Pick the best available backend.
    Auto,
}

impl Default for BackendType {
    fn default() -> (r: Self)
        ensures
            r == BackendType::Auto,
    {
        BackendType::Auto
    }
}

/// WASM backend settings.
#[derive(Debug, Clone)]
pub struct WasmerConfig {
    /// Path of a custom WASM shell package.
    pub wasm_binary: Option<String>,
}

impl Default for WasmerConfig {
    fn default() -> (r: Self)
        ensures
            r.wasm_binary is None,
    {
        WasmerConfig { wasm_binary: None }
    }
}

/// MicroVM backend settings.
#[derive(Debug, Clone)]
pub struct FirecrackerConfig {
    /// Hypervisor binary path; found or fetched when absent.
    pub binary_path: Option<String>,
    /// Linux kernel image path.
    pub kernel_path: Option<String>,
    /// Root filesystem image path.
    pub rootfs_path: Option<String>,
    /// Number of virtual CPUs.
    pub vcpu_count: u8,
    /// Networking inside the microVM.
    pub enable_networking: bool,
}

impl Default for FirecrackerConfig {
    fn default() -> (r: Self)
        ensures
            r.binary_path is None,
            r.kernel_path is None,
            r.rootfs_path is None,
            r.vcpu_count == 1,
            !r.enable_networking,
    {
        FirecrackerConfig {
            binary_path: None,
            kernel_path: None,
            rootfs_path: None,
            vcpu_count: 1,
            enable_networking: false,
        }
    }
}

/// Container backend settings.
#[derive(Debug, Clone)]
pub struct DockerConfig {
    /// Image name; the stock sandbox image when absent.
    pub image: Option<String>,
    /// Build the image when it is missing.
    pub build_image: bool,
    /// Networking inside the container.
    pub enable_networking: bool,
    /// Keep one container running and inject commands into it.
    pub session_mode: bool,
}

impl Default for DockerConfig {
    fn default() -> (r: Self)
        ensures
            r.image is None,
            r.build_image,
            !r.enable_networking,
            !r.session_mode,
    {
        DockerConfig { image: None, build_image: true, enable_networking: false, session_mode: false }
    }
}

/// Remote-shell backend settings.
#[derive(Debug, Clone)]
pub struct SshConfig {
    /// Remote host name or address.
    pub host: String,
    /// Remote port.
    pub port: u16,
    /// Remote user.
    pub user: String,
    /// Private key path, when not using an agent or default keys.
    pub key_file: Option<String>,
    /// Keep one multiplexed connection open for the session.
    pub use_control_master: bool,
    /// Connection timeout in seconds.
    pub connect_timeout: u64,
}

impl Default for SshConfig {
    fn default() -> (r: Self)
        ensures
            r.host@ == Seq::<char>::empty(),
            r.port == 22,
            r.user@ == Seq::<char>::empty(),
            r.key_file is None,
            r.use_control_master,
            r.connect_timeout == 30,
    {
        SshConfig {
            host: String::new(),
            port: 22,
            user: String::new(),
            key_file: None,
            use_control_master: true,
            connect_timeout: 30,
        }
    }
}

/// Sandbox settings: the backend choice and each backend's block.
#[derive(Debug, Clone)]
pub struct SandboxConfig {
    pub backend: BackendType,
    pub default_workdir: String,
    pub memory_limit_mb: u64,
    pub timeout_seconds: u64,
    /// Idle TTL given to sessions that name none themselves.
    pub default_idle_timeout: Option<String>,
    pub wasmer: WasmerConfig,
    pub firecracker: FirecrackerConfig,
    pub docker: DockerConfig,
    pub ssh: SshConfig,
}

impl Default for SandboxConfig {
    fn default() -> (r: Self)
        ensures
            r.backend == BackendType::Auto,
            r.default_workdir@ == "/workspace"@,
            r.memory_limit_mb == 256,
            r.timeout_seconds == 300,
            r.default_idle_timeout is None,
    {
        SandboxConfig {
            backend: BackendType::Auto,
            default_workdir: String::from_str("/workspace"),
            memory_limit_mb: 256,
            timeout_seconds: 300,
            default_idle_timeout: None,
            wasmer: WasmerConfig::default(),
            firecracker: FirecrackerConfig::default(),
            docker: DockerConfig::default(),
            ssh: SshConfig::default(),
        }
    }
}

/// One named preset: settings merged into a run on request.
#[derive(Debug, Clone)]
pub struct PresetConfig {
    /// Backend override.
    pub backend: Option<BackendType>,
    /// Commands run right after the backend is ready.
    pub setup_commands: Vec<String>,
    /// Environment entries, prepended to the run's own.
    pub env_vars: Vec<(String, String)>,
    /// Mounts as `(host, guest, readonly)`, prepended to the run's
    /// own; `~` in the host path names the home directory.
    pub mounts: Vec<(String, String, bool)>,
    /// Working-directory override.
    pub workdir: Option<String>,
    /// Root filesystem override for the microVM backend.
    pub rootfs_image: Option<String>,
}

/// The whole configuration: sandbox settings and named presets.
#[derive(Debug, Clone)]
pub struct BashletConfig {
    pub sandbox: SandboxConfig,
    /// Presets by name; the first entry with a name wins.
    pub presets: Vec<(String, PresetConfig)>,
}

impl Default for BashletConfig {
    fn default() -> (r: Self)
        ensures
            r.presets@.len() == 0,
    {
        BashletConfig { sandbox: SandboxConfig::default(), presets: Vec::new() }
    }
}

/// What `~` expansion yields: the home directory for `~` and `~/`
/// prefixes, the path itself otherwise or when no home is known.
pub open spec fn expand_tilde_spec(path: Seq<char>, home: Option<Seq<char>>) -> Seq<char> {
    match home {
        None => path,
        Some(h) => if path.len() >= 2 && path[0] == '~' && path[1] == '/' {
            h + path.subrange(1, path.len() as int)
        } else if path == "~"@ {
            h
        } else {
            path
        },
    }
}

/// Expands a leading `~` against the caller-provided home directory.
pub fn expand_tilde(path: &str, home: &Option<String>) -> (r: String)
    ensures
        r@ == expand_tilde_spec(path@, crate::session::opt_view(*home)),
{
    let cs = string_to_chars(path);
    match home {
        None => String::from_str(path),
        Some(h) => {
            if cs.len() >= 2 && cs[0] == '~' && cs[1] == '/' {
                let mut out: Vec<char> = Vec::new();
                push_str_chars(&mut out, h.as_str());
                let tail = crate::args::vec_subrange(&cs, 1, cs.len());
                let mut k: usize = 0;
                while k < tail.len()
                    invariant
                        k <= tail@.len(),
                        out@ == h@ + tail@.subrange(0, k as int),
                    decreases tail@.len() - k,
                {
                    out.push(tail[k]);
                    assert(out@ =~= h@ + tail@.subrange(0, k + 1 as int));
                    k += 1;
                }
                proof {
                    assert(tail@.subrange(0, tail@.len() as int) =~= tail@);
                }
                chars_to_string(&out)
            } else if crate::strconv::chars_eq_str(&cs, "~") {
                h.clone()
            } else {
                String::from_str(path)
            }
        },
    }
}

/// The first preset entry at or after `i` carrying the name, or
/// `-1`.
pub open spec fn find_preset_from(
    ps: Seq<(String, PresetConfig)>,
    name: Seq<char>,
    i: int,
) -> int
    decreases ps.len() - i,
{
    if 0 <= i && i < ps.len() {
        if ps[i].0@ == name {
            i
        } else {
            find_preset_from(ps, name, i + 1)
        }
    } else {
        -1
    }
}

/// Finds the first preset with the given name.
fn find_preset_index(config: &BashletConfig, name: &str) -> (r: Option<usize>)
    ensures
        match r {
            Some(i) => find_preset_from(config.presets@, name@, 0) == i as int && i
                < config.presets@.len(),
            None => find_preset_from(config.presets@, name@, 0) == -1,
        },
{
    let mut k: usize = 0;
    while k < config.presets.len()
        invariant
            k <= config.presets@.len(),
            find_preset_from(config.presets@, name@, 0) == find_preset_from(
                config.presets@,
                name@,
                k as int,
            ),
        decreases config.presets@.len() - k,
    {
        if crate::strconv::chars_eq_str(&string_to_chars(config.presets[k].0.as_str()), name) {
            assert(config.presets@[k as int].0@ == name@);
            return Some(k);
        }
        assert(config.presets@[k as int].0@ != name@);
        k += 1;
    }
    None
}

/// Field-wise agreement of a merged mount with the preset entry it
/// came from, the host path tilde-expanded.
pub open spec fn preset_mount_matches(
    m: Mount,
    e: (String, String, bool),
    home: Option<Seq<char>>,
) -> bool {
    m.host_path@ == expand_tilde_spec(e.0@, home) && m.guest_path@ == e.1@ && m.readonly == e.2
}

/// Merges a named preset into a run: its mounts (host paths
/// tilde-expanded) and environment go in front of the caller's, its
/// working directory applies when the caller kept the default, its
/// backend and root-filesystem overrides apply, and its setup
/// commands come back to be run. An unknown preset name is a
/// configuration error that changes nothing.
pub fn apply_preset(
    preset_name: &str,
    config: &BashletConfig,
    home: &Option<String>,
    mounts: &mut Vec<Mount>,
    env_vars: &mut Vec<(String, String)>,
    workdir: &mut String,
    sandbox_config: &mut SandboxConfig,
) -> (r: Result<Vec<String>, BashletError>)
    ensures
        r is Err <==> find_preset_from(config.presets@, preset_name@, 0) == -1,
        r is Err ==> (final(mounts)@ == old(mounts)@ && final(env_vars)@ == old(env_vars)@
            && *final(workdir) == *old(workdir) && *final(sandbox_config) == *old(sandbox_config) && (
        r matches Err(e) && e is Config)),
        r matches Ok(setup) ==> ({
            let i = find_preset_from(config.presets@, preset_name@, 0);
            let p = config.presets@[i].1;
            let hv = crate::session::opt_view(*home);
            &&& setup@.len() == p.setup_commands@.len()
            &&& (forall|t: int|
                0 <= t < setup@.len() ==> #[trigger] setup@[t] == p.setup_commands@[t])
            &&& final(mounts)@.len() == p.mounts@.len() + old(mounts)@.len()
            &&& (forall|t: int|
                0 <= t < p.mounts@.len() ==> preset_mount_matches(
                    #[trigger] final(mounts)@[t],
                    p.mounts@[t],
                    hv,
                ))
            &&& final(mounts)@.subrange(p.mounts@.len() as int, final(mounts)@.len() as int)
                == old(mounts)@
            &&& final(env_vars)@ == p.env_vars@ + old(env_vars)@
            &&& (match p.workdir {
                Some(w) => if old(workdir)@ == "/workspace"@ {
                    *final(workdir) == w
                } else {
                    *final(workdir) == *old(workdir)
                },
                None => *final(workdir) == *old(workdir),
            })
            &&& final(sandbox_config).backend == (match p.backend {
                Some(b) => b,
                None => old(sandbox_config).backend,
            })
            &&& (match p.rootfs_image {
                Some(ri) => (final(sandbox_config).firecracker.rootfs_path matches Some(rp) && rp@
                    == expand_tilde_spec(ri@, hv)),
                None => final(sandbox_config).firecracker.rootfs_path == old(
                    sandbox_config,
                ).firecracker.rootfs_path,
            })
            &&& final(sandbox_config).memory_limit_mb == old(sandbox_config).memory_limit_mb
            &&& final(sandbox_config).timeout_seconds == old(sandbox_config).timeout_seconds
            &&& final(sandbox_config).firecracker.vcpu_count == old(
                sandbox_config,
            ).firecracker.vcpu_count
            &&& final(sandbox_config).firecracker.enable_networking == old(
                sandbox_config,
            ).firecracker.enable_networking
        }),
{
    let idx = match find_preset_index(config, preset_name) {
        Some(i) => i,
        None => {
            return Err(
                BashletError::Config(
                    String::from_str("preset not found").concat(": ").concat(preset_name),
                ),
            );
        },
    };
    let preset = &config.presets[idx].1;
    let ghost p = config.presets@[idx as int].1;
    let ghost hv = crate::session::opt_view(*home);
    // preset mounts first, then the caller's
    let mut merged_mounts: Vec<Mount> = Vec::new();
    let mut k: usize = 0;
    while k < preset.mounts.len()
        invariant
            k <= preset.mounts@.len(),
            preset.mounts@ == p.mounts@,
            hv == crate::session::opt_view(*home),
            merged_mounts@.len() == k,
            forall|t: int|
                0 <= t < k ==> preset_mount_matches(
                    #[trigger] merged_mounts@[t],
                    p.mounts@[t],
                    hv,
                ),
        decreases preset.mounts@.len() - k,
    {
        let (host, guest, ro) = (
            preset.mounts[k].0.clone(),
            preset.mounts[k].1.clone(),
            preset.mounts[k].2,
        );
        merged_mounts.push(
            Mount { host_path: expand_tilde(host.as_str(), home), guest_path: guest, readonly: ro },
        );
        proof {
            assert(preset_mount_matches(merged_mounts@[k as int], p.mounts@[k as int], hv));
        }
        k += 1;
    }
    let ghost preset_mounts_len = merged_mounts@.len();
    let mut j: usize = 0;
    while j < mounts.len()
        invariant
            j <= mounts@.len(),
            mounts@ == old(mounts)@,
            preset_mounts_len == p.mounts@.len(),
            hv == crate::session::opt_view(*home),
            merged_mounts@.len() == preset_mounts_len + j,
            forall|t: int|
                0 <= t < preset_mounts_len ==> preset_mount_matches(
                    #[trigger] merged_mounts@[t],
                    p.mounts@[t],
                    hv,
                ),
            merged_mounts@.subrange(preset_mounts_len as int, merged_mounts@.len() as int)
                == mounts@.subrange(0, j as int),
        decreases mounts@.len() - j,
    {
        let m = Mount {
            host_path: mounts[j].host_path.clone(),
            guest_path: mounts[j].guest_path.clone(),
            readonly: mounts[j].readonly,
        };
        proof {
            assert(m =~= mounts@[j as int]);
        }
        merged_mounts.push(m);
        proof {
            assert(merged_mounts@.subrange(preset_mounts_len as int, merged_mounts@.len() as int)
                =~= mounts@.subrange(0, j + 1 as int));
        }
        j += 1;
    }
    proof {
        assert(mounts@.subrange(0, mounts@.len() as int) =~= mounts@);
    }
    *mounts = merged_mounts;
    // preset environment first, then the caller's
    let mut merged_env: Vec<(String, String)> = Vec::new();
    let mut k2: usize = 0;
    while k2 < preset.env_vars.len()
        invariant
            k2 <= preset.env_vars@.len(),
            preset.env_vars@ == p.env_vars@,
            merged_env@.len() == k2,
            forall|t: int| 0 <= t < k2 ==> #[trigger] merged_env@[t] == p.env_vars@[t],
        decreases preset.env_vars@.len() - k2,
    {
        merged_env.push((preset.env_vars[k2].0.clone(), preset.env_vars[k2].1.clone()));
        proof {
            assert(merged_env@[k2 as int] =~= p.env_vars@[k2 as int]);
        }
        k2 += 1;
    }
    let ghost preset_env_len = merged_env@.len();
    let mut j2: usize = 0;
    while j2 < env_vars.len()
        invariant
            j2 <= env_vars@.len(),
            env_vars@ == old(env_vars)@,
            preset_env_len == p.env_vars@.len(),
            merged_env@.len() == preset_env_len + j2,
            forall|t: int|
                0 <= t < preset_env_len ==> #[trigger] merged_env@[t] == p.env_vars@[t],
            merged_env@.subrange(preset_env_len as int, merged_env@.len() as int)
                == env_vars@.subrange(0, j2 as int),
        decreases env_vars@.len() - j2,
    {
        merged_env.push((env_vars[j2].0.clone(), env_vars[j2].1.clone()));
        proof {
            assert(merged_env@.subrange(preset_env_len as int, merged_env@.len() as int)
                =~= env_vars@.subrange(0, j2 + 1 as int));
        }
        j2 += 1;
    }
    proof {
        assert(env_vars@.subrange(0, env_vars@.len() as int) =~= env_vars@);
        assert(merged_env@ =~= p.env_vars@ + old(env_vars)@);
    }
    *env_vars = merged_env;
    // working directory applies when the caller kept the default
    if let Some(preset_workdir) = &preset.workdir {
        if crate::strconv::chars_eq_str(&string_to_chars(workdir.as_str()), "/workspace") {
            *workdir = preset_workdir.clone();
        }
    }
    // backend and root filesystem overrides
    if let Some(backend) = &preset.backend {
        sandbox_config.backend = *backend;
    }
    if let Some(rootfs) = &preset.rootfs_image {
        sandbox_config.firecracker.rootfs_path = Some(expand_tilde(rootfs.as_str(), home));
    }
    // the preset's setup commands, to run once the backend is ready
    let mut setup: Vec<String> = Vec::new();
    let mut t: usize = 0;
    while t < preset.setup_commands.len()
        invariant
            t <= preset.setup_commands@.len(),
            preset.setup_commands@ == p.setup_commands@,
            setup@.len() == t,
            forall|q: int| 0 <= q < t ==> #[trigger] setup@[q] == p.setup_commands@[q],
        decreases preset.setup_commands@.len() - t,
    {
        setup.push(preset.setup_commands[t].clone());
        t += 1;
    }
    Ok(setup)
}

} // verus!
