//! The microVM backend: hypervisor control bodies, the boot-wait
//! budget, per-instance assets, and the instance lifecycle state.
//!
//! The hypervisor process, its REST socket and the virtio-socket
//! file live outside; this module decides what is sent, what is
//! waited for and for how long, and which files belong to an
//! instance.

use vstd::prelude::*;
use vstd::string::StringExecFns;

use crate::error::BashletError;
use crate::json::{field_bool, field_nat, field_str, quoted};
use crate::sandbox::BackendCapabilities;
use crate::strconv::{chars_to_string, push_str_chars, push_u64, radix_digits};

verus! {

/// How often a socket is polled, in milliseconds.
pub const POLL_INTERVAL_MS: u64 = 100;

/// How many polls the API socket gets before boot counts as failed.
pub const API_SOCKET_MAX_ATTEMPTS: u32 = 50;

/// How many polls the virtio socket gets before boot counts as
/// failed.
pub const VSOCK_MAX_ATTEMPTS: u32 = 100;

/// The guest CID the virtio socket is configured with; 0 to 2 are
/// reserved.
pub const GUEST_CID: u32 = 3;

/// The kernel command line every microVM boots with.
pub fn default_boot_args() -> (r: &'static str)
    ensures
        r@ == "console=ttyS0 reboot=k panic=1 pci=off"@,
{
    "console=ttyS0 reboot=k panic=1 pci=off"
}

/// An instance identifier: `vm-` and the boot clock reading in
/// hexadecimal.
pub fn generate_instance_id(now_ms: u64) -> (r: String)
    ensures
        r@ == "vm-"@ + radix_digits(now_ms as nat, 16),
{
    let mut out: Vec<char> = Vec::new();
    push_str_chars(&mut out, "vm-");
    crate::strconv::push_radix(&mut out, now_ms, 16);
    chars_to_string(&out)
}

// ---------------------------------------------------------------------------
// Wire-exact REST bodies
// ---------------------------------------------------------------------------

/// The `/boot-source` body.
pub open spec fn boot_source_body_spec(kernel: Seq<char>, boot_args: Seq<char>) -> Seq<char> {
    "{"@ + field_str("\"kernel_image_path\""@, kernel) + ","@ + field_str(
        "\"boot_args\""@,
        boot_args,
    ) + "}"@
}

/// Builds the `/boot-source` body.
pub fn boot_source_body(kernel_path: &str, boot_args: &str) -> (r: String)
    ensures
        r@ == boot_source_body_spec(kernel_path@, boot_args@),
{
    let mut out: Vec<char> = Vec::new();
    push_str_chars(&mut out, "{\"kernel_image_path\":");
    crate::json::push_quoted(&mut out, kernel_path);
    push_str_chars(&mut out, ",\"boot_args\":");
    crate::json::push_quoted(&mut out, boot_args);
    push_str_chars(&mut out, "}");
    proof {
        reveal_strlit("{\"kernel_image_path\":");
        reveal_strlit(",\"boot_args\":");
        reveal_strlit("{");
        reveal_strlit("}");
        reveal_strlit(",");
        reveal_strlit(":");
        reveal_strlit("\"kernel_image_path\"");
        reveal_strlit("\"boot_args\"");
        assert(out@ =~= boot_source_body_spec(kernel_path@, boot_args@));
    }
    chars_to_string(&out)
}

/// The `/machine-config` body.
pub open spec fn machine_config_body_spec(vcpu_count: nat, mem_size_mib: nat) -> Seq<char> {
    "{"@ + field_nat("\"vcpu_count\""@, vcpu_count) + ","@ + field_nat(
        "\"mem_size_mib\""@,
        mem_size_mib,
    ) + "}"@
}

/// Builds the `/machine-config` body.
pub fn machine_config_body(vcpu_count: u8, mem_size_mib: u64) -> (r: String)
    ensures
        r@ == machine_config_body_spec(vcpu_count as nat, mem_size_mib as nat),
{
    let mut out: Vec<char> = Vec::new();
    push_str_chars(&mut out, "{\"vcpu_count\":");
    push_u64(&mut out, vcpu_count as u64);
    push_str_chars(&mut out, ",\"mem_size_mib\":");
    push_u64(&mut out, mem_size_mib);
    push_str_chars(&mut out, "}");
    proof {
        reveal_strlit("{\"vcpu_count\":");
        reveal_strlit(",\"mem_size_mib\":");
        reveal_strlit("{");
        reveal_strlit("}");
        reveal_strlit(",");
        reveal_strlit(":");
        reveal_strlit("\"vcpu_count\"");
        reveal_strlit("\"mem_size_mib\"");
        assert(out@ =~= machine_config_body_spec(vcpu_count as nat, mem_size_mib as nat));
    }
    chars_to_string(&out)
}

/// The `/drives/<id>` body; the drive named `rootfs` is the root
/// device.
pub open spec fn drive_body_spec(
    drive_id: Seq<char>,
    path_on_host: Seq<char>,
    is_read_only: bool,
) -> Seq<char> {
    "{"@ + field_str("\"drive_id\""@, drive_id) + ","@ + field_str(
        "\"path_on_host\""@,
        path_on_host,
    ) + ","@ + field_bool("\"is_root_device\""@, drive_id == "rootfs"@) + ","@ + field_bool(
        "\"is_read_only\""@,
        is_read_only,
    ) + "}"@
}

/// Builds the `/drives/<id>` body.
pub fn drive_body(drive_id: &str, path_on_host: &str, is_read_only: bool) -> (r: String)
    ensures
        r@ == drive_body_spec(drive_id@, path_on_host@, is_read_only),
{
    let is_root = crate::strconv::chars_eq_str(
        &crate::strconv::string_to_chars(drive_id),
        "rootfs",
    );
    let mut out: Vec<char> = Vec::new();
    push_str_chars(&mut out, "{\"drive_id\":");
    crate::json::push_quoted(&mut out, drive_id);
    push_str_chars(&mut out, ",\"path_on_host\":");
    crate::json::push_quoted(&mut out, path_on_host);
    push_str_chars(&mut out, ",\"is_root_device\":");
    if is_root {
        push_str_chars(&mut out, "true");
    } else {
        push_str_chars(&mut out, "false");
    }
    push_str_chars(&mut out, ",\"is_read_only\":");
    if is_read_only {
        push_str_chars(&mut out, "true");
    } else {
        push_str_chars(&mut out, "false");
    }
    push_str_chars(&mut out, "}");
    proof {
        reveal_strlit("{\"drive_id\":");
        reveal_strlit(",\"path_on_host\":");
        reveal_strlit(",\"is_root_device\":");
        reveal_strlit(",\"is_read_only\":");
        reveal_strlit("{");
        reveal_strlit("}");
        reveal_strlit(",");
        reveal_strlit(":");
        reveal_strlit("\"drive_id\"");
        reveal_strlit("\"path_on_host\"");
        reveal_strlit("\"is_root_device\"");
        reveal_strlit("\"is_read_only\"");
        assert(out@ =~= drive_body_spec(drive_id@, path_on_host@, is_read_only));
    }
    chars_to_string(&out)
}

/// The `/vsock` body.
pub open spec fn vsock_body_spec(guest_cid: nat, uds_path: Seq<char>) -> Seq<char> {
    "{"@ + field_nat("\"guest_cid\""@, guest_cid) + ","@ + field_str("\"uds_path\""@, uds_path)
        + "}"@
}

/// Builds the `/vsock` body.
pub fn vsock_body(guest_cid: u32, uds_path: &str) -> (r: String)
    ensures
        r@ == vsock_body_spec(guest_cid as nat, uds_path@),
{
    let mut out: Vec<char> = Vec::new();
    push_str_chars(&mut out, "{\"guest_cid\":");
    push_u64(&mut out, guest_cid as u64);
    push_str_chars(&mut out, ",\"uds_path\":");
    crate::json::push_quoted(&mut out, uds_path);
    push_str_chars(&mut out, "}");
    proof {
        reveal_strlit("{\"guest_cid\":");
        reveal_strlit(",\"uds_path\":");
        reveal_strlit("{");
        reveal_strlit("}");
        reveal_strlit(",");
        reveal_strlit(":");
        reveal_strlit("\"guest_cid\"");
        reveal_strlit("\"uds_path\"");
        assert(out@ =~= vsock_body_spec(guest_cid as nat, uds_path@));
    }
    chars_to_string(&out)
}

/// The `/actions` body.
pub open spec fn actions_body_spec(action_type: Seq<char>) -> Seq<char> {
    "{"@ + field_str("\"action_type\""@, action_type) + "}"@
}

/// Builds the `/actions` body.
pub fn actions_body(action_type: &str) -> (r: String)
    ensures
        r@ == actions_body_spec(action_type@),
{
    let mut out: Vec<char> = Vec::new();
    push_str_chars(&mut out, "{\"action_type\":");
    crate::json::push_quoted(&mut out, action_type);
    push_str_chars(&mut out, "}");
    proof {
        reveal_strlit("{\"action_type\":");
        reveal_strlit("{");
        reveal_strlit("}");
        reveal_strlit(":");
        reveal_strlit("\"action_type\"");
        assert(out@ =~= actions_body_spec(action_type@));
    }
    chars_to_string(&out)
}

/// Decides one hypervisor API reply: a status in the 2xx range is
/// success; any other surfaces as the API error carrying the status
/// and the reply body.
pub fn hypervisor_reply_outcome(status: u16, body: String) -> (r: Result<(), BashletError>)
    ensures
        200 <= status < 300 ==> r is Ok,
        !(200 <= status < 300) ==> (r matches Err(e) && (
        e matches BashletError::FirecrackerApi { message, status: s } && message == body && s
            == Some(status))),
{
    if 200 <= status && status < 300 {
        Ok(())
    } else {
        Err(BashletError::FirecrackerApi { message: body, status: Some(status) })
    }
}

// ---------------------------------------------------------------------------
// The boot-wait budget
// ---------------------------------------------------------------------------

/// A bounded wait for a socket file to appear: at most
/// `max_attempts` polls, one every poll interval.
#[derive(Debug)]
pub struct SocketWait {
    /// Polls already made.
    pub attempts: u32,
    /// The attempt budget.
    pub max_attempts: u32,
}

impl SocketWait {
    /// A fresh wait with the given budget.
    pub fn new(max_attempts: u32) -> (r: Self)
        ensures
            r.attempts == 0,
            r.max_attempts == max_attempts,
    {
        SocketWait { attempts: 0, max_attempts }
    }

    /// One poll outcome: the socket was seen, the wait goes on, or
    /// the budget is spent and the boot has failed. The budget is
    /// exceeded only when every poll came back negative.
    pub fn step(&mut self, socket_exists: bool) -> (r: Option<Result<(), BashletError>>)
        requires
            old(self).attempts < old(self).max_attempts,
        ensures
            final(self).max_attempts == old(self).max_attempts,
            socket_exists ==> r == Some(Ok::<(), BashletError>(())) && final(self).attempts == old(
                self,
            ).attempts,
            !socket_exists && old(self).attempts + 1 < old(self).max_attempts ==> r is None
                && final(self).attempts == old(self).attempts + 1,
            !socket_exists && old(self).attempts + 1 == old(self).max_attempts ==> (r matches Some(
                out,
            ) && out matches Err(e) && e is VMBootFailed) && final(self).attempts == old(
                self,
            ).attempts + 1,
    {
        if socket_exists {
            Some(Ok(()))
        } else {
            self.attempts = self.attempts + 1;
            if self.attempts == self.max_attempts {
                Some(
                    Err(
                        BashletError::VMBootFailed(
                            String::from_str("Timeout waiting for socket"),
                        ),
                    ),
                )
            } else {
                None
            }
        }
    }
}

// ---------------------------------------------------------------------------
// Assets
// ---------------------------------------------------------------------------

/// What to do for one required asset: use a file that is already
/// there, fetch one, or give up because an explicitly named file is
/// missing.
#[derive(Debug)]
pub enum AssetAction {
    /// Use this path.
    UsePath(String),
    /// Fetch from the address into the destination.
    Download { url: String, dest: String },
    /// An explicitly configured path does not exist.
    Missing(BashletError),
}

/// The platform's per-user cache directory for this application.
///
/// Relies on the directories crate's `ProjectDirs::from`: it derives
/// the conventional per-user cache path for the given qualifier,
/// organization and application, and yields nothing only when the
/// platform names no home directory. The result depends on the
/// environment, so nothing is promised of its value.
#[verifier::external_body]
fn platform_cache_dir() -> (r: Option<String>) {
    directories::ProjectDirs::from("com", "bashlet", "bashlet").map(
        |d| d.cache_dir().to_string_lossy().into_owned(),
    )
}

/// Manages the kernel, root filesystem and hypervisor binary under
/// one cache directory, and the per-instance root filesystem
/// copies.
#[derive(Debug)]
pub struct AssetManager {
    pub cache_dir: String,
}

impl AssetManager {
    /// An asset manager over the given cache directory.
    pub fn new(cache_dir: String) -> (r: Self)
        ensures
            r.cache_dir == cache_dir,
    {
        AssetManager { cache_dir }
    }

    /// An asset manager over the platform's cache directory, in its
    /// own subdirectory; nothing when the platform names no home.
    pub fn from_platform_cache() -> (r: Option<Self>)
        ensures
            match r {
                Some(m) => m.cache_dir@.len() >= "/firecracker"@.len() && m.cache_dir@.subrange(
                    m.cache_dir@.len() - "/firecracker"@.len(),
                    m.cache_dir@.len() as int,
                ) == "/firecracker"@,
                None => true,
            },
    {
        match platform_cache_dir() {
            None => None,
            Some(base) => {
                let mut out: Vec<char> = Vec::new();
                push_str_chars(&mut out, base.as_str());
                push_str_chars(&mut out, "/firecracker");
                proof {
                    assert(out@.subrange(
                        out@.len() - "/firecracker"@.len(),
                        out@.len() as int,
                    ) =~= "/firecracker"@);
                }
                Some(AssetManager { cache_dir: chars_to_string(&out) })
            },
        }
    }

    /// The cache path of the kernel image.
    pub fn kernel_cache_path(&self) -> (r: String)
        ensures
            r@ == self.cache_dir@ + "/vmlinux.bin"@,
    {
        let mut out: Vec<char> = Vec::new();
        push_str_chars(&mut out, self.cache_dir.as_str());
        push_str_chars(&mut out, "/vmlinux.bin");
        chars_to_string(&out)
    }

    /// The cache path of the shared root filesystem image.
    pub fn rootfs_cache_path(&self) -> (r: String)
        ensures
            r@ == self.cache_dir@ + "/rootfs.ext4"@,
    {
        let mut out: Vec<char> = Vec::new();
        push_str_chars(&mut out, self.cache_dir.as_str());
        push_str_chars(&mut out, "/rootfs.ext4");
        chars_to_string(&out)
    }

    /// The cache path of the hypervisor binary.
    pub fn binary_cache_path(&self) -> (r: String)
        ensures
            r@ == self.cache_dir@ + "/firecracker"@,
    {
        let mut out: Vec<char> = Vec::new();
        push_str_chars(&mut out, self.cache_dir.as_str());
        push_str_chars(&mut out, "/firecracker");
        chars_to_string(&out)
    }

    /// The writable root filesystem copy owned by one instance.
    pub fn instance_rootfs_path(&self, instance_id: &str) -> (r: String)
        ensures
            r@ == self.cache_dir@ + "/instances/"@ + instance_id@ + ".rootfs.ext4"@,
    {
        let mut out: Vec<char> = Vec::new();
        push_str_chars(&mut out, self.cache_dir.as_str());
        push_str_chars(&mut out, "/instances/");
        push_str_chars(&mut out, instance_id);
        push_str_chars(&mut out, ".rootfs.ext4");
        proof {
            assert(out@ =~= self.cache_dir@ + "/instances/"@ + instance_id@ + ".rootfs.ext4"@);
        }
        chars_to_string(&out)
    }

    /// Decides how to obtain an asset. An explicit path is honored
    /// when it exists and refused when it does not; otherwise the
    /// cached file is used when present, and fetched when not.
    pub fn asset_action(
        &self,
        custom_path: &Option<String>,
        custom_exists: bool,
        cache_path: String,
        cache_exists: bool,
        url: &str,
    ) -> (r: AssetAction)
        ensures
            match custom_path {
                Some(p) => if custom_exists {
                    r matches AssetAction::UsePath(q) && q == p
                } else {
                    r matches AssetAction::Missing(e) && e is AssetDownload
                },
                None => if cache_exists {
                    r matches AssetAction::UsePath(q) && q == cache_path
                } else {
                    (r matches AssetAction::Download { url: u, dest } && u@ == url@ && dest
                        == cache_path)
                },
            },
    {
        match custom_path {
            Some(p) => {
                if custom_exists {
                    AssetAction::UsePath(p.clone())
                } else {
                    AssetAction::Missing(BashletError::AssetDownload { url: p.clone() })
                }
            },
            None => {
                if cache_exists {
                    AssetAction::UsePath(cache_path)
                } else {
                    AssetAction::Download { url: String::from_str(url), dest: cache_path }
                }
            },
        }
    }
}

/// The pinned address the hypervisor release is fetched from.
pub open spec fn firecracker_url_spec(arch: Seq<char>) -> Seq<char> {
    "https://github.com/firecracker-microvm/firecracker/releases/download/v1.10.1/firecracker-v1.10.1-"@
        + arch
}

/// The hypervisor release download address for an architecture: the
/// pinned release, named by the architecture; others are refused.
pub fn firecracker_binary_url(arch: &str) -> (r: Result<String, BashletError>)
    ensures
        match r {
            Ok(url) => (arch@ == "x86_64"@ || arch@ == "aarch64"@) && url@ == firecracker_url_spec(
                arch@,
            ),
            Err(e) => (e matches BashletError::BackendNotAvailable { backend, .. } && backend@
                == "firecracker"@) && arch@ != "x86_64"@ && arch@ != "aarch64"@,
        },
{
    let cs = crate::strconv::string_to_chars(arch);
    let arch_str: &str = if crate::strconv::chars_eq_str(&cs, "x86_64") {
        "x86_64"
    } else if crate::strconv::chars_eq_str(&cs, "aarch64") {
        "aarch64"
    } else {
        return Err(
            BashletError::BackendNotAvailable {
                backend: String::from_str("firecracker"),
                reason: String::from_str("Unsupported architecture"),
            },
        );
    };
    assert(arch_str@ == arch@);
    let mut out: Vec<char> = Vec::new();
    push_str_chars(
        &mut out,
        "https://github.com/firecracker-microvm/firecracker/releases/download/v1.10.1/firecracker-v1.10.1-",
    );
    push_str_chars(&mut out, arch_str);
    proof {
        assert(out@ =~= firecracker_url_spec(arch@));
    }
    Ok(chars_to_string(&out))
}

// ---------------------------------------------------------------------------
// The instance lifecycle
// ---------------------------------------------------------------------------

/// What one microVM boots with.
#[derive(Debug)]
pub struct VMConfig {
    pub kernel_path: String,
    pub rootfs_path: String,
    pub vcpu_count: u8,
    pub memory_mb: u64,
    pub boot_args: String,
}

/// The lifecycle phases of one instance.
#[derive(Debug, Clone, Copy, PartialEq, Eq, Structural)]
pub enum VmPhase {
    /// The hypervisor process is up and its API socket answered.
    SocketReady,
    /// Boot source, machine, root drive and virtio socket are set.
    Configured,
    /// The instance was started and the guest agent answered.
    Running,
    /// The instance was shut down; its socket files are to be gone.
    ShutDown,
}

/// The control-plane state of one instance: its phase and the two
/// socket paths it owns.
#[derive(Debug)]
pub struct VmState {
    pub phase: VmPhase,
    pub api_socket_path: String,
    pub vsock_path: String,
}

impl VmState {
    /// A freshly spawned instance whose API socket has appeared.
    pub fn new(api_socket_path: String, vsock_path: String) -> (r: Self)
        ensures
            r.phase == VmPhase::SocketReady,
            r.api_socket_path == api_socket_path,
            r.vsock_path == vsock_path,
    {
        VmState { phase: VmPhase::SocketReady, api_socket_path, vsock_path }
    }

    /// The configuration calls, in order: each REST path with its
    /// wire-exact body. Moves the instance to the configured phase.
    pub fn configure(&mut self, config: &VMConfig) -> (r: Vec<(String, String)>)
        requires
            old(self).phase == VmPhase::SocketReady,
        ensures
            final(self).phase == VmPhase::Configured,
            final(self).api_socket_path == old(self).api_socket_path,
            final(self).vsock_path == old(self).vsock_path,
            r@.len() == 4,
            r@[0].0@ == "/boot-source"@ && r@[0].1@ == boot_source_body_spec(
                config.kernel_path@,
                config.boot_args@,
            ),
            r@[1].0@ == "/machine-config"@ && r@[1].1@ == machine_config_body_spec(
                config.vcpu_count as nat,
                config.memory_mb as nat,
            ),
            r@[2].0@ == "/drives/rootfs"@ && r@[2].1@ == drive_body_spec(
                "rootfs"@,
                config.rootfs_path@,
                false,
            ),
            r@[3].0@ == "/vsock"@ && r@[3].1@ == vsock_body_spec(
                GUEST_CID as nat,
                old(self).vsock_path@,
            ),
    {
        let mut calls: Vec<(String, String)> = Vec::new();
        calls.push(
            (
                String::from_str("/boot-source"),
                boot_source_body(config.kernel_path.as_str(), config.boot_args.as_str()),
            ),
        );
        calls.push(
            (
                String::from_str("/machine-config"),
                machine_config_body(config.vcpu_count, config.memory_mb),
            ),
        );
        calls.push(
            (
                String::from_str("/drives/rootfs"),
                drive_body("rootfs", config.rootfs_path.as_str(), false),
            ),
        );
        calls.push(
            (String::from_str("/vsock"), vsock_body(GUEST_CID, self.vsock_path.as_str())),
        );
        proof {
            reveal_strlit("rootfs");
        }
        self.phase = VmPhase::Configured;
        calls
    }

    /// The start call. Moves the instance to the running phase; the
    /// caller then waits on the virtio socket with the vsock budget.
    pub fn start(&mut self) -> (r: (String, String))
        requires
            old(self).phase == VmPhase::Configured,
        ensures
            final(self).phase == VmPhase::Running,
            final(self).api_socket_path == old(self).api_socket_path,
            final(self).vsock_path == old(self).vsock_path,
            r.0@ == "/actions"@,
            r.1@ == actions_body_spec("InstanceStart"@),
    {
        self.phase = VmPhase::Running;
        (String::from_str("/actions"), actions_body("InstanceStart"))
    }

    /// What a shutdown must do: from the running phase, send the
    /// graceful action and then kill and unlink; from any other
    /// phase there is nothing to send, only the files to unlink. A
    /// second call sends nothing. Idempotent by construction.
    pub fn shutdown(&mut self) -> (r: Option<(String, String)>)
        ensures
            final(self).phase == VmPhase::ShutDown,
            final(self).api_socket_path == old(self).api_socket_path,
            final(self).vsock_path == old(self).vsock_path,
            old(self).phase == VmPhase::Running ==> (r matches Some(call) && call.0@ == "/actions"@
                && call.1@ == actions_body_spec("SendCtrlAltDel"@)),
            old(self).phase != VmPhase::Running ==> r is None,
            final(self).phase == vm_shutdown_transition(old(self).phase).0,
            ({
                let spec_call = vm_shutdown_transition(old(self).phase).1;
                match r {
                    Some(call) => spec_call == Some((call.0@, call.1@)),
                    None => spec_call is None,
                }
            }),
    {
        let r = if self.phase == VmPhase::Running {
            Some((String::from_str("/actions"), actions_body("SendCtrlAltDel")))
        } else {
            None
        };
        self.phase = VmPhase::ShutDown;
        r
    }
}

/// What one shutdown sends, as a function of the phase: the
/// graceful action from the running phase, nothing from any other.
pub open spec fn vm_shutdown_command(phase: VmPhase) -> Option<(Seq<char>, Seq<char>)> {
    if phase == VmPhase::Running {
        Some(("/actions"@, actions_body_spec("SendCtrlAltDel"@)))
    } else {
        None
    }
}

/// One shutdown as a state transition: the phase after the call,
/// and what the call sends.
pub open spec fn vm_shutdown_transition(phase: VmPhase) -> (
    VmPhase,
    Option<(Seq<char>, Seq<char>)>,
) {
    (VmPhase::ShutDown, vm_shutdown_command(phase))
}

/// Shutdown is idempotent: whatever phase the first call found, it
/// leaves the shut-down phase behind, so a second call sends
/// nothing and changes nothing.
pub proof fn lemma_vm_shutdown_idempotent(phase: VmPhase)
    ensures
        vm_shutdown_transition(vm_shutdown_transition(phase).0).1 is None,
        vm_shutdown_transition(vm_shutdown_transition(phase).0).0 == vm_shutdown_transition(
            phase,
        ).0,
{
}

/// What the microVM backend supports: a native Linux guest with a
/// persistent filesystem, and networking as configured.
pub open spec fn firecracker_caps(enable_networking: bool) -> BackendCapabilities {
    BackendCapabilities { native_linux: true, networking: enable_networking, persistent_fs: true }
}

/// Capability discovery for the backend, a function of the
/// configuration alone.
pub fn firecracker_capabilities(enable_networking: bool) -> (r: BackendCapabilities)
    ensures
        r == firecracker_caps(enable_networking),
{
    BackendCapabilities { native_linux: true, networking: enable_networking, persistent_fs: true }
}

/// Descriptive information about one running instance.
pub fn firecracker_info(instance_id: &str, vcpu_count: u8, enable_networking: bool) -> (r:
    crate::sandbox::SandboxInfo)
    ensures
        r.backend_type@ == "firecracker"@,
        r.instance_id matches Some(id) && id@ == instance_id@,
        r.running,
{
    let mut md: Vec<(String, String)> = Vec::new();
    let mut v: Vec<char> = Vec::new();
    push_u64(&mut v, vcpu_count as u64);
    md.push((String::from_str("vcpu_count"), chars_to_string(&v)));
    md.push(
        (
            String::from_str("networking"),
            if enable_networking {
                String::from_str("true")
            } else {
                String::from_str("false")
            },
        ),
    );
    crate::sandbox::SandboxInfo {
        backend_type: String::from_str("firecracker"),
        instance_id: Some(String::from_str(instance_id)),
        running: true,
        metadata: md,
    }
}

/// Identity and state as the hypervisor reports them.
#[derive(Debug)]
pub struct InstanceInfo {
    pub id: String,
    pub state: String,
    pub vmm_version: String,
}

} // verus!
