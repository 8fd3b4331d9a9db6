//! The container backend: stateless runs that vanish on exit, or a
//! session container that commands are injected into.
//!
//! Everything here decides and builds — which subcommand runs, with
//! exactly which arguments — while the container tool itself is
//! invoked outside.

use vstd::prelude::*;
use vstd::string::StringExecFns;

use crate::args::Mount;
use crate::config::DockerConfig;
use crate::error::BashletError;
use crate::sandbox::{check_mounts, first_missing, strs_view, BackendCapabilities, SandboxInfo};
use crate::strconv::{chars_to_string, dec_digits, push_str_chars, push_u64};

verus! {

/// The `host:guest:mode` form of one volume argument.
pub open spec fn volume_arg(m: crate::args::MountV) -> Seq<char> {
    m.host_path + ":"@ + m.guest_path + ":"@ + (if m.readonly {
        "ro"@
    } else {
        "rw"@
    })
}

/// The `-v` pairs for a mount list.
pub open spec fn volume_args(ms: Seq<crate::args::MountV>) -> Seq<Seq<char>>
    decreases ms.len(),
{
    if ms.len() == 0 {
        Seq::empty()
    } else {
        seq!["-v"@, volume_arg(ms[0])] + volume_args(ms.subrange(1, ms.len() as int))
    }
}

/// The `-e` pairs for an environment list.
pub open spec fn env_args(es: Seq<(Seq<char>, Seq<char>)>) -> Seq<Seq<char>>
    decreases es.len(),
{
    if es.len() == 0 {
        Seq::empty()
    } else {
        seq!["-e"@, es[0].0 + "="@ + es[0].1] + env_args(es.subrange(1, es.len() as int))
    }
}

/// The isolation and memory flags shared by both run modes.
pub open spec fn base_flags(enable_networking: bool, memory_mb: nat) -> Seq<Seq<char>> {
    (if !enable_networking {
        seq!["--network=none"@]
    } else {
        Seq::empty()
    }) + seq!["--memory="@ + dec_digits(memory_mb) + "m"@]
}

/// A stateless run: a fresh container, removed when the command
/// ends.
pub open spec fn stateless_args_spec(
    image: Seq<char>,
    mounts: Seq<crate::args::MountV>,
    envs: Seq<(Seq<char>, Seq<char>)>,
    workdir: Seq<char>,
    memory_mb: nat,
    enable_networking: bool,
    command: Seq<char>,
) -> Seq<Seq<char>> {
    seq!["run"@, "--rm"@] + base_flags(enable_networking, memory_mb) + volume_args(mounts)
        + env_args(envs) + seq!["-w"@, workdir, image, command]
}

/// Starting a session container: detached, kept alive by an
/// endless tail.
pub open spec fn session_start_args_spec(
    image: Seq<char>,
    mounts: Seq<crate::args::MountV>,
    envs: Seq<(Seq<char>, Seq<char>)>,
    workdir: Seq<char>,
    memory_mb: nat,
    enable_networking: bool,
) -> Seq<Seq<char>> {
    seq!["run"@, "-d"@] + base_flags(enable_networking, memory_mb) + volume_args(mounts)
        + env_args(envs) + seq!["-w"@, workdir, image, "tail"@, "-f"@, "/dev/null"@]
}

/// Injecting one command into the session container.
pub open spec fn exec_args_spec(
    container_id: Seq<char>,
    envs: Seq<(Seq<char>, Seq<char>)>,
    workdir: Seq<char>,
    command: Seq<char>,
) -> Seq<Seq<char>> {
    seq!["exec"@, "-w"@, workdir] + env_args(envs) + seq![
        container_id,
        "sh"@,
        "-c"@,
        command,
    ]
}

proof fn lemma_volume_args_snoc(ms: Seq<crate::args::MountV>, m: crate::args::MountV)
    ensures
        volume_args(ms.push(m)) == volume_args(ms) + seq!["-v"@, volume_arg(m)],
    decreases ms.len(),
{
    if ms.len() == 0 {
        assert(ms.push(m)[0] == m);
        assert(ms.push(m).subrange(1, 1) =~= Seq::<crate::args::MountV>::empty());
        assert(volume_args(ms.push(m)) == seq!["-v"@, volume_arg(m)] + volume_args(
            Seq::<crate::args::MountV>::empty(),
        ));
        assert(seq!["-v"@, volume_arg(m)] + Seq::<Seq<char>>::empty() =~= seq![
            "-v"@,
            volume_arg(m),
        ]);
        assert(volume_args(ms) + seq!["-v"@, volume_arg(m)] =~= seq!["-v"@, volume_arg(m)]);
    } else {
        let tail = ms.subrange(1, ms.len() as int);
        assert(ms.push(m).subrange(1, ms.len() + 1 as int) =~= tail.push(m));
        lemma_volume_args_snoc(tail, m);
        assert(ms.push(m)[0] == ms[0]);
        assert(volume_args(ms.push(m)) == seq!["-v"@, volume_arg(ms[0])] + (volume_args(tail)
            + seq!["-v"@, volume_arg(m)]));
        assert(volume_args(ms) + seq!["-v"@, volume_arg(m)] == (seq!["-v"@, volume_arg(ms[0])]
            + volume_args(tail)) + seq!["-v"@, volume_arg(m)]);
        assert(seq!["-v"@, volume_arg(ms[0])] + (volume_args(tail) + seq!["-v"@, volume_arg(m)])
            =~= (seq!["-v"@, volume_arg(ms[0])] + volume_args(tail)) + seq![
            "-v"@,
            volume_arg(m),
        ]);
    }
}

proof fn lemma_env_args_snoc(es: Seq<(Seq<char>, Seq<char>)>, e: (Seq<char>, Seq<char>))
    ensures
        env_args(es.push(e)) == env_args(es) + seq!["-e"@, e.0 + "="@ + e.1],
    decreases es.len(),
{
    let one = seq!["-e"@, e.0 + "="@ + e.1];
    if es.len() == 0 {
        assert(es.push(e)[0] == e);
        assert(es.push(e).subrange(1, 1) =~= Seq::<(Seq<char>, Seq<char>)>::empty());
        assert(env_args(es.push(e)) == one + env_args(Seq::<(Seq<char>, Seq<char>)>::empty()));
        assert(one + Seq::<Seq<char>>::empty() =~= one);
        assert(env_args(es) + one =~= one);
    } else {
        let tail = es.subrange(1, es.len() as int);
        assert(es.push(e).subrange(1, es.len() + 1 as int) =~= tail.push(e));
        lemma_env_args_snoc(tail, e);
        assert(es.push(e)[0] == es[0]);
        let head = seq!["-e"@, es[0].0 + "="@ + es[0].1];
        assert(env_args(es.push(e)) == head + (env_args(tail) + one));
        assert(env_args(es) + one == (head + env_args(tail)) + one);
        assert(head + (env_args(tail) + one) =~= (head + env_args(tail)) + one);
    }
}

/// Appends one argument.
fn push_arg(args: &mut Vec<String>, s: String)
    ensures
        strs_view(final(args)@) == strs_view(old(args)@).push(s@),
{
    let ghost sv = s@;
    args.push(s);
    proof {
        assert(strs_view(args@) =~= strs_view(old(args)@).push(sv));
    }
}

/// Appends `-v host:guest:mode` pairs for every mount.
fn push_volume_args(args: &mut Vec<String>, mounts: &Vec<Mount>)
    ensures
        strs_view(final(args)@) == strs_view(old(args)@) + volume_args(
            mounts@.map_values(|m: Mount| m@),
        ),
{
    let ghost mvs = mounts@.map_values(|m: Mount| m@);
    let mut k: usize = 0;
    while k < mounts.len()
        invariant
            k <= mounts@.len(),
            mvs == mounts@.map_values(|m: Mount| m@),
            strs_view(args@) == strs_view(old(args)@) + volume_args(mvs.subrange(0, k as int)),
        decreases mounts@.len() - k,
    {
        let ghost pre = mvs.subrange(0, k as int);
        let ghost args0 = args@;
        push_arg(args, String::from_str("-v"));
        let mut a: Vec<char> = Vec::new();
        push_str_chars(&mut a, mounts[k].host_path.as_str());
        a.push(':');
        push_str_chars(&mut a, mounts[k].guest_path.as_str());
        a.push(':');
        if mounts[k].readonly {
            push_str_chars(&mut a, "ro");
        } else {
            push_str_chars(&mut a, "rw");
        }
        proof {
            reveal_strlit(":");
            reveal_strlit("ro");
            reveal_strlit("rw");
            assert(a@ =~= volume_arg(mvs[k as int]));
        }
        push_arg(args, chars_to_string(&a));
        proof {
            lemma_volume_args_snoc(pre, mvs[k as int]);
            assert(mvs.subrange(0, k + 1 as int) =~= pre.push(mvs[k as int]));
            assert(strs_view(args@) == strs_view(args0).push("-v"@).push(volume_arg(mvs[k as int])));
            assert(strs_view(args0).push("-v"@).push(volume_arg(mvs[k as int])) =~= strs_view(
                old(args)@,
            ) + volume_args(mvs.subrange(0, k + 1 as int)));
        }
        k += 1;
    }
    proof {
        assert(mvs.subrange(0, mvs.len() as int) =~= mvs);
    }
}

/// Appends `-e KEY=VALUE` pairs for every environment entry.
fn push_env_args(args: &mut Vec<String>, envs: &Vec<(String, String)>)
    ensures
        strs_view(final(args)@) == strs_view(old(args)@) + env_args(
            crate::session::env_view(envs@),
        ),
{
    let ghost evs = crate::session::env_view(envs@);
    let mut k: usize = 0;
    while k < envs.len()
        invariant
            k <= envs@.len(),
            evs == crate::session::env_view(envs@),
            strs_view(args@) == strs_view(old(args)@) + env_args(evs.subrange(0, k as int)),
        decreases envs@.len() - k,
    {
        let ghost pre = evs.subrange(0, k as int);
        let ghost args0 = args@;
        push_arg(args, String::from_str("-e"));
        let mut a: Vec<char> = Vec::new();
        push_str_chars(&mut a, envs[k].0.as_str());
        a.push('=');
        push_str_chars(&mut a, envs[k].1.as_str());
        proof {
            reveal_strlit("=");
            assert(a@ =~= evs[k as int].0 + "="@ + evs[k as int].1);
        }
        push_arg(args, chars_to_string(&a));
        proof {
            lemma_env_args_snoc(pre, evs[k as int]);
            assert(evs.subrange(0, k + 1 as int) =~= pre.push(evs[k as int]));
            assert(strs_view(args@) == strs_view(args0).push("-e"@).push(
                evs[k as int].0 + "="@ + evs[k as int].1,
            ));
            assert(strs_view(args0).push("-e"@).push(evs[k as int].0 + "="@ + evs[k as int].1)
                =~= strs_view(old(args)@) + env_args(evs.subrange(0, k + 1 as int)));
        }
        k += 1;
    }
    proof {
        assert(evs.subrange(0, evs.len() as int) =~= evs);
    }
}

/// Appends the shared isolation and memory flags.
fn push_base_flags(args: &mut Vec<String>, enable_networking: bool, memory_mb: u64)
    ensures
        strs_view(final(args)@) == strs_view(old(args)@) + base_flags(
            enable_networking,
            memory_mb as nat,
        ),
{
    if !enable_networking {
        push_arg(args, String::from_str("--network=none"));
    }
    let mut a: Vec<char> = Vec::new();
    push_str_chars(&mut a, "--memory=");
    push_u64(&mut a, memory_mb);
    push_str_chars(&mut a, "m");
    push_arg(args, chars_to_string(&a));
    proof {
        assert(strs_view(args@) =~= strs_view(old(args)@) + base_flags(
            enable_networking,
            memory_mb as nat,
        ));
    }
}

/// The container backend: either stateless (a fresh container per
/// command) or a session (one detached container, commands injected
/// with `exec`).
#[derive(Debug)]
pub struct DockerBackend {
    pub image: String,
    pub mounts: Vec<Mount>,
    pub env_vars: Vec<(String, String)>,
    pub workdir: String,
    pub memory_limit_mb: u64,
    pub enable_networking: bool,
    pub session_mode: bool,
    /// The running session container, once started.
    pub container_id: Option<String>,
}

/// What the backend supports: a full Linux environment, networking
/// as configured, and a persistent filesystem exactly in session
/// mode.
pub open spec fn docker_caps(enable_networking: bool, session_mode: bool) -> BackendCapabilities {
    BackendCapabilities {
        native_linux: true,
        networking: enable_networking,
        persistent_fs: session_mode,
    }
}

impl DockerBackend {
    /// Assembles the backend from its configuration; the stock image
    /// name stands in when none is configured. Probing the daemon
    /// and acquiring the image happen outside, before commands run.
    pub fn new(
        config: DockerConfig,
        mounts: Vec<Mount>,
        env_vars: Vec<(String, String)>,
        workdir: String,
        memory_limit_mb: u64,
    ) -> (r: Self)
        ensures
            match config.image {
                Some(img) => r.image == img,
                None => r.image@ == "bashlet-sandbox:latest"@,
            },
            r.mounts == mounts,
            r.env_vars == env_vars,
            r.workdir == workdir,
            r.memory_limit_mb == memory_limit_mb,
            r.enable_networking == config.enable_networking,
            r.session_mode == config.session_mode,
            r.container_id is None,
    {
        let image = match config.image {
            Some(img) => img,
            None => String::from_str("bashlet-sandbox:latest"),
        };
        DockerBackend {
            image,
            mounts,
            env_vars,
            workdir,
            memory_limit_mb,
            enable_networking: config.enable_networking,
            session_mode: config.session_mode,
            container_id: None,
        }
    }

    /// The backend's name.
    pub fn name(&self) -> (r: &'static str)
        ensures
            r@ == "docker"@,
    {
        "docker"
    }

    /// The capabilities, a function of the configuration alone.
    pub fn capabilities(&self) -> (r: BackendCapabilities)
        ensures
            r == docker_caps(self.enable_networking, self.session_mode),
    {
        BackendCapabilities {
            native_linux: true,
            networking: self.enable_networking,
            persistent_fs: self.session_mode,
        }
    }

    /// The stored session container id, if one is running.
    pub fn get_container_id(&self) -> (r: Option<String>)
        ensures
            r == self.container_id,
    {
        match &self.container_id {
            Some(id) => Some(id.clone()),
            None => None,
        }
    }

    /// Records the session container started outside.
    pub fn set_container_id(&mut self, id: String)
        ensures
            final(self).container_id == Some(id),
            final(self).image == old(self).image,
            final(self).enable_networking == old(self).enable_networking,
            final(self).session_mode == old(self).session_mode,
    {
        self.container_id = Some(id);
    }

    /// The argument list for one `execute`: with a session container
    /// set, an `exec` into it; without one, a `run --rm` whose
    /// mounts must all exist on the host.
    pub fn execute_args(&self, command: &str, mounts_exist: &Vec<bool>) -> (r: Result<
        Vec<String>,
        BashletError,
    >)
        requires
            mounts_exist@.len() == self.mounts@.len(),
        ensures
            match self.container_id {
                Some(id) => r matches Ok(args) && strs_view(args@) == exec_args_spec(
                    id@,
                    crate::session::env_view(self.env_vars@),
                    self.workdir@,
                    command@,
                ),
                None => match r {
                    Ok(args) => first_missing(mounts_exist@, 0) == -1 && strs_view(args@)
                        == stateless_args_spec(
                        self.image@,
                        self.mounts@.map_values(|m: Mount| m@),
                        crate::session::env_view(self.env_vars@),
                        self.workdir@,
                        self.memory_limit_mb as nat,
                        self.enable_networking,
                        command@,
                    ),
                    Err(e) => ({
                        let k = first_missing(mounts_exist@, 0);
                        &&& k >= 0
                        &&& (e matches BashletError::MountPathNotFound { path } && path@
                            == self.mounts@[k].host_path@)
                    }),
                },
            },
    {
        match &self.container_id {
            Some(id) => {
                let mut args: Vec<String> = Vec::new();
                push_arg(&mut args, String::from_str("exec"));
                push_arg(&mut args, String::from_str("-w"));
                push_arg(&mut args, self.workdir.clone());
                push_env_args(&mut args, &self.env_vars);
                push_arg(&mut args, id.clone());
                push_arg(&mut args, String::from_str("sh"));
                push_arg(&mut args, String::from_str("-c"));
                push_arg(&mut args, String::from_str(command));
                proof {
                    assert(strs_view(args@) =~= exec_args_spec(
                        self.container_id.unwrap()@,
                        crate::session::env_view(self.env_vars@),
                        self.workdir@,
                        command@,
                    ));
                }
                Ok(args)
            },
            None => {
                match check_mounts(&self.mounts, mounts_exist) {
                    Err(e) => Err(e),
                    Ok(_) => {
                        let mut args: Vec<String> = Vec::new();
                        push_arg(&mut args, String::from_str("run"));
                        push_arg(&mut args, String::from_str("--rm"));
                        push_base_flags(&mut args, self.enable_networking, self.memory_limit_mb);
                        push_volume_args(&mut args, &self.mounts);
                        push_env_args(&mut args, &self.env_vars);
                        push_arg(&mut args, String::from_str("-w"));
                        push_arg(&mut args, self.workdir.clone());
                        push_arg(&mut args, self.image.clone());
                        push_arg(&mut args, String::from_str(command));
                        proof {
                            assert(strs_view(args@) =~= stateless_args_spec(
                                self.image@,
                                self.mounts@.map_values(|m: Mount| m@),
                                crate::session::env_view(self.env_vars@),
                                self.workdir@,
                                self.memory_limit_mb as nat,
                                self.enable_networking,
                                command@,
                            ));
                        }
                        Ok(args)
                    },
                }
            },
        }
    }

    /// The argument list that starts the session container; its
    /// mounts must all exist on the host.
    pub fn session_start_args(&self, mounts_exist: &Vec<bool>) -> (r: Result<
        Vec<String>,
        BashletError,
    >)
        requires
            mounts_exist@.len() == self.mounts@.len(),
        ensures
            match r {
                Ok(args) => first_missing(mounts_exist@, 0) == -1 && strs_view(args@)
                    == session_start_args_spec(
                    self.image@,
                    self.mounts@.map_values(|m: Mount| m@),
                    crate::session::env_view(self.env_vars@),
                    self.workdir@,
                    self.memory_limit_mb as nat,
                    self.enable_networking,
                ),
                Err(e) => ({
                    let k = first_missing(mounts_exist@, 0);
                    &&& k >= 0
                    &&& (e matches BashletError::MountPathNotFound { path } && path@
                        == self.mounts@[k].host_path@)
                }),
            },
    {
        match check_mounts(&self.mounts, mounts_exist) {
            Err(e) => Err(e),
            Ok(_) => {
                let mut args: Vec<String> = Vec::new();
                push_arg(&mut args, String::from_str("run"));
                push_arg(&mut args, String::from_str("-d"));
                push_base_flags(&mut args, self.enable_networking, self.memory_limit_mb);
                push_volume_args(&mut args, &self.mounts);
                push_env_args(&mut args, &self.env_vars);
                push_arg(&mut args, String::from_str("-w"));
                push_arg(&mut args, self.workdir.clone());
                push_arg(&mut args, self.image.clone());
                push_arg(&mut args, String::from_str("tail"));
                push_arg(&mut args, String::from_str("-f"));
                push_arg(&mut args, String::from_str("/dev/null"));
                proof {
                    assert(strs_view(args@) =~= session_start_args_spec(
                        self.image@,
                        self.mounts@.map_values(|m: Mount| m@),
                        crate::session::env_view(self.env_vars@),
                        self.workdir@,
                        self.memory_limit_mb as nat,
                        self.enable_networking,
                    ));
                }
                Ok(args)
            },
        }
    }

    /// What a shutdown must run: with a session container set, its
    /// `stop` and `rm -f` argument lists, clearing the stored id; a
    /// second call finds nothing to do. Idempotent by construction.
    pub fn shutdown_args(&mut self) -> (r: Option<(Vec<String>, Vec<String>)>)
        ensures
            final(self).container_id is None,
            final(self).image == old(self).image,
            final(self).enable_networking == old(self).enable_networking,
            final(self).session_mode == old(self).session_mode,
            match old(self).container_id {
                Some(id) => r matches Some(p) && strs_view(p.0@) == seq!["stop"@, id@]
                    && strs_view(p.1@) == seq!["rm"@, "-f"@, id@],
                None => r is None,
            },
            ({
                let spec_cmds = docker_shutdown_transition(
                    crate::session::opt_view(old(self).container_id),
                ).1;
                match r {
                    Some(p) => spec_cmds == Some((strs_view(p.0@), strs_view(p.1@))),
                    None => spec_cmds is None,
                }
            }),
    {
        match &self.container_id {
            None => None,
            Some(id) => {
                let mut stop_args: Vec<String> = Vec::new();
                push_arg(&mut stop_args, String::from_str("stop"));
                push_arg(&mut stop_args, id.clone());
                let mut rm_args: Vec<String> = Vec::new();
                push_arg(&mut rm_args, String::from_str("rm"));
                push_arg(&mut rm_args, String::from_str("-f"));
                push_arg(&mut rm_args, id.clone());
                proof {
                    assert(strs_view(stop_args@) =~= seq!["stop"@, old(self).container_id.unwrap()@]);
                    assert(strs_view(rm_args@) =~= seq![
                        "rm"@,
                        "-f"@,
                        old(self).container_id.unwrap()@,
                    ]);
                }
                self.container_id = None;
                Some((stop_args, rm_args))
            },
        }
    }

    /// Descriptive information about the instance.
    pub fn info(&self) -> (r: SandboxInfo)
        ensures
            r.backend_type@ == "docker"@,
            r.instance_id == self.container_id,
            r.running == (!self.session_mode || self.container_id is Some),
    {
        SandboxInfo {
            backend_type: String::from_str("docker"),
            instance_id: self.get_container_id(),
            running: !self.session_mode || match &self.container_id {
                Some(_) => true,
                None => false,
            },
            metadata: {
                let mut md: Vec<(String, String)> = Vec::new();
                md.push((String::from_str("image"), self.image.clone()));
                md.push((String::from_str("workdir"), self.workdir.clone()));
                md.push(
                    (
                        String::from_str("networking"),
                        if self.enable_networking {
                            String::from_str("true")
                        } else {
                            String::from_str("false")
                        },
                    ),
                );
                md.push(
                    (
                        String::from_str("session_mode"),
                        if self.session_mode {
                            String::from_str("true")
                        } else {
                            String::from_str("false")
                        },
                    ),
                );
                md
            },
        }
    }
}

/// What one shutdown commands, as a function of the stored
/// container id: the `stop` and `rm -f` argument lists when one is
/// held, nothing otherwise.
pub open spec fn docker_shutdown_commands(id: Option<Seq<char>>) -> Option<
    (Seq<Seq<char>>, Seq<Seq<char>>),
> {
    match id {
        Some(i) => Some((seq!["stop"@, i], seq!["rm"@, "-f"@, i])),
        None => None,
    }
}

/// One shutdown as a state transition: the stored id after the
/// call, and what the call commands.
pub open spec fn docker_shutdown_transition(id: Option<Seq<char>>) -> (
    Option<Seq<char>>,
    Option<(Seq<Seq<char>>, Seq<Seq<char>>)>,
) {
    (None, docker_shutdown_commands(id))
}

/// Shutdown is idempotent: whatever the first call found, it leaves
/// no stored id behind, so a second call commands nothing and
/// changes nothing.
pub proof fn lemma_docker_shutdown_idempotent(id: Option<Seq<char>>)
    ensures
        docker_shutdown_transition(docker_shutdown_transition(id).0).1 is None,
        docker_shutdown_transition(docker_shutdown_transition(id).0).0
            == docker_shutdown_transition(id).0,
{
}

/// The capabilities never change over an instance's lifetime: they
/// are a function of the configuration fields, which no operation
/// writes — only the container id ever changes.
pub proof fn lemma_docker_capabilities_constant(a: DockerBackend, b: DockerBackend)
    requires
        a.enable_networking == b.enable_networking,
        a.session_mode == b.session_mode,
    ensures
        docker_caps(a.enable_networking, a.session_mode) == docker_caps(
            b.enable_networking,
            b.session_mode,
        ),
{
}

} // verus!
