//! The remote-shell backend: commands run on a remote server, with
//! an optional multiplexed control connection held for the session.
//!
//! The environment rides along as `export` prefixes inside one
//! quoted argument, so values are escaped with the shell quote
//! trick; the client invocation itself happens outside.

use vstd::prelude::*;
use vstd::string::StringExecFns;

use crate::config::SshConfig;
use crate::error::BashletError;
use crate::sandbox::{strs_view, BackendCapabilities, SandboxInfo};
use crate::shell::sq_escape;
use crate::strconv::{chars_to_string, dec_digits, push_str_chars, push_u64};

verus! {

/// The `export` prefixes for an environment list, each ending with
/// a semicolon separator.
pub open spec fn export_parts(es: Seq<(Seq<char>, Seq<char>)>) -> Seq<char>
    decreases es.len(),
{
    if es.len() == 0 {
        Seq::empty()
    } else {
        "export "@ + es[0].0 + "='"@ + sq_escape(es[0].1) + "'; "@ + export_parts(
            es.subrange(1, es.len() as int),
        )
    }
}

/// The one argument handed to the remote shell: exports, a change
/// of directory that may fail quietly, then the command.
pub open spec fn remote_command_spec(
    es: Seq<(Seq<char>, Seq<char>)>,
    workdir: Seq<char>,
    command: Seq<char>,
) -> Seq<char> {
    export_parts(es) + "cd '"@ + workdir + "' 2>/dev/null || true; "@ + command
}

proof fn lemma_export_parts_snoc(es: Seq<(Seq<char>, Seq<char>)>, e: (Seq<char>, Seq<char>))
    ensures
        export_parts(es.push(e)) == export_parts(es) + ("export "@ + e.0 + "='"@ + sq_escape(e.1)
            + "'; "@),
    decreases es.len(),
{
    let one = "export "@ + e.0 + "='"@ + sq_escape(e.1) + "'; "@;
    if es.len() == 0 {
        assert(es.push(e)[0] == e);
        assert(es.push(e).subrange(1, 1) =~= Seq::<(Seq<char>, Seq<char>)>::empty());
        assert(export_parts(es.push(e)) == one + export_parts(
            Seq::<(Seq<char>, Seq<char>)>::empty(),
        ));
        assert(one + Seq::<char>::empty() =~= one);
        assert(export_parts(es) + one =~= one);
    } else {
        let tail = es.subrange(1, es.len() as int);
        assert(es.push(e).subrange(1, es.len() + 1 as int) =~= tail.push(e));
        lemma_export_parts_snoc(tail, e);
        assert(es.push(e)[0] == es[0]);
        let head = "export "@ + es[0].0 + "='"@ + sq_escape(es[0].1) + "'; "@;
        assert(export_parts(es.push(e)) == head + (export_parts(tail) + one));
        assert(export_parts(es) + one == (head + export_parts(tail)) + one);
        assert(head + (export_parts(tail) + one) =~= (head + export_parts(tail)) + one);
    }
}

/// The remote-shell backend's state: the destination and options,
/// and the control connection it may hold.
#[derive(Debug)]
pub struct SshBackend {
    pub host: String,
    pub port: u16,
    pub user: String,
    pub key_file: Option<String>,
    pub use_control_master: bool,
    pub connect_timeout: u64,
    pub env_vars: Vec<(String, String)>,
    pub workdir: String,
    /// The control socket path, while the multiplexed connection is
    /// up.
    pub control_path: Option<String>,
    /// Whether a connection has been established.
    pub connected: bool,
}

/// The backend assumes the remote end offers all three capabilities.
pub open spec fn ssh_caps() -> BackendCapabilities {
    BackendCapabilities { native_linux: true, networking: true, persistent_fs: true }
}

impl SshBackend {
    /// Validates the configuration and assembles the backend: host
    /// and user must be named. Probing the client binary and
    /// opening the connection happen outside.
    pub fn new(config: SshConfig, env_vars: Vec<(String, String)>, workdir: String) -> (r: Result<
        Self,
        BashletError,
    >)
        ensures
            config.host@.len() == 0 ==> (r matches Err(BashletError::BackendNotAvailable {
                backend,
                ..
            }) && backend@ == "ssh"@),
            config.host@.len() > 0 && config.user@.len() == 0 ==> (r matches Err(
                BashletError::BackendNotAvailable { backend, .. },
            ) && backend@ == "ssh"@),
            config.host@.len() > 0 && config.user@.len() > 0 ==> (r matches Ok(b) && b.host
                == config.host && b.port == config.port && b.user == config.user && b.key_file
                == config.key_file && b.use_control_master == config.use_control_master
                && b.connect_timeout == config.connect_timeout && b.env_vars == env_vars
                && b.workdir == workdir && b.control_path is None && !b.connected),
    {
        if config.host.as_str().unicode_len() == 0 {
            return Err(
                BashletError::BackendNotAvailable {
                    backend: String::from_str("ssh"),
                    reason: String::from_str(
                        "SSH host is not configured. Set ssh.host in config or environment.",
                    ),
                },
            );
        }
        if config.user.as_str().unicode_len() == 0 {
            return Err(
                BashletError::BackendNotAvailable {
                    backend: String::from_str("ssh"),
                    reason: String::from_str(
                        "SSH user is not configured. Set ssh.user in config or environment.",
                    ),
                },
            );
        }
        Ok(
            SshBackend {
                host: config.host,
                port: config.port,
                user: config.user,
                key_file: config.key_file,
                use_control_master: config.use_control_master,
                connect_timeout: config.connect_timeout,
                env_vars,
                workdir,
                control_path: None,
                connected: false,
            },
        )
    }

    /// The backend's name.
    pub fn name(&self) -> (r: &'static str)
        ensures
            r@ == "ssh"@,
    {
        "ssh"
    }

    /// The capabilities; fixed for every instance.
    pub fn capabilities(&self) -> (r: BackendCapabilities)
        ensures
            r == ssh_caps(),
    {
        BackendCapabilities { native_linux: true, networking: true, persistent_fs: true }
    }

    /// The `user@host` destination.
    pub fn destination(&self) -> (r: String)
        ensures
            r@ == self.user@ + "@"@ + self.host@,
    {
        let mut out: Vec<char> = Vec::new();
        push_str_chars(&mut out, self.user.as_str());
        out.push('@');
        push_str_chars(&mut out, self.host.as_str());
        proof {
            reveal_strlit("@");
            assert(out@ =~= self.user@ + "@"@ + self.host@);
        }
        chars_to_string(&out)
    }

    /// The stored control socket path, if the multiplexed
    /// connection is up.
    pub fn get_control_path(&self) -> (r: Option<String>)
        ensures
            r == self.control_path,
    {
        match &self.control_path {
            Some(p) => Some(p.clone()),
            None => None,
        }
    }

    /// Records the control connection opened outside.
    pub fn set_connected(&mut self, control_path: Option<String>)
        ensures
            final(self).control_path == control_path,
            final(self).connected,
            final(self).host == old(self).host,
            final(self).user == old(self).user,
            final(self).use_control_master == old(self).use_control_master,
    {
        self.control_path = control_path;
        self.connected = true;
    }

    /// The remote command carrying the environment and working
    /// directory: `export K='V'` for each entry, a quiet `cd`, then
    /// the command itself, joined by semicolons.
    pub fn build_remote_command(&self, command: &str) -> (r: String)
        ensures
            r@ == remote_command_spec(
                crate::session::env_view(self.env_vars@),
                self.workdir@,
                command@,
            ),
    {
        let ghost evs = crate::session::env_view(self.env_vars@);
        let mut out: Vec<char> = Vec::new();
        let mut k: usize = 0;
        while k < self.env_vars.len()
            invariant
                k <= self.env_vars@.len(),
                evs == crate::session::env_view(self.env_vars@),
                out@ == export_parts(evs.subrange(0, k as int)),
            decreases self.env_vars@.len() - k,
        {
            let ghost pre = evs.subrange(0, k as int);
            let ghost out0 = out@;
            push_str_chars(&mut out, "export ");
            push_str_chars(&mut out, self.env_vars[k].0.as_str());
            push_str_chars(&mut out, "='");
            crate::shell::push_sq_escaped(&mut out, self.env_vars[k].1.as_str());
            push_str_chars(&mut out, "'; ");
            proof {
                lemma_export_parts_snoc(pre, evs[k as int]);
                assert(evs.subrange(0, k + 1 as int) =~= pre.push(evs[k as int]));
                assert(out@ =~= export_parts(evs.subrange(0, k + 1 as int)));
            }
            k += 1;
        }
        proof {
            assert(evs.subrange(0, evs.len() as int) =~= evs);
        }
        push_str_chars(&mut out, "cd '");
        push_str_chars(&mut out, self.workdir.as_str());
        push_str_chars(&mut out, "' 2>/dev/null || true; ");
        push_str_chars(&mut out, command);
        proof {
            assert(out@ =~= remote_command_spec(evs, self.workdir@, command@));
        }
        chars_to_string(&out)
    }

    /// The connection options every invocation carries.
    fn push_connection_args(&self, args: &mut Vec<String>)
        ensures
            strs_view(final(args)@) == strs_view(old(args)@) + connection_args_spec(
                self.connect_timeout as nat,
                self.port as nat,
                crate::session::opt_view(self.key_file),
            ),
    {
        push_arg(args, String::from_str("-o"));
        let mut t: Vec<char> = Vec::new();
        push_str_chars(&mut t, "ConnectTimeout=");
        push_u64(&mut t, self.connect_timeout);
        push_arg(args, chars_to_string(&t));
        push_arg(args, String::from_str("-o"));
        push_arg(args, String::from_str("BatchMode=yes"));
        push_arg(args, String::from_str("-o"));
        push_arg(args, String::from_str("StrictHostKeyChecking=accept-new"));
        push_arg(args, String::from_str("-p"));
        let mut p: Vec<char> = Vec::new();
        push_u64(&mut p, self.port as u64);
        push_arg(args, chars_to_string(&p));
        match &self.key_file {
            Some(key) => {
                push_arg(args, String::from_str("-i"));
                push_arg(args, key.clone());
            },
            None => {},
        }
        proof {
            assert(strs_view(args@) =~= strs_view(old(args)@) + connection_args_spec(
                self.connect_timeout as nat,
                self.port as nat,
                crate::session::opt_view(self.key_file),
            ));
        }
    }

    /// The argument list for one `execute`: the control socket when
    /// one is up, the connection options, the destination, and the
    /// built remote command.
    pub fn execute_args(&self, command: &str) -> (r: Vec<String>)
        ensures
            strs_view(r@) == (match crate::session::opt_view(self.control_path) {
                Some(ctl) => seq!["-S"@, ctl],
                None => Seq::empty(),
            }) + connection_args_spec(
                self.connect_timeout as nat,
                self.port as nat,
                crate::session::opt_view(self.key_file),
            ) + seq![
                self.user@ + "@"@ + self.host@,
                remote_command_spec(
                    crate::session::env_view(self.env_vars@),
                    self.workdir@,
                    command@,
                ),
            ],
    {
        let mut args: Vec<String> = Vec::new();
        match &self.control_path {
            Some(ctl) => {
                push_arg(&mut args, String::from_str("-S"));
                push_arg(&mut args, ctl.clone());
            },
            None => {},
        }
        self.push_connection_args(&mut args);
        push_arg(&mut args, self.destination());
        push_arg(&mut args, self.build_remote_command(command));
        proof {
            assert(strs_view(args@) =~= (match crate::session::opt_view(self.control_path) {
                Some(ctl) => seq!["-S"@, ctl],
                None => Seq::<Seq<char>>::empty(),
            }) + connection_args_spec(
                self.connect_timeout as nat,
                self.port as nat,
                crate::session::opt_view(self.key_file),
            ) + seq![
                self.user@ + "@"@ + self.host@,
                remote_command_spec(
                    crate::session::env_view(self.env_vars@),
                    self.workdir@,
                    command@,
                ),
            ]);
        }
        args
    }

    /// The argument list that opens the multiplexed control
    /// connection: master mode on the given socket, kept alive, the
    /// connection options, then a trivial remote command.
    pub fn control_master_args(&self, control_path: &str) -> (r: Vec<String>)
        ensures
            strs_view(r@) == seq!["-M"@, "-S"@, control_path@, "-o"@, "ControlPersist=yes"@]
                + connection_args_spec(
                self.connect_timeout as nat,
                self.port as nat,
                crate::session::opt_view(self.key_file),
            ) + seq![self.user@ + "@"@ + self.host@, "exit"@, "0"@],
    {
        let mut args: Vec<String> = Vec::new();
        push_arg(&mut args, String::from_str("-M"));
        push_arg(&mut args, String::from_str("-S"));
        push_arg(&mut args, String::from_str(control_path));
        push_arg(&mut args, String::from_str("-o"));
        push_arg(&mut args, String::from_str("ControlPersist=yes"));
        self.push_connection_args(&mut args);
        push_arg(&mut args, self.destination());
        push_arg(&mut args, String::from_str("exit"));
        push_arg(&mut args, String::from_str("0"));
        proof {
            assert(strs_view(args@) =~= seq![
                "-M"@,
                "-S"@,
                control_path@,
                "-o"@,
                "ControlPersist=yes"@,
            ] + connection_args_spec(
                self.connect_timeout as nat,
                self.port as nat,
                crate::session::opt_view(self.key_file),
            ) + seq![self.user@ + "@"@ + self.host@, "exit"@, "0"@]);
        }
        args
    }

    /// What a shutdown must run: with a control connection up, the
    /// argument list that closes it, clearing the stored state; a
    /// second call finds nothing to do. Idempotent by construction.
    pub fn shutdown_args(&mut self) -> (r: Option<Vec<String>>)
        ensures
            final(self).control_path is None,
            !final(self).connected,
            final(self).host == old(self).host,
            final(self).user == old(self).user,
            final(self).use_control_master == old(self).use_control_master,
            match old(self).control_path {
                Some(ctl) => (old(self).use_control_master ==> (r matches Some(args) && strs_view(
                    args@,
                ) == seq!["-S"@, ctl@, "-O"@, "exit"@, old(self).user@ + "@"@ + old(self).host@]))
                    && (!old(self).use_control_master ==> r is None),
                None => r is None,
            },
            ({
                let spec_cmds = ssh_shutdown_transition(
                    old(self).use_control_master,
                    crate::session::opt_view(old(self).control_path),
                    old(self).user@,
                    old(self).host@,
                ).1;
                match r {
                    Some(args) => spec_cmds == Some(strs_view(args@)),
                    None => spec_cmds is None,
                }
            }),
    {
        let r = if self.use_control_master {
            match &self.control_path {
                Some(ctl) => {
                    let mut args: Vec<String> = Vec::new();
                    push_arg(&mut args, String::from_str("-S"));
                    push_arg(&mut args, ctl.clone());
                    push_arg(&mut args, String::from_str("-O"));
                    push_arg(&mut args, String::from_str("exit"));
                    push_arg(&mut args, self.destination());
                    proof {
                        assert(strs_view(args@) =~= seq![
                            "-S"@,
                            old(self).control_path.unwrap()@,
                            "-O"@,
                            "exit"@,
                            old(self).user@ + "@"@ + old(self).host@,
                        ]);
                    }
                    Some(args)
                },
                None => None,
            }
        } else {
            None
        };
        self.control_path = None;
        self.connected = false;
        r
    }

    /// Descriptive information about the instance.
    pub fn info(&self) -> (r: SandboxInfo)
        ensures
            r.backend_type@ == "ssh"@,
            r.running == self.connected,
    {
        let mut dest: Vec<char> = Vec::new();
        push_str_chars(&mut dest, self.user.as_str());
        dest.push('@');
        push_str_chars(&mut dest, self.host.as_str());
        dest.push(':');
        push_u64(&mut dest, self.port as u64);
        let mut md: Vec<(String, String)> = Vec::new();
        md.push((String::from_str("host"), self.host.clone()));
        md.push((String::from_str("user"), self.user.clone()));
        md.push((String::from_str("workdir"), self.workdir.clone()));
        SandboxInfo {
            backend_type: String::from_str("ssh"),
            instance_id: Some(chars_to_string(&dest)),
            running: self.connected,
            metadata: md,
        }
    }
}

/// What one shutdown commands, as a function of the multiplexing
/// flag and the stored control-socket path: the close invocation
/// when a multiplexed connection is up, nothing otherwise.
pub open spec fn ssh_shutdown_commands(
    use_control_master: bool,
    control_path: Option<Seq<char>>,
    user: Seq<char>,
    host: Seq<char>,
) -> Option<Seq<Seq<char>>> {
    match control_path {
        Some(ctl) => if use_control_master {
            Some(seq!["-S"@, ctl, "-O"@, "exit"@, user + "@"@ + host])
        } else {
            None
        },
        None => None,
    }
}

/// One shutdown as a state transition: the stored control path
/// after the call, and what the call commands.
pub open spec fn ssh_shutdown_transition(
    use_control_master: bool,
    control_path: Option<Seq<char>>,
    user: Seq<char>,
    host: Seq<char>,
) -> (Option<Seq<char>>, Option<Seq<Seq<char>>>) {
    (None, ssh_shutdown_commands(use_control_master, control_path, user, host))
}

/// Shutdown is idempotent: whatever the first call found, it leaves
/// no stored control path behind, so a second call commands nothing
/// and changes nothing.
pub proof fn lemma_ssh_shutdown_idempotent(
    use_control_master: bool,
    control_path: Option<Seq<char>>,
    user: Seq<char>,
    host: Seq<char>,
)
    ensures
        ssh_shutdown_transition(
            use_control_master,
            ssh_shutdown_transition(use_control_master, control_path, user, host).0,
            user,
            host,
        ).1 is None,
        ssh_shutdown_transition(
            use_control_master,
            ssh_shutdown_transition(use_control_master, control_path, user, host).0,
            user,
            host,
        ).0 == ssh_shutdown_transition(use_control_master, control_path, user, host).0,
{
}

/// The connection options shared by every invocation: the timeout,
/// batch mode, key acceptance, the port, and the identity file when
/// one is set.
pub open spec fn connection_args_spec(
    connect_timeout: nat,
    port: nat,
    key_file: Option<Seq<char>>,
) -> Seq<Seq<char>> {
    seq![
        "-o"@,
        "ConnectTimeout="@ + dec_digits(connect_timeout),
        "-o"@,
        "BatchMode=yes"@,
        "-o"@,
        "StrictHostKeyChecking=accept-new"@,
        "-p"@,
        dec_digits(port),
    ] + (match key_file {
        Some(k) => seq!["-i"@, k],
        None => Seq::empty(),
    })
}

/// The control socket path for one process talking to one
/// destination.
pub fn control_socket_path(tmp_dir: &str, user: &str, host: &str, pid: u64) -> (r: String)
    ensures
        r@ == tmp_dir@ + "/bashlet-ssh-"@ + user@ + "-"@ + host@ + "-"@ + dec_digits(pid as nat)
            + ".sock"@,
{
    let mut out: Vec<char> = Vec::new();
    push_str_chars(&mut out, tmp_dir);
    push_str_chars(&mut out, "/bashlet-ssh-");
    push_str_chars(&mut out, user);
    push_str_chars(&mut out, "-");
    push_str_chars(&mut out, host);
    push_str_chars(&mut out, "-");
    push_u64(&mut out, pid);
    push_str_chars(&mut out, ".sock");
    proof {
        assert(out@ =~= tmp_dir@ + "/bashlet-ssh-"@ + user@ + "-"@ + host@ + "-"@ + dec_digits(
            pid as nat,
        ) + ".sock"@);
    }
    chars_to_string(&out)
}

/// Appends one argument.
fn push_arg(args: &mut Vec<String>, s: String)
    ensures
        strs_view(final(args)@) == strs_view(old(args)@).push(s@),
{
    let ghost sv = s@;
    args.push(s);
    proof {
        assert(strs_view(args@) =~= strs_view(old(args)@).push(sv));
    }
}

} // verus!
