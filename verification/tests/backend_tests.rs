use bashlet::args::Mount;
use bashlet::config::{BackendType, DockerConfig, SshConfig};
use bashlet::docker::DockerBackend;
use bashlet::error::BashletError;
use bashlet::factory::{available_backends, resolve_backend_type};
use bashlet::firecracker::{
    actions_body, boot_source_body, drive_body, generate_instance_id, machine_config_body,
    vsock_body, AssetManager, SocketWait, VmPhase, VmState, VMConfig,
};
use bashlet::sandbox::{check_mounts, health_check_passed, CommandResult};
use bashlet::shell::{read_file_command, write_file_command};
use bashlet::ssh::SshBackend;
use bashlet::wasmer::WasmerBackend;

fn docker_backend(session_mode: bool) -> DockerBackend {
    DockerBackend::new(
        DockerConfig { image: None, build_image: true, enable_networking: false, session_mode },
        vec![Mount {
            host_path: "/tmp".to_string(),
            guest_path: "/workspace".to_string(),
            readonly: false,
        }],
        vec![("K".to_string(), "V".to_string())],
        "/workspace".to_string(),
        256,
    )
}

#[test]
fn capabilities_stay_constant_over_a_lifetime() {
    let mut b = docker_backend(true);
    let before = b.capabilities();
    b.set_container_id("abc123".to_string());
    let during = b.capabilities();
    let _ = b.shutdown_args();
    let after = b.capabilities();
    assert_eq!(before.native_linux, during.native_linux);
    assert_eq!(before.networking, during.networking);
    assert_eq!(before.persistent_fs, during.persistent_fs);
    assert_eq!(before.networking, after.networking);
    assert_eq!(before.persistent_fs, after.persistent_fs);
}

#[test]
fn health_check_is_exit_code_zero() {
    let ok = CommandResult { stdout: "ok\n".to_string(), stderr: String::new(), exit_code: 0 };
    let bad = CommandResult { stdout: String::new(), stderr: "no".to_string(), exit_code: 3 };
    assert!(health_check_passed(&ok));
    assert!(!health_check_passed(&bad));
}

#[test]
fn missing_mount_fails_with_its_path() {
    let mounts = vec![
        Mount { host_path: "/exists".to_string(), guest_path: "/a".to_string(), readonly: false },
        Mount { host_path: "/gone".to_string(), guest_path: "/b".to_string(), readonly: true },
    ];
    match check_mounts(&mounts, &vec![true, false]) {
        Err(BashletError::MountPathNotFound { path }) => assert_eq!(path, "/gone"),
        other => panic!("expected MountPathNotFound, got {:?}", other),
    }
    assert!(check_mounts(&mounts, &vec![true, true]).is_ok());
}

#[test]
fn container_execute_uses_run_rm_without_id_and_exec_with_id() {
    let mut b = docker_backend(true);
    let stateless = b.execute_args("ls", &vec![true]).expect("args");
    assert_eq!(stateless[0], "run");
    assert_eq!(stateless[1], "--rm");
    assert!(stateless.contains(&"--network=none".to_string()));
    assert!(stateless.contains(&"--memory=256m".to_string()));
    assert!(stateless.contains(&"/tmp:/workspace:rw".to_string()));
    assert!(stateless.contains(&"K=V".to_string()));
    assert_eq!(stateless.last().unwrap(), "ls");

    b.set_container_id("cid42".to_string());
    let injected = b.execute_args("ls", &vec![true]).expect("args");
    assert_eq!(injected[0], "exec");
    assert!(injected.contains(&"cid42".to_string()));
    assert_eq!(injected.last().unwrap(), "ls");
}

#[test]
fn container_shutdown_is_idempotent() {
    let mut b = docker_backend(true);
    b.set_container_id("cid".to_string());
    let first = b.shutdown_args().expect("stop and remove");
    assert_eq!(first.0, vec!["stop".to_string(), "cid".to_string()]);
    assert_eq!(first.1, vec!["rm".to_string(), "-f".to_string(), "cid".to_string()]);
    assert!(b.shutdown_args().is_none());
    assert!(b.shutdown_args().is_none());
}

#[test]
fn ssh_backend_requires_host_and_user() {
    let empty = SshConfig {
        host: String::new(),
        port: 22,
        user: "me".to_string(),
        key_file: None,
        use_control_master: true,
        connect_timeout: 30,
    };
    assert!(matches!(
        SshBackend::new(empty, vec![], "/".to_string()),
        Err(BashletError::BackendNotAvailable { .. })
    ));
    let full = SshConfig {
        host: "h".to_string(),
        port: 2222,
        user: "me".to_string(),
        key_file: None,
        use_control_master: true,
        connect_timeout: 30,
    };
    let b = SshBackend::new(full, vec![], "/".to_string()).expect("valid");
    assert_eq!(b.destination(), "me@h");
}

#[test]
fn ssh_remote_command_escapes_quotes() {
    let cfg = SshConfig {
        host: "h".to_string(),
        port: 22,
        user: "u".to_string(),
        key_file: None,
        use_control_master: false,
        connect_timeout: 30,
    };
    let b = SshBackend::new(
        cfg,
        vec![("GREETING".to_string(), "it's me".to_string())],
        "/srv".to_string(),
    )
    .expect("valid");
    let cmd = b.build_remote_command("echo hi");
    assert_eq!(
        cmd,
        "export GREETING='it'\"'\"'s me'; cd '/srv' 2>/dev/null || true; echo hi"
    );
}

#[test]
fn ssh_shutdown_is_idempotent() {
    let cfg = SshConfig {
        host: "h".to_string(),
        port: 22,
        user: "u".to_string(),
        key_file: None,
        use_control_master: true,
        connect_timeout: 30,
    };
    let mut b = SshBackend::new(cfg, vec![], "/".to_string()).expect("valid");
    b.set_connected(Some("/tmp/ctl.sock".to_string()));
    let close = b.shutdown_args().expect("close the control connection");
    assert_eq!(
        close,
        vec!["-S", "/tmp/ctl.sock", "-O", "exit", "u@h"]
            .into_iter()
            .map(|s| s.to_string())
            .collect::<Vec<_>>()
    );
    assert!(b.shutdown_args().is_none());
}

#[test]
fn write_and_read_commands_take_the_escape_contract() {
    assert_eq!(
        write_file_command("/tmp/f", "it's a \\ test"),
        "printf '%s' 'it'\"'\"'s a \\\\ test' > '/tmp/f'"
    );
    assert_eq!(read_file_command("/tmp/f"), "cat '/tmp/f'");
}

#[test]
fn wasm_run_arguments_are_exact() {
    let b = WasmerBackend::new(
        "wasmer".to_string(),
        "/cache/bash.webc".to_string(),
        vec![Mount {
            host_path: "/src".to_string(),
            guest_path: "/workspace".to_string(),
            readonly: false,
        }],
        vec![("A".to_string(), "1".to_string())],
        "/workspace".to_string(),
    );
    let args = b.execute_args("true", &vec![true]).expect("args");
    assert_eq!(
        args,
        vec![
            "run",
            "--mapdir",
            "/workspace:/src",
            "--env",
            "A=1",
            "/cache/bash.webc",
            "--",
            "-c",
            "true",
        ]
        .into_iter()
        .map(|s| s.to_string())
        .collect::<Vec<_>>()
    );
    let caps = b.capabilities();
    assert!(!caps.native_linux && !caps.networking && !caps.persistent_fs);
}

#[test]
fn auto_selection_falls_back_to_wasm() {
    // a host with no hypervisor and no container daemon but a WASM
    // runtime
    assert!(matches!(
        resolve_backend_type(&BackendType::Auto, false, false, true),
        Ok(BackendType::Wasmer)
    ));
    assert!(matches!(
        resolve_backend_type(&BackendType::Auto, true, true, true),
        Ok(BackendType::Firecracker)
    ));
    assert!(matches!(
        resolve_backend_type(&BackendType::Auto, false, true, true),
        Ok(BackendType::Docker)
    ));
    match resolve_backend_type(&BackendType::Auto, false, false, false) {
        Err(BashletError::BackendNotAvailable { backend, .. }) => assert_eq!(backend, "auto"),
        other => panic!("expected BackendNotAvailable, got {:?}", other),
    }
    assert!(matches!(
        resolve_backend_type(&BackendType::Firecracker, false, true, true),
        Err(BashletError::BackendNotAvailable { .. })
    ));
}

#[test]
fn backend_listing_reports_availability() {
    let rows = available_backends(false, true, true);
    assert_eq!(rows.len(), 3);
    assert_eq!(rows[0].name, "wasmer");
    assert!(rows[0].available && rows[0].unavailable_reason.is_none());
    assert_eq!(rows[1].name, "firecracker");
    assert!(!rows[1].available && rows[1].unavailable_reason.is_some());
    assert_eq!(rows[2].name, "docker");
    assert!(rows[2].available);
}

#[test]
fn boot_wait_fails_only_after_the_budget() {
    let mut w = SocketWait::new(50);
    for _ in 0..49 {
        assert!(w.step(false).is_none());
    }
    match w.step(false) {
        Some(Err(BashletError::VMBootFailed(_))) => {}
        other => panic!("expected VMBootFailed, got {:?}", other.map(|r| r.is_ok())),
    }
    let mut quick = SocketWait::new(50);
    assert!(matches!(quick.step(true), Some(Ok(()))));
}

#[test]
fn hypervisor_bodies_are_wire_exact() {
    assert_eq!(
        boot_source_body("/k/vmlinux.bin", "console=ttyS0"),
        r#"{"kernel_image_path":"/k/vmlinux.bin","boot_args":"console=ttyS0"}"#
    );
    assert_eq!(
        machine_config_body(2, 256),
        r#"{"vcpu_count":2,"mem_size_mib":256}"#
    );
    assert_eq!(
        drive_body("rootfs", "/r.ext4", false),
        r#"{"drive_id":"rootfs","path_on_host":"/r.ext4","is_root_device":true,"is_read_only":false}"#
    );
    assert_eq!(
        drive_body("data", "/d.ext4", true),
        r#"{"drive_id":"data","path_on_host":"/d.ext4","is_root_device":false,"is_read_only":true}"#
    );
    assert_eq!(
        vsock_body(3, "/tmp/v.sock"),
        r#"{"guest_cid":3,"uds_path":"/tmp/v.sock"}"#
    );
    assert_eq!(actions_body("InstanceStart"), r#"{"action_type":"InstanceStart"}"#);
}

#[test]
fn vm_lifecycle_configures_starts_and_shuts_down_once() {
    let mut vm = VmState::new("/tmp/api.sock".to_string(), "/tmp/api.vsock".to_string());
    let calls = vm.configure(&VMConfig {
        kernel_path: "/k".to_string(),
        rootfs_path: "/r".to_string(),
        vcpu_count: 1,
        memory_mb: 128,
        boot_args: "quiet".to_string(),
    });
    assert_eq!(calls.len(), 4);
    assert_eq!(calls[0].0, "/boot-source");
    assert_eq!(calls[3].0, "/vsock");
    assert!(calls[3].1.contains("/tmp/api.vsock"));
    assert_eq!(vm.phase, VmPhase::Configured);
    let (path, body) = vm.start();
    assert_eq!(path, "/actions");
    assert_eq!(body, r#"{"action_type":"InstanceStart"}"#);
    let graceful = vm.shutdown().expect("first shutdown sends the action");
    assert_eq!(graceful.1, r#"{"action_type":"SendCtrlAltDel"}"#);
    assert!(vm.shutdown().is_none());
}

#[test]
fn instance_assets_live_under_the_cache() {
    let id = generate_instance_id(0xabc);
    assert_eq!(id, "vm-abc");
    let assets = AssetManager::new("/cache/fc".to_string());
    assert_eq!(assets.kernel_cache_path(), "/cache/fc/vmlinux.bin");
    assert_eq!(
        assets.instance_rootfs_path(&id),
        "/cache/fc/instances/vm-abc.rootfs.ext4"
    );
}

#[test]
fn mount_and_env_arguments_parse() {
    let m = bashlet::args::parse_mount("/a:/b:ro").expect("mount");
    assert_eq!(m.host_path, "/a");
    assert_eq!(m.guest_path, "/b");
    assert!(m.readonly);
    let rw = bashlet::args::parse_mount("/a:/b").expect("mount");
    assert!(!rw.readonly);
    assert!(bashlet::args::parse_mount("justapath").is_err());
    assert!(bashlet::args::parse_mount("/a:/b:rw").is_err());
    let (k, v) = bashlet::args::parse_env_var("K=V=W").expect("env");
    assert_eq!(k, "K");
    assert_eq!(v, "V=W");
    assert!(bashlet::args::parse_env_var("novalue").is_err());
}

#[test]
fn retryability_follows_the_error_kind() {
    assert!(BashletError::SandboxTimeout { seconds: 5 }.is_retryable());
    assert!(BashletError::VMCommunication("x".to_string()).is_retryable());
    assert!(BashletError::AssetDownload { url: "u".to_string() }.is_retryable());
    assert!(!BashletError::Config("c".to_string()).is_retryable());
    assert!(!BashletError::SessionNotFound { id: "i".to_string() }.is_retryable());
}

#[test]
fn prompt_carries_the_working_directory() {
    let p = bashlet::prompt::build_system_prompt("/workspace");
    assert!(p.contains("Your working directory is `/workspace`."));
    assert!(p.starts_with("You are an AI agent"));
}

#[test]
fn tilde_expands_against_the_given_home() {
    let home = Some("/home/me".to_string());
    assert_eq!(bashlet::config::expand_tilde("~/src", &home), "/home/me/src");
    assert_eq!(bashlet::config::expand_tilde("~", &home), "/home/me");
    assert_eq!(bashlet::config::expand_tilde("/abs", &home), "/abs");
    assert_eq!(bashlet::config::expand_tilde("~/src", &None), "~/src");
}

#[test]
fn preset_prepends_mounts_and_environment() {
    let mut config = bashlet::config::BashletConfig::default();
    config.presets.push((
        "py".to_string(),
        bashlet::config::PresetConfig {
            backend: None,
            setup_commands: vec!["true".to_string()],
            env_vars: vec![("P".to_string(), "1".to_string())],
            mounts: vec![("~/data".to_string(), "/data".to_string(), true)],
            workdir: Some("/data".to_string()),
            rootfs_image: None,
        },
    ));
    let home = Some("/home/me".to_string());
    let mut mounts = vec![];
    let mut env = vec![("Q".to_string(), "2".to_string())];
    let mut workdir = "/workspace".to_string();
    let mut sandbox = bashlet::config::SandboxConfig::default();
    let setup = bashlet::config::apply_preset("py", &config, &home, &mut mounts, &mut env, &mut workdir, &mut sandbox)
        .expect("known preset");
    assert_eq!(setup, vec!["true".to_string()]);
    assert_eq!(mounts.len(), 1);
    assert_eq!(mounts[0].host_path, "/home/me/data");
    assert!(mounts[0].readonly);
    assert_eq!(env[0], ("P".to_string(), "1".to_string()));
    assert_eq!(env[1], ("Q".to_string(), "2".to_string()));
    assert_eq!(workdir, "/data");
    assert!(matches!(
        bashlet::config::apply_preset("nope", &config, &home, &mut mounts, &mut env, &mut workdir, &mut sandbox),
        Err(bashlet::error::BashletError::Config(_))
    ));
}

#[test]
fn download_addresses_are_pinned() {
    assert_eq!(
        bashlet::wasmer::wasmer_download_url("linux", "x86_64").unwrap(),
        "https://github.com/wasmerio/wasmer/releases/download/v6.0.0/wasmer-linux-amd64.tar.gz"
    );
    assert_eq!(
        bashlet::wasmer::wasmer_download_url("macos", "aarch64").unwrap(),
        "https://github.com/wasmerio/wasmer/releases/download/v6.0.0/wasmer-darwin-arm64.tar.gz"
    );
    assert!(matches!(
        bashlet::wasmer::wasmer_download_url("plan9", "x86_64"),
        Err(BashletError::BackendNotAvailable { .. })
    ));
    assert_eq!(
        bashlet::firecracker::firecracker_binary_url("x86_64").unwrap(),
        "https://github.com/firecracker-microvm/firecracker/releases/download/v1.10.1/firecracker-v1.10.1-x86_64"
    );
    assert!(matches!(
        bashlet::firecracker::firecracker_binary_url("riscv64"),
        Err(BashletError::BackendNotAvailable { .. })
    ));
}

#[test]
fn runtime_binary_resolution_order() {
    assert!(matches!(
        bashlet::wasmer::wasmer_binary_source(true, "/c/w".to_string(), true, "linux", "x86_64"),
        Ok(bashlet::wasmer::WasmerSource::System)
    ));
    match bashlet::wasmer::wasmer_binary_source(false, "/c/w".to_string(), true, "linux", "x86_64") {
        Ok(bashlet::wasmer::WasmerSource::Cached(p)) => assert_eq!(p, "/c/w"),
        other => panic!("expected the cached binary, got {:?}", other),
    }
    match bashlet::wasmer::wasmer_binary_source(false, "/c/w".to_string(), false, "linux", "x86_64") {
        Ok(bashlet::wasmer::WasmerSource::Fetch { url, dest }) => {
            assert_eq!(
                url,
                "https://github.com/wasmerio/wasmer/releases/download/v6.0.0/wasmer-linux-amd64.tar.gz"
            );
            assert_eq!(dest, "/c/w");
        }
        other => panic!("expected a fetch, got {:?}", other),
    }
    assert!(matches!(
        bashlet::wasmer::wasmer_binary_source(false, "/c/w".to_string(), false, "plan9", "x86_64"),
        Err(BashletError::BackendNotAvailable { .. })
    ));
}

#[test]
fn exit_codes_default_to_unknown() {
    assert_eq!(bashlet::sandbox::exit_code_or_unknown(Some(7)), 7);
    assert_eq!(bashlet::sandbox::exit_code_or_unknown(Some(0)), 0);
    assert_eq!(bashlet::sandbox::exit_code_or_unknown(None), -1);
}

#[test]
fn hypervisor_replies_outside_2xx_carry_status_and_body() {
    assert!(bashlet::firecracker::hypervisor_reply_outcome(204, String::new()).is_ok());
    match bashlet::firecracker::hypervisor_reply_outcome(400, "bad body".to_string()) {
        Err(BashletError::FirecrackerApi { message, status }) => {
            assert_eq!(message, "bad body");
            assert_eq!(status, Some(400));
        }
        other => panic!("expected the API error, got {:?}", other),
    }
}
