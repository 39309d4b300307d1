use furukawa::command::HostCommand;
use furukawa::container::config::{Config, PortMapping, VolumeMount};
use furukawa::diagnostic::Diagnosable;
use furukawa::runtime::process_control::{kill_process, stop_container, stop_outcome, KillError};
use furukawa::runtime::start::{running_state, HostReply, StartAction, StartStage};
use furukawa::runtime::{
    guest_ip, make_bind_mount_command, make_chroot_command, make_direct_command,
    make_proxy_add_command, make_proxy_delete_command, ProcessRuntime, RuntimeError, WslRuntime,
};
use furukawa::wslpath::{resolve_guest_path, to_mounted_path, to_slashes};

fn strings(v: &[&str]) -> Vec<String> {
    v.iter().map(|s| s.to_string()).collect()
}

fn argv(c: &HostCommand) -> Vec<String> {
    let mut v = vec![c.program.clone()];
    v.extend(c.args.iter().cloned());
    v
}

fn runtime() -> WslRuntime {
    WslRuntime { containers_root: "C:\\data\\containers".to_string(), distro: "rustker-alpine".to_string() }
}

fn config() -> Config {
    Config {
        image: "alpine".to_string(),
        cmd: strings(&["nginx", "-g", "daemon off;"]),
        port_mappings: vec![PortMapping { container_port: 80, host_port: 18080, protocol: "tcp".to_string() }],
        volumes: vec![
            VolumeMount { host_path: "C:\\data".to_string(), container_path: "/data".to_string(), readonly: false },
            VolumeMount { host_path: "D:\\ro".to_string(), container_path: "/ro".to_string(), readonly: true },
        ],
        env: strings(&["A=1", "B=two"]),
        network: "bridge".to_string(),
    }
}

#[test]
fn drive_c_paths_are_mounted_under_mnt_c() {
    assert_eq!(to_mounted_path("C:\\X\\Y"), "/mnt/c/X/Y");
    assert_eq!(to_mounted_path("c:/x"), "/mnt/c/x");
    assert_eq!(to_mounted_path("D:\\X"), "D:/X");
    assert_eq!(to_mounted_path("/already/unix"), "/already/unix");
    assert_eq!(to_mounted_path("C:"), "C:");
    assert_eq!(to_slashes("a\\b\\c"), "a/b/c");
}

#[test]
fn wslpath_output_is_preferred_when_it_says_something() {
    assert_eq!(resolve_guest_path(Some("/mnt/d/work\n"), "D:\\work"), "/mnt/d/work");
    assert_eq!(resolve_guest_path(Some("  \n"), "C:\\work"), "/mnt/c/work");
    assert_eq!(resolve_guest_path(None, "C:\\work"), "/mnt/c/work");
}

#[test]
fn port_proxy_commands_have_the_exact_argv() {
    assert_eq!(
        argv(&make_proxy_add_command(18080, 80, "172.20.1.5")),
        strings(&[
            "netsh", "interface", "portproxy", "add", "v4tov4", "listenport=18080",
            "listenaddress=0.0.0.0", "connectport=80", "connectaddress=172.20.1.5",
        ])
    );
    assert_eq!(
        argv(&make_proxy_delete_command(18080)),
        strings(&["netsh", "interface", "portproxy", "delete", "v4tov4", "listenport=18080", "listenaddress=0.0.0.0"])
    );
    assert_eq!(argv(&make_proxy_delete_command(0))[5], "listenport=0");
    assert_eq!(argv(&make_proxy_delete_command(65535))[5], "listenport=65535");
}

#[test]
fn chroot_command_runs_sh_for_an_empty_command() {
    assert_eq!(
        argv(&make_chroot_command("d", &strings(&["K=V"]), "/r", &vec![])),
        strings(&["wsl.exe", "-d", "d", "-u", "root", "--", "env", "K=V", "chroot", "/r", "sh"])
    );
    assert_eq!(
        argv(&make_chroot_command("d", &vec![], "/r", &strings(&["true"]))),
        strings(&["wsl.exe", "-d", "d", "-u", "root", "--", "env", "chroot", "/r", "true"])
    );
    assert_eq!(argv(&make_direct_command(&vec![])), strings(&["sh"]));
    assert_eq!(argv(&make_direct_command(&strings(&["a", "b", "c"]))), strings(&["a", "b", "c"]));
    assert_eq!(argv(&ProcessRuntime.command(&strings(&["x"]))), strings(&["x"]));
    assert_eq!(ProcessRuntime.log_file("abc"), "abc.log");
    assert_eq!(ProcessRuntime.pid_of(Some(4)).unwrap(), 4);
    assert_eq!(ProcessRuntime.pid_of(None).unwrap_err().code(), "RUNTIME_NO_PID");
}

#[test]
fn bind_mount_appends_ro_for_read_only() {
    assert_eq!(
        argv(&make_bind_mount_command("d", "/mnt/c/data", "/r/data", false)),
        strings(&["wsl.exe", "-d", "d", "-u", "root", "--", "mount", "--bind", "/mnt/c/data", "/r/data"])
    );
    assert_eq!(
        argv(&make_bind_mount_command("d", "/mnt/c/data", "/r/data", true)),
        strings(&["wsl.exe", "-d", "d", "-u", "root", "--", "mount", "--bind", "/mnt/c/data", "/r/data", "-o", "ro"])
    );
}

#[test]
fn guest_ip_is_the_first_word() {
    assert_eq!(guest_ip("172.20.1.5 fe80::1 \n"), Some("172.20.1.5".to_string()));
    assert_eq!(guest_ip("\t10.0.0.1"), Some("10.0.0.1".to_string()));
    assert_eq!(guest_ip(" \n"), None);
    assert_eq!(guest_ip(""), None);
}

/// The whole start of a container, with the host played by the test.
#[test]
fn port_forwarding_lifecycle() {
    let rt = runtime();
    let cfg = config();
    let id = "0b5f6a2e-aaaa-4bbb-8ccc-1234567890ab";
    let mut st = rt.begin_start();
    let mut seen: Vec<Vec<String>> = Vec::new();
    let mut spawned: Option<Vec<String>> = None;
    let mut steps = 0;
    let result = loop {
        steps += 1;
        assert!(steps < 50);
        let reply = match rt.start_action(id, &cfg, &st) {
            StartAction::LookUpImage(image) => {
                assert_eq!(image, "alpine");
                HostReply::Image(Some(strings(&["sha256:l1", "sha256:l2"])))
            }
            StartAction::ProbeRootfs(path) => {
                assert_eq!(path.base, "C:\\data\\containers");
                assert_eq!(path.parts, strings(&[id, "rootfs"]));
                HostReply::Rootfs { present: false, path: format!("C:\\data\\containers\\{}\\rootfs", id) }
            }
            StartAction::ComposeRootfs { layers, target } => {
                assert_eq!(layers, strings(&["sha256:l1", "sha256:l2"]));
                assert_eq!(target.parts, strings(&[id, "rootfs"]));
                HostReply::Done
            }
            StartAction::Run(command) => {
                let v = argv(&command);
                seen.push(v.clone());
                if v.contains(&"wslpath".to_string()) {
                    if v.last().unwrap().starts_with("D:") {
                        HostReply::Exited { success: true, stdout: "/mnt/d/ro\n".to_string() }
                    } else {
                        // the guest's tool fails: the drive rule applies
                        HostReply::Exited { success: false, stdout: "garbage".to_string() }
                    }
                } else if v.contains(&"hostname".to_string()) {
                    HostReply::Exited { success: true, stdout: "172.20.1.5 10.0.0.9\n".to_string() }
                } else if v.contains(&"mount".to_string()) {
                    // a mount that fails does not stop the start
                    HostReply::Exited { success: false, stdout: String::new() }
                } else {
                    HostReply::Exited { success: true, stdout: String::new() }
                }
            }
            StartAction::OpenLog { dir, file } => {
                assert_eq!(dir, "furukawa_logs");
                assert_eq!(file, format!("{}.log", id));
                HostReply::Done
            }
            StartAction::Spawn(command) => {
                spawned = Some(argv(&command));
                HostReply::Spawned(Some(4711))
            }
            StartAction::Finish(result) => break result,
        };
        st = rt.start_advance(&cfg, st, reply);
    };
    assert_eq!(result.unwrap(), 4711);
    assert_eq!(st.stage(), StartStage::Finished);
    let rootfs = format!("/mnt/c/data/containers/{}/rootfs", id);
    assert_eq!(
        spawned.unwrap(),
        strings(&[
            "wsl.exe", "-d", "rustker-alpine", "-u", "root", "--", "env", "A=1", "B=two", "chroot",
            &rootfs, "nginx", "-g", "daemon off;",
        ])
    );
    let expected: Vec<Vec<String>> = vec![
        strings(&["wsl.exe", "-d", "rustker-alpine", "--", "wslpath", "-u", &format!("C:\\data\\containers\\{}\\rootfs", id)]),
        strings(&["wsl.exe", "-d", "rustker-alpine", "--", "wslpath", "-u", "C:\\data"]),
        strings(&["wsl.exe", "-d", "rustker-alpine", "-u", "root", "--", "mkdir", "-p", &format!("{}/data", rootfs)]),
        strings(&["wsl.exe", "-d", "rustker-alpine", "-u", "root", "--", "mount", "--bind", "/mnt/c/data", &format!("{}/data", rootfs)]),
        strings(&["wsl.exe", "-d", "rustker-alpine", "--", "wslpath", "-u", "D:\\ro"]),
        strings(&["wsl.exe", "-d", "rustker-alpine", "-u", "root", "--", "mkdir", "-p", &format!("{}/ro", rootfs)]),
        strings(&["wsl.exe", "-d", "rustker-alpine", "-u", "root", "--", "mount", "--bind", "/mnt/d/ro", &format!("{}/ro", rootfs), "-o", "ro"]),
        strings(&["wsl.exe", "-d", "rustker-alpine", "hostname", "-I"]),
        strings(&[
            "netsh", "interface", "portproxy", "add", "v4tov4", "listenport=18080",
            "listenaddress=0.0.0.0", "connectport=80", "connectaddress=172.20.1.5",
        ]),
    ];
    assert_eq!(seen, expected);

    // and the stop takes the forwarding away again
    let plan: Vec<Vec<String>> = rt.stop_plan(&rootfs, &cfg).iter().map(argv).collect();
    assert_eq!(
        plan,
        vec![
            strings(&["wsl.exe", "-d", "rustker-alpine", "-u", "root", "--", "umount", &format!("{}/data", rootfs)]),
            strings(&["wsl.exe", "-d", "rustker-alpine", "-u", "root", "--", "umount", &format!("{}/ro", rootfs)]),
            strings(&["netsh", "interface", "portproxy", "delete", "v4tov4", "listenport=18080", "listenaddress=0.0.0.0"]),
        ]
    );
}

fn plain() -> Config {
    Config { image: "alpine".to_string(), cmd: strings(&["true"]), ..Config::default() }
}

fn run_until_finish(cfg: &Config, replies: Vec<HostReply>) -> Result<u32, RuntimeError> {
    let rt = runtime();
    let mut st = rt.begin_start();
    for reply in replies {
        st = rt.start_advance(cfg, st, reply);
    }
    match rt.start_action("id", cfg, &st) {
        StartAction::Finish(r) => r,
        other => panic!("not finished: {:?}", other),
    }
}

#[test]
fn start_without_ports_and_volumes_is_short() {
    let r = run_until_finish(
        &plain(),
        vec![
            HostReply::Image(Some(vec![])),
            HostReply::Rootfs { present: true, path: "C:\\r".to_string() },
            HostReply::Failed("no wslpath".to_string()),
            HostReply::Done,
            HostReply::Spawned(Some(9)),
        ],
    );
    assert_eq!(r.unwrap(), 9);
}

#[test]
fn start_failures_have_their_codes() {
    let code = |r: Result<u32, RuntimeError>| r.unwrap_err().code();
    let message = |r: Result<u32, RuntimeError>| r.unwrap_err().message();
    assert_eq!(message(run_until_finish(&plain(), vec![HostReply::Image(None)])), "Image resolution failed: Image not found");
    assert_eq!(code(run_until_finish(&plain(), vec![HostReply::Failed("db".to_string())])), "RUNTIME_IMAGE_RESOLUTION_FAILED");
    let to_compose = vec![HostReply::Image(Some(vec![])), HostReply::Rootfs { present: false, path: "C:\\r".to_string() }];
    let mut v = to_compose.clone();
    v.push(HostReply::Failed("no space".to_string()));
    assert_eq!(message(run_until_finish(&plain(), v)), "RootFS composition failed: no space");
    let to_log = vec![
        HostReply::Image(Some(vec![])),
        HostReply::Rootfs { present: true, path: "C:\\r".to_string() },
        HostReply::Exited { success: true, stdout: "/mnt/c/r".to_string() },
    ];
    let mut v = to_log.clone();
    v.push(HostReply::Failed("denied".to_string()));
    assert_eq!(code(run_until_finish(&plain(), v)), "RUNTIME_LOG_SETUP_FAILED");
    let mut v = to_log.clone();
    v.extend([HostReply::Done, HostReply::Failed("enoent".to_string())]);
    assert_eq!(message(run_until_finish(&plain(), v)), "Failed to spawn process: enoent");
    let mut v = to_log.clone();
    v.extend([HostReply::Done, HostReply::Spawned(None)]);
    assert_eq!(code(run_until_finish(&plain(), v)), "RUNTIME_NO_PID");

    let mut with_port = plain();
    with_port.port_mappings.push(PortMapping { container_port: 1, host_port: 2, protocol: "tcp".to_string() });
    let mut v = to_log.clone();
    v.extend([HostReply::Done, HostReply::Spawned(Some(5)), HostReply::Exited { success: true, stdout: "  ".to_string() }]);
    assert_eq!(message(run_until_finish(&with_port, v)), "Port forwarding failed: No WSL IP found");
    let mut v = to_log.clone();
    v.extend([HostReply::Done, HostReply::Spawned(Some(5)), HostReply::Failed("x".to_string())]);
    assert_eq!(message(run_until_finish(&with_port, v)), "Port forwarding failed: Failed to get WSL IP: x");
    let mut v = to_log.clone();
    v.extend([
        HostReply::Done,
        HostReply::Spawned(Some(5)),
        HostReply::Exited { success: true, stdout: "1.2.3.4".to_string() },
        HostReply::Failed("y".to_string()),
    ]);
    assert_eq!(message(run_until_finish(&with_port, v)), "Port forwarding failed: Netsh failed: y");
    // netsh that runs and fails does not stop the start
    let mut v = to_log.clone();
    v.extend([
        HostReply::Done,
        HostReply::Spawned(Some(5)),
        HostReply::Exited { success: true, stdout: "1.2.3.4".to_string() },
        HostReply::Exited { success: false, stdout: String::new() },
    ]);
    assert_eq!(run_until_finish(&with_port, v).unwrap(), 5);
}

#[test]
fn runtime_errors_have_codes_and_suggestions() {
    let all = vec![
        (RuntimeError::SpawnFailed("x".into()), "RUNTIME_SPAWN_FAILED"),
        (RuntimeError::NoPid, "RUNTIME_NO_PID"),
        (RuntimeError::LogSetupFailed("x".into()), "RUNTIME_LOG_SETUP_FAILED"),
        (RuntimeError::ImageResolutionFailed("x".into()), "RUNTIME_IMAGE_RESOLUTION_FAILED"),
        (RuntimeError::RootfsCompositionFailed("x".into()), "RUNTIME_ROOTFS_COMPOSITION_FAILED"),
        (RuntimeError::PortForwardingFailed("x".into()), "RUNTIME_PORT_FORWARDING_FAILED"),
        (RuntimeError::WslSetupFailed("x".into()), "RUNTIME_WSL_SETUP_FAILED"),
    ];
    for (e, code) in all {
        assert_eq!(e.code(), code);
        assert!(e.suggestion().is_some());
        assert_eq!(e.duplicate().message(), e.message());
    }
    assert_eq!(RuntimeError::NoPid.message(), "Failed to get PID");
    assert_eq!(RuntimeError::WslSetupFailed("w".into()).message(), "WSL setup failed: w");
}

#[test]
fn stopping_is_idempotent() {
    assert_eq!(kill_process(1), Err(KillError::Unsupported));
    assert!(stop_container(1).is_ok());
    assert!(stop_outcome(Ok(())).is_ok());
    assert!(stop_outcome(Err(KillError::Os(5))).is_ok());
    assert!(stop_outcome(Err(KillError::Unsupported)).is_ok());
}

#[test]
fn running_state_holds_the_pid() {
    assert_eq!(running_state(77).pid, 77);
}

#[test]
fn rootfs_dir_is_below_the_containers_root() {
    let p = runtime().rootfs_dir("abc");
    assert_eq!(p.base, "C:\\data\\containers");
    assert_eq!(p.parts, strings(&["abc", "rootfs"]));
}
