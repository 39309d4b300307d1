use furukawa::api::create::{container_config, create_response, port_mappings_for, volume_mount};
use furukawa::api::view::{
    container_state, container_summary, count_phase, image_summary, inspect_container, mem_total,
    summary_name, system_info, version,
};
use furukawa::container::config::{Config, PortMapping, VolumeMount};
use furukawa::container::{AnyContainer, Container, Phase, Running, Stopped};
use furukawa::docker::{ContainerConfig, HostConfig, HostPort, PortBindings};
use furukawa::image::store::ImageMetadata;

fn strings(v: &[&str]) -> Vec<String> {
    v.iter().map(|s| s.to_string()).collect()
}

fn body() -> ContainerConfig {
    ContainerConfig {
        hostname: None,
        domainname: None,
        user: None,
        attach_stdin: None,
        attach_stdout: None,
        attach_stderr: None,
        tty: None,
        open_stdin: None,
        stdin_once: None,
        env: None,
        cmd: None,
        image: "alpine".to_string(),
        volumes: None,
        working_dir: None,
        entrypoint: None,
        network_disabled: None,
        mac_address: None,
        on_build: None,
        labels: None,
        stop_signal: None,
        stop_timeout: None,
        shell: None,
        host_config: None,
    }
}

fn bindings(key: &str, ports: &[Option<&str>]) -> PortBindings {
    PortBindings {
        key: key.to_string(),
        bindings: ports.iter().map(|p| HostPort { host_port: p.map(|s| s.to_string()) }).collect(),
    }
}

fn mapping(container_port: u16, host_port: u16, protocol: &str) -> PortMapping {
    PortMapping { container_port, host_port, protocol: protocol.to_string() }
}

#[test]
fn config_without_host_part_has_the_defaults() {
    let c = container_config(&body());
    assert_eq!(c, Config { image: "alpine".to_string(), ..Config::default() });
    assert_eq!(c.network, "bridge");
}

#[test]
fn port_bindings_become_port_mappings() {
    assert_eq!(port_mappings_for(&bindings("80/tcp", &[Some("8080")])), vec![mapping(80, 8080, "tcp")]);
    assert_eq!(
        port_mappings_for(&bindings("53/udp", &[Some("5353"), None, Some("bogus"), Some("70000"), Some("54")])),
        vec![mapping(53, 5353, "udp"), mapping(53, 54, "udp")]
    );
    assert_eq!(port_mappings_for(&bindings("443", &[Some("8443")])), vec![mapping(443, 8443, "tcp")]);
    assert_eq!(port_mappings_for(&bindings("bogus/tcp", &[Some("1")])), vec![mapping(0, 1, "tcp")]);
    assert_eq!(port_mappings_for(&bindings("80/", &[Some("1")])), vec![mapping(80, 1, "")]);
    assert_eq!(port_mappings_for(&bindings("80/tcp/x", &[Some("1")])), vec![mapping(80, 1, "tcp")]);
    assert_eq!(port_mappings_for(&bindings("80/tcp", &[])), vec![]);
}

#[test]
fn binds_become_volume_mounts() {
    let mount = |h: &str, c: &str, ro: bool| VolumeMount { host_path: h.to_string(), container_path: c.to_string(), readonly: ro };
    assert_eq!(volume_mount("/host:/data"), Some(mount("/host", "/data", false)));
    assert_eq!(volume_mount("/host:/data:ro"), Some(mount("/host", "/data", true)));
    assert_eq!(volume_mount("/host:/data:rw"), Some(mount("/host", "/data", false)));
    assert_eq!(volume_mount("/host:/data:ro:x"), Some(mount("/host", "/data", false)));
    assert_eq!(volume_mount("nocolon"), None);
    assert_eq!(volume_mount(""), None);
    // a drive letter is cut at its colon like any other text
    assert_eq!(volume_mount("C:\\data:/data"), Some(mount("C", "\\data", false)));
}

#[test]
fn config_takes_everything_from_the_request() {
    let mut b = body();
    b.cmd = Some(strings(&["sh", "-c", "true"]));
    b.env = Some(strings(&["A=1"]));
    b.host_config = Some(HostConfig {
        port_bindings: Some(vec![bindings("80/tcp", &[Some("8080")]), bindings("81/udp", &[Some("x"), Some("8081")])]),
        binds: Some(strings(&["/a:/b", "junk", "/c:/d:ro"])),
        network_mode: Some("host".to_string()),
    });
    let c = container_config(&b);
    assert_eq!(c.image, "alpine");
    assert_eq!(c.cmd, vec!["sh", "-c", "true"]);
    assert_eq!(c.env, vec!["A=1"]);
    assert_eq!(c.network, "host");
    assert_eq!(c.port_mappings, vec![mapping(80, 8080, "tcp"), mapping(81, 8081, "udp")]);
    assert_eq!(
        c.volumes,
        vec![
            VolumeMount { host_path: "/a".to_string(), container_path: "/b".to_string(), readonly: false },
            VolumeMount { host_path: "/c".to_string(), container_path: "/d".to_string(), readonly: true },
        ]
    );
    let r = create_response("abc");
    assert_eq!(r.id, "abc");
    assert!(r.warnings.is_empty());
}

fn containers() -> Vec<AnyContainer> {
    let now = time::OffsetDateTime::UNIX_EPOCH;
    let cfg = || Config { image: "img".to_string(), cmd: strings(&["run", "a", "b"]), ..Config::default() };
    vec![
        AnyContainer::Created(Container::new("0123456789abcdef".to_string(), cfg())),
        AnyContainer::Running(Container::<Running>::restore("short".to_string(), cfg(), Running { pid: 5, started_at: now })),
        AnyContainer::Stopped(Container::<Stopped>::restore(
            "x".to_string(),
            Config::default(),
            Stopped { finished_at: now, exit_code: 7 },
        )),
        AnyContainer::Running(Container::<Running>::restore("y".to_string(), cfg(), Running { pid: 6, started_at: now })),
    ]
}

#[test]
fn summary_of_a_container() {
    assert_eq!(summary_name("0123456789abcdef"), "/furukawa-01234567");
    assert_eq!(summary_name("short"), "/furukawa-short");
    assert_eq!(summary_name(""), "/furukawa-");
    let all = containers();
    let s = container_summary(&all[0]);
    assert_eq!(s.id, "0123456789abcdef");
    assert_eq!(s.names, vec!["/furukawa-01234567"]);
    assert_eq!(s.image, "img");
    assert_eq!(s.image_id, "sha256:placeholder");
    assert_eq!(s.command, "run a b");
    assert_eq!(s.created, 1700000000);
    assert_eq!(s.state, "created");
    assert_eq!(s.status, "Created");
    assert_eq!(s.host_config.network_mode, "default");
    assert!(s.ports.is_empty() && s.labels.is_empty() && s.mounts.is_empty());
    assert!(s.network_settings.networks.is_empty());
    assert_eq!(container_summary(&all[2]).command, "");
}

#[test]
fn inspection_of_a_container() {
    let all = containers();
    let i = inspect_container(&all[0]);
    assert_eq!(i.id, "0123456789abcdef");
    assert_eq!(i.created, "2024-01-01T00:00:00Z");
    assert_eq!(i.path, "run");
    assert_eq!(i.args, vec!["a", "b"]);
    assert_eq!(i.image, "img");
    assert_eq!(i.name, "/0123456789abcdef");
    assert_eq!(i.driver, "furukawa-fs");
    assert_eq!(i.platform, "windows");
    assert_eq!(i.state.status, "created");
    assert_eq!(i.state.started_at, "0001-01-01T00:00:00Z");
    assert_eq!(i.state.finished_at, "0001-01-01T00:00:00Z");
    let s = container_state(&all[1]);
    assert_eq!(s.status, "running");
    assert!(s.running);
    assert_eq!(s.pid, 5);
    assert_eq!(s.exit_code, 0);
    assert_eq!(s.finished_at, "0001-01-01T00:00:00Z");
    assert!(s.started_at.starts_with("1970-01-01"));
    let s = container_state(&all[2]);
    assert_eq!(s.status, "exited");
    assert!(!s.running);
    assert_eq!(s.pid, 0);
    assert_eq!(s.exit_code, 7);
    assert_eq!(s.started_at, "0001-01-01T00:00:00Z");
    let i = inspect_container(&all[2]);
    assert_eq!(i.path, "");
    assert!(i.args.is_empty());
}

#[test]
fn system_info_counts_the_containers() {
    let all = containers();
    assert_eq!(count_phase(&all, Phase::Running), 2);
    assert_eq!(count_phase(&all, Phase::Stopped), 1);
    assert_eq!(count_phase(&all, Phase::Created), 1);
    let info = system_info(&all, 1024, 8, "x86_64");
    assert_eq!(info.containers, 4);
    assert_eq!(info.containers_running, 2);
    assert_eq!(info.containers_stopped, 1);
    assert_eq!(info.containers_paused, 0);
    assert_eq!(info.mem_total, 1024);
    assert_eq!(info.n_c_p_u, 8);
    assert_eq!(info.architecture, "x86_64");
    assert_eq!(info.driver, "furukawa-fs");
    assert_eq!(info.plugins.network, Some(strings(&["bridge", "host"])));
    assert_eq!(info.server_version, "0.1.0");
}

#[test]
fn mem_total_reads_proc_meminfo() {
    assert_eq!(mem_total("MemTotal:       16384 kB\nMemFree: 1 kB\n"), 16384 * 1024);
    assert_eq!(mem_total("Other: 1 kB\nMemTotal:\t2 kB\nMemTotal: 3 kB"), 2048);
    assert_eq!(mem_total("MemTotal:5 kB"), 0);
    assert_eq!(mem_total("MemTotal: many kB"), 0);
    assert_eq!(mem_total("MemTotal:"), 0);
    assert_eq!(mem_total(" MemTotal: 5 kB"), 0);
    assert_eq!(mem_total(""), 0);
    assert_eq!(mem_total("MemTotal: -2 kB"), -2048);
    assert_eq!(mem_total("MemTotal: 9223372036854775807 kB"), i64::MAX);
    assert_eq!(mem_total("MemTotal: 9223372036854775808 kB"), 0);
}

#[test]
fn version_document() {
    let v = version("linux", "x86_64");
    assert_eq!(v.platform.name, "Furukawa Engine");
    assert_eq!(v.version, "0.1.0");
    assert_eq!(v.api_version, "1.45");
    assert_eq!(v.min_a_p_i_version, "1.45");
    assert_eq!(v.os, "linux");
    assert_eq!(v.arch, "x86_64");
    assert_eq!(v.git_commit, "HEAD");
    assert_eq!(v.go_version, "rust");
    assert_eq!(v.kernel_version, "unknown");
    assert!(!v.experimental);
    let c = v.components.unwrap();
    assert_eq!(c.len(), 1);
    assert_eq!(c[0].name, "Engine");
}

#[test]
fn summary_of_an_image() {
    let m = ImageMetadata {
        id: "abc".to_string(),
        repo_tags: strings(&["a:b"]),
        parent_id: Some("p".to_string()),
        created: 9,
        size: 10,
        layers: vec![],
    };
    let s = image_summary(&m);
    assert_eq!(s.id, "sha256:abc");
    assert_eq!(s.parent_id, "p");
    assert_eq!(s.repo_tags, Some(strings(&["a:b"])));
    assert_eq!(s.repo_digests, None);
    assert_eq!((s.created, s.size, s.shared_size, s.virtual_size, s.containers), (9, 10, -1, 10, -1));
    assert!(s.labels.is_none());
}
