use furukawa::builder::{after_step, copy_command, plan_build, BuildContext, BuildStep, StepFailure, StepKind};
use furukawa::command::{CommandOutcome, HostCommand};
use furukawa::diagnostic::Diagnosable;
use furukawa::dockerfile::BuildError;
use furukawa::docker::Label;
use furukawa::network::{
    all_networks, delete_network, inspect_network, network_delete_code, network_record,
    CreateNetworkRequest, Network, NetworkRecord, NetworkStore,
};
use furukawa::network::memory::MemoryNetworks;
use furukawa::registry::auth::{challenge_param, token_request, Authenticator, TokenReply};
use furukawa::rootfs::StoreError;
use furukawa::registry::client::{RegistryClient, RegistryReply};
use furukawa::registry::error::RegistryError;
use furukawa::store::{FileSystem, ImageStore, LocalFileSystem};
use furukawa::volumes::{volume_delete_status, volume_dir, volume_driver, volume_info, volumes_root, CreateVolumeRequest};

fn strings(v: &[&str]) -> Vec<String> {
    v.iter().map(|s| s.to_string()).collect()
}

fn argv(c: &HostCommand) -> Vec<String> {
    let mut v = vec![c.program.clone()];
    v.extend(c.args.iter().cloned());
    v
}

#[test]
fn store_paths_replace_the_colon() {
    let store = ImageStore::new("C:\\data\\furukawa_data".to_string());
    assert_eq!(store.root_path(), "C:\\data\\furukawa_data");
    let p = store.layer_path("sha256:abc");
    assert_eq!(p.base, "C:\\data\\furukawa_data");
    assert_eq!(p.parts, strings(&["layers", "sha256_abc"]));
    let p = store.config_path("sha256:abc");
    assert_eq!(p.parts, strings(&["configs", "sha256_abc.json"]));
    assert_eq!(store.config_path("abc").parts, strings(&["configs", "abc.json"]));
    assert_eq!(store.layer_path("a:b:c").parts, strings(&["layers", "a_b_c"]));
    let dirs = store.directories();
    assert_eq!(dirs.len(), 2);
    assert_eq!(dirs[0].parts, strings(&["layers"]));
    assert_eq!(dirs[1].parts, strings(&["configs"]));
}

#[test]
fn local_file_system_looks_at_the_disk() {
    assert!(LocalFileSystem.path_exists("/"));
    assert!(!LocalFileSystem.path_exists("/definitely/not/there/furukawa"));
}

#[test]
fn build_plan_follows_the_instructions() {
    let dockerfile = "FROM alpine:3.19\nRUN apk add 'curl wget'\nCOPY app /opt/app\nWORKDIR /opt\nENV A=b\nEXPOSE 80\nCMD run\nLABEL k=v";
    let ctx = BuildContext::new("C:\\ctx".to_string(), dockerfile, "img:1", "distro").unwrap();
    assert_eq!(ctx.context_dir, "C:\\ctx");
    assert_eq!(ctx.tag, "img:1");
    assert_eq!(ctx.distro, "distro");
    assert_eq!(ctx.instructions.len(), 8);
    let plan = plan_build(&ctx, "/mnt/c/out/b1/rootfs");
    assert_eq!(plan.len(), 6);
    match &plan[0] {
        BuildStep::Command { kind, command } => {
            assert_eq!(*kind, StepKind::Run);
            assert_eq!(argv(command), strings(&["wsl.exe", "-d", "distro", "-u", "root", "--", "sh", "-c", "apk add curl wget"]));
        }
        other => panic!("unexpected {:?}", other),
    }
    match &plan[1] {
        BuildStep::Command { kind, command } => {
            assert_eq!(*kind, StepKind::Prepare);
            assert_eq!(argv(command), strings(&["wsl.exe", "-d", "distro", "--", "mkdir", "-p", "/mnt/c/out/b1/rootfs/opt/app"]));
        }
        other => panic!("unexpected {:?}", other),
    }
    match &plan[2] {
        BuildStep::Copy { source, dest } => {
            assert_eq!(source, "app");
            assert_eq!(dest, "/mnt/c/out/b1/rootfs/opt/app");
        }
        other => panic!("unexpected {:?}", other),
    }
    match &plan[3] {
        BuildStep::Command { kind, command } => {
            assert_eq!(*kind, StepKind::Prepare);
            assert_eq!(argv(command), strings(&["wsl.exe", "-d", "distro", "--", "mkdir", "-p", "/mnt/c/out/b1/rootfs/opt"]));
        }
        other => panic!("unexpected {:?}", other),
    }
    match &plan[4] {
        BuildStep::Command { kind, command } => {
            assert_eq!(*kind, StepKind::Prepare);
            assert_eq!(
                argv(command),
                strings(&["wsl.exe", "-d", "distro", "--", "sh", "-c", "echo 'A=b' >> /mnt/c/out/b1/rootfs/etc/environment"])
            );
        }
        other => panic!("unexpected {:?}", other),
    }
    match &plan[5] {
        BuildStep::Command { kind, command } => {
            assert_eq!(*kind, StepKind::Pack);
            assert_eq!(
                argv(command),
                strings(&["wsl.exe", "-d", "distro", "--", "tar", "-czf", "/mnt/c/out/b1/layer.tar", "-C", "/mnt/c/out/b1/rootfs", "."])
            );
        }
        other => panic!("unexpected {:?}", other),
    }
    assert_eq!(
        argv(&copy_command("distro", "C:\\ctx\\app", "/mnt/c/out/b1/rootfs/opt/app")),
        strings(&["wsl.exe", "-d", "distro", "--", "cp", "-r", "/mnt/c/ctx/app", "/mnt/c/out/b1/rootfs/opt/app"])
    );
}

#[test]
fn run_before_from_ends_the_plan() {
    let ctx = BuildContext::new("c".to_string(), "WORKDIR /a\nRUN x\nFROM alpine\nRUN y", "t", "d").unwrap();
    let plan = plan_build(&ctx, "rootfs");
    assert_eq!(plan.len(), 2);
    assert!(matches!(&plan[0], BuildStep::Command { kind: StepKind::Prepare, .. }));
    assert!(matches!(&plan[1], BuildStep::Fail(BuildError::RunBeforeFrom)));
    assert_eq!(BuildError::RunBeforeFrom.message(), "RUN before FROM is not allowed");
    assert_eq!(BuildError::CopyMissingOperands.message(), "COPY requires src and dest");
    assert!(matches!(BuildContext::new("c".to_string(), "COPY x", "t", "d"), Err(BuildError::CopyMissingOperands)));
    // a root filesystem without a slash is packed into the working directory
    let ctx = BuildContext::new("c".to_string(), "", "t", "d").unwrap();
    match &plan_build(&ctx, "rootfs")[0] {
        BuildStep::Command { command, .. } => assert_eq!(command.args[5], "./layer.tar"),
        other => panic!("unexpected {:?}", other),
    }
}

#[test]
fn only_run_and_pack_stop_a_build() {
    assert_eq!(after_step(StepKind::Run, CommandOutcome::Succeeded), None);
    assert_eq!(after_step(StepKind::Run, CommandOutcome::Failed), Some(StepFailure::RunFailed));
    assert_eq!(after_step(StepKind::Run, CommandOutcome::NotStarted), Some(StepFailure::RunNotStarted));
    assert_eq!(after_step(StepKind::Prepare, CommandOutcome::Failed), None);
    assert_eq!(after_step(StepKind::Prepare, CommandOutcome::NotStarted), None);
    assert_eq!(after_step(StepKind::Pack, CommandOutcome::Failed), Some(StepFailure::PackFailed));
    assert_eq!(after_step(StepKind::Pack, CommandOutcome::NotStarted), Some(StepFailure::PackNotStarted));
    assert_eq!(StepFailure::PackFailed.message(), "Failed to create layer tarball");
    assert_eq!(StepFailure::PackNotStarted.message(), "Failed to tar the build rootfs");
    assert_eq!(StepFailure::RunNotStarted.message(), "Failed to execute RUN command in WSL");
    assert_eq!(StepFailure::RunFailed.message(), "RUN command failed");
}

#[test]
fn registry_addresses() {
    let client = RegistryClient::new();
    assert_eq!(client.registry_url, "https://registry-1.docker.io");
    assert_eq!(client.manifest_url("library/alpine", "latest"), "https://registry-1.docker.io/v2/library/alpine/manifests/latest");
    assert_eq!(client.blob_url("library/alpine", "sha256:abc"), "https://registry-1.docker.io/v2/library/alpine/blobs/sha256:abc");
    assert_eq!(RegistryClient::pull_scope("library/alpine"), "repository:library/alpine:pull");
    assert_eq!(RegistryClient::bearer("tok"), "Bearer tok");
    assert_eq!(
        RegistryClient::accepted_manifest_types(),
        vec![
            "application/vnd.docker.distribution.manifest.v2+json",
            "application/vnd.docker.distribution.manifest.list.v2+json",
        ]
    );
    assert_eq!(
        Authenticator::token_url("https://auth.docker.io/token", "registry.docker.io", "repository:library/alpine:pull"),
        "https://auth.docker.io/token?service=registry.docker.io&scope=repository:library/alpine:pull"
    );
}

#[test]
fn registry_answers() {
    let ok = RegistryReply::Answered { status: 200, body: vec![1, 2] };
    assert_eq!(RegistryClient::manifest_from("latest", ok.clone()).unwrap(), vec![1, 2]);
    assert_eq!(RegistryClient::blob_from("d", ok).unwrap(), vec![1, 2]);
    let missing = RegistryReply::Answered { status: 404, body: vec![] };
    assert!(matches!(RegistryClient::manifest_from("latest", missing.clone()), Err(RegistryError::ManifestNotFound(r)) if r == "latest"));
    assert!(matches!(RegistryClient::blob_from("sha256:d", missing), Err(RegistryError::BlobNotFound(d)) if d == "sha256:d"));
    let other = RegistryReply::Answered { status: 503, body: vec![] };
    assert!(matches!(RegistryClient::manifest_from("latest", other.clone()), Err(RegistryError::Network(_))));
    assert!(matches!(RegistryClient::blob_from("d", other), Err(RegistryError::Network(_))));
    assert!(matches!(RegistryClient::blob_from("d", RegistryReply::Failed("dns".into())), Err(RegistryError::Network(t)) if t == "dns"));
    assert!(matches!(RegistryClient::blob_from("d", RegistryReply::Answered { status: 299, body: vec![] }), Ok(_)));
    assert!(matches!(RegistryClient::blob_from("d", RegistryReply::Answered { status: 300, body: vec![] }), Err(_)));
}

#[test]
fn registry_errors_have_codes() {
    let all = vec![
        (RegistryError::AuthenticationFailed("x".into()), "REG_AUTH_FAILED", true),
        (RegistryError::ManifestNotFound("x".into()), "REG_MANIFEST_MISSING", true),
        (RegistryError::BlobNotFound("x".into()), "REG_BLOB_MISSING", false),
        (RegistryError::Network("x".into()), "REG_NETWORK_ERROR", false),
        (RegistryError::Io("x".into()), "FS_IO_ERROR", false),
        (RegistryError::InvalidDigest("x".into()), "REG_DIGEST_MISMATCH", false),
        (RegistryError::NoMatchingPlatform, "REG_NO_MATCHING_PLATFORM", false),
    ];
    for (e, code, hint) in all {
        assert_eq!(e.code(), code);
        assert_eq!(e.suggestion().is_some(), hint);
    }
    assert_eq!(RegistryError::BlobNotFound("d".into()).message(), "Blob not found: d");
    assert_eq!(RegistryError::InvalidDigest("d".into()).message(), "Invalid digest: d");
}

#[test]
fn tokens_are_kept_by_scope() {
    let mut auth = Authenticator::new();
    assert_eq!(auth.cached("s1"), None);
    assert_eq!(auth.token_from("s1", TokenReply::Granted("t1".into())).unwrap(), "t1");
    assert_eq!(auth.cached("s1"), Some("t1".to_string()));
    assert_eq!(auth.cached("s2"), None);
    assert!(matches!(auth.token_from("s2", TokenReply::Refused("401 Unauthorized".into())), Err(RegistryError::AuthenticationFailed(t)) if t == "Status: 401 Unauthorized"));
    assert!(matches!(auth.token_from("s2", TokenReply::Failed("dns".into())), Err(RegistryError::Network(t)) if t == "dns"));
    assert_eq!(auth.cached("s2"), None);
    auth.remember("s2", "t2");
    auth.remember("s1", "t1b");
    assert_eq!(auth.cached("s1"), Some("t1b".to_string()));
    assert_eq!(auth.cached("s2"), Some("t2".to_string()));
}

#[test]
fn built_in_networks() {
    let b = Network::bridge();
    assert_eq!((b.id.as_str(), b.name.as_str(), b.driver.as_str(), b.scope.as_str()), ("bridge", "bridge", "bridge", "local"));
    let h = Network::host();
    assert_eq!((h.id.as_str(), h.name.as_str(), h.driver.as_str()), ("hosthost", "host", "host"));
    let n = Network::none();
    assert_eq!((n.id.as_str(), n.name.as_str(), n.driver.as_str()), ("nonenone", "none", "null"));
    assert!(!n.enable_i_pv6 && !n.internal && !n.attachable && !n.ingress && n.labels.is_empty());
    assert_eq!(Network::builtin("host").unwrap().id, "hosthost");
    assert!(Network::builtin("mine").is_none());
}

#[test]
fn networks_of_the_store() {
    let request = CreateNetworkRequest { name: "mine".to_string(), driver: None, labels: None };
    let record = network_record("id1".to_string(), &request);
    assert_eq!((record.id.as_str(), record.name.as_str(), record.driver.as_str()), ("id1", "mine", "bridge"));
    let mut store = MemoryNetworks::new();
    store.save(&record).unwrap();
    let all = all_networks(store.list());
    let names: Vec<&str> = all.iter().map(|n| n.name.as_str()).collect();
    assert_eq!(names, vec!["bridge", "host", "none", "mine"]);
    assert_eq!(all_networks(Err(furukawa::diagnostic::Error::new(furukawa::container::memory::DbError("x".into())))).len(), 3);
    assert_eq!(inspect_network(&store, "bridge").unwrap().driver, "bridge");
    assert_eq!(inspect_network(&store, "id1").unwrap().name, "mine");
    assert_eq!(inspect_network(&store, "id2").unwrap_err(), "network id2 not found");
    for builtin in ["bridge", "host", "none"] {
        assert_eq!(delete_network(&mut store, builtin), 403);
        assert_eq!(network_delete_code(builtin, true), 403);
    }
    assert_eq!(delete_network(&mut store, "id1"), 204);
    assert!(store.list().unwrap().is_empty());
    assert_eq!(network_delete_code("id1", false), 404);
    assert_eq!(network_delete_code("id1", true), 204);
}

#[test]
fn network_names_are_unique() {
    let net = |id: &str, name: &str, driver: &str| NetworkRecord {
        id: id.to_string(),
        name: name.to_string(),
        driver: driver.to_string(),
        labels: vec![Label { key: "k".to_string(), value: "v".to_string() }],
    };
    let mut store = MemoryNetworks::new();
    store.save(&net("1", "a", "bridge")).unwrap();
    store.save(&net("2", "b", "bridge")).unwrap();
    store.save(&net("3", "c", "bridge")).unwrap();
    // the same id: the record is replaced
    store.save(&net("1", "a", "host")).unwrap();
    assert_eq!(store.get("1").unwrap().unwrap().driver, "host");
    assert_eq!(store.list().unwrap().len(), 3);
    // the same name under another id: the record with that name goes
    store.save(&net("4", "b", "bridge")).unwrap();
    assert!(store.get("2").unwrap().is_none());
    assert_eq!(store.get("4").unwrap().unwrap().name, "b");
    // id of one and name of another: both go
    store.save(&net("1", "c", "bridge")).unwrap();
    let mut ids: Vec<String> = store.list().unwrap().into_iter().map(|n| n.id).collect();
    ids.sort();
    assert_eq!(ids, vec!["1", "4"]);
    assert_eq!(store.get("1").unwrap().unwrap().labels.len(), 1);
    store.delete("nope").unwrap();
    store.delete("4").unwrap();
    assert_eq!(store.list().unwrap().len(), 1);
}

#[test]
fn volumes_live_below_the_data_root() {
    let root = volumes_root(Some("C:\\data"));
    assert_eq!(root.base, "C:\\data");
    assert_eq!(root.parts, strings(&["rustker_data", "volumes"]));
    assert_eq!(volumes_root(None).base, ".");
    let dir = volume_dir(None, "v1");
    assert_eq!(dir.parts, strings(&["rustker_data", "volumes", "v1"]));
    let info = volume_info("v1", "/x/v1");
    assert_eq!((info.name.as_str(), info.driver.as_str(), info.mountpoint.as_str(), info.scope.as_str()), ("v1", "local", "/x/v1", "local"));
    assert_eq!(volume_driver(&CreateVolumeRequest { name: "v".into(), driver: None }), "local");
    assert_eq!(volume_driver(&CreateVolumeRequest { name: "v".into(), driver: Some("nfs".into()) }), "nfs");
    assert_eq!(volume_delete_status(false, false), 404);
    assert_eq!(volume_delete_status(true, true), 204);
    assert_eq!(volume_delete_status(true, false), 500);
}

#[test]
fn challenge_parameters_are_read_between_quotes() {
    let challenge = "Bearer realm=\"https://auth.example.io/token\",service=\"registry.example.io\",scope=\"repository:a/b:pull\"";
    assert_eq!(challenge_param(challenge, "realm"), Some("https://auth.example.io/token".to_string()));
    assert_eq!(challenge_param(challenge, "service"), Some("registry.example.io".to_string()));
    assert_eq!(challenge_param(challenge, "scope"), Some("repository:a/b:pull".to_string()));
    assert_eq!(challenge_param(challenge, "error"), None);
    assert_eq!(challenge_param("Bearer realm=\"unclosed", "realm"), None);
    assert_eq!(challenge_param("Bearer realm=\"\"", "realm"), Some(String::new()));
    assert_eq!(challenge_param("", "realm"), None);
    assert_eq!(challenge_param("realm=\"a\",realm=\"b\"", "realm"), Some("a".to_string()));

    let r = token_request(Some(challenge), "library/alpine");
    assert_eq!(r.realm, "https://auth.example.io/token");
    assert_eq!(r.service, "registry.example.io");
    assert_eq!(r.scope, "repository:library/alpine:pull");
    let r = token_request(None, "library/alpine");
    assert_eq!(r.realm, "https://auth.docker.io/token");
    assert_eq!(r.service, "registry.docker.io");
    assert_eq!(r.scope, "repository:library/alpine:pull");
    let r = token_request(Some("Basic realm=\"x\""), "a");
    assert_eq!((r.realm.as_str(), r.service.as_str()), ("x", "registry.docker.io"));
}

#[test]
fn content_store_errors_have_codes() {
    let all = vec![
        (StoreError::Io("x".into()), "FS_IO_ERROR", "IO Error: x"),
        (StoreError::InvalidDigest, "IMAGE_DIGEST_INVALID", "Invalid Digest"),
        (StoreError::LayerNotFound("d".into()), "FS_LAYER_NOT_FOUND", "Layer not found: d"),
        (StoreError::UnsafePath("../x".into()), "FS_UNSAFE_PATH", "Unsafe path: ../x"),
    ];
    for (e, code, message) in all {
        assert_eq!(e.code(), code);
        assert_eq!(e.message(), message);
    }
}
