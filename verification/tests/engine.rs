use furukawa::api::view::{container_summaries, inspect_container};
use furukawa::container::config::Config;
use furukawa::container::runtime::ContainerRuntime;
use furukawa::container::store::ContainerStore;
use furukawa::container::{AnyContainer, Container, ContainerError, Created, Phase, Running};
use furukawa::diagnostic::{Diagnosable, Error};
use furukawa::docker::{ContainerConfig, HostConfig, HostPort, PortBindings};
use furukawa::engine::{
    create_container, delete_container, deletion_refused, find_container, found_or_status,
    list_containers, log_name, start_container, stop_container, stripe, written_status,
};
use furukawa::ident::new_id;
use furukawa::container::memory::{restore, restore_phase, DbError, MemoryStore, SerializationError};

struct Mock;

impl ContainerRuntime for Mock {
    fn start(&self, _c: &Container<Created>) -> Result<Running, Error> {
        Ok(Running { pid: 4242, started_at: time::OffsetDateTime::now_utc() })
    }

    fn stop(&self, _c: &Container<Running>) -> Result<(), Error> {
        Ok(())
    }
}

struct Broken;

impl ContainerRuntime for Broken {
    fn start(&self, _c: &Container<Created>) -> Result<Running, Error> {
        Err(Error::new(ContainerError::InvalidTransition))
    }

    fn stop(&self, _c: &Container<Running>) -> Result<(), Error> {
        Err(Error::new(ContainerError::InvalidTransition))
    }
}

fn body(image: &str, cmd: &[&str]) -> ContainerConfig {
    ContainerConfig {
        hostname: None,
        domainname: None,
        user: None,
        attach_stdin: None,
        attach_stdout: None,
        attach_stderr: None,
        tty: None,
        open_stdin: None,
        stdin_once: None,
        env: None,
        cmd: Some(cmd.iter().map(|s| s.to_string()).collect()),
        image: image.to_string(),
        volumes: None,
        working_dir: None,
        entrypoint: None,
        network_disabled: None,
        mac_address: None,
        on_build: None,
        labels: None,
        stop_signal: None,
        stop_timeout: None,
        shell: None,
        host_config: None,
    }
}

fn status(store: &MemoryStore, id: &str) -> Option<String> {
    store.get_status(id).unwrap()
}

/// Create, list, get_any: id, image, argv and port mappings come back as they went in.
#[test]
fn create_list_get_any_round_trip() {
    let mut store = MemoryStore::new();
    let mut b = body("alpine", &["echo", "hi"]);
    b.host_config = Some(HostConfig {
        port_bindings: Some(vec![PortBindings {
            key: "80/tcp".to_string(),
            bindings: vec![HostPort { host_port: Some("18080".to_string()) }],
        }]),
        binds: None,
        network_mode: None,
    });
    let id = new_id();
    let (code, answer) = create_container(&mut store, id.clone(), &b);
    assert_eq!(code, 201);
    let answer = answer.unwrap();
    assert_eq!(answer.id, id);
    assert!(answer.warnings.is_empty());

    let all = list_containers(&store);
    assert_eq!(all.len(), 1);
    assert_eq!(all[0].id(), id);
    let (code, found) = find_container(&store, &id);
    assert_eq!(code, 200);
    let found = found.unwrap();
    assert_eq!(found.id(), id);
    assert_eq!(found.config().image, "alpine");
    assert_eq!(found.config().cmd, vec!["echo", "hi"]);
    assert_eq!(found.config().port_mappings.len(), 1);
    assert_eq!(found.config().port_mappings[0].container_port, 80);
    assert_eq!(found.config().port_mappings[0].host_port, 18080);
    assert_eq!(found.config().port_mappings[0].protocol, "tcp");
    assert_eq!(found.phase(), Phase::Created);
    assert_eq!(status(&store, &id), Some("created".to_string()));
}

/// Run true: create, start, explicit stop, and the inspection says exited.
#[test]
fn run_true() {
    let mut store = MemoryStore::new();
    let id = new_id();
    assert_eq!(create_container(&mut store, id.clone(), &body("alpine", &["true"])).0, 201);
    assert_eq!(start_container(&mut store, &Mock, &id), 204);
    // no reaper: the container is running until it is stopped
    assert_eq!(status(&store, &id), Some("running".to_string()));
    let running = store.get_running(&id).unwrap().unwrap();
    assert_eq!(running.state().pid, 4242);
    assert_eq!(stop_container(&mut store, &Mock, &id), 204);
    assert_eq!(status(&store, &id), Some("stopped".to_string()));
    let (code, found) = find_container(&store, &id);
    assert_eq!(code, 200);
    let shown = inspect_container(&found.unwrap());
    assert_eq!(shown.state.status, "exited");
    assert!(!shown.state.running);
    assert_eq!(shown.state.exit_code, 0);
    assert_eq!(shown.path, "true");
    assert!(shown.args.is_empty());
    assert_eq!(shown.name, format!("/{}", id));
}

/// Stop of a container that is not running: 404 every time, and nothing changes.
#[test]
fn stop_of_not_running_container() {
    let mut store = MemoryStore::new();
    assert_eq!(stop_container(&mut store, &Mock, "nope"), 404);
    assert_eq!(create_container(&mut store, "c1".to_string(), &body("alpine", &[])).0, 201);
    assert_eq!(stop_container(&mut store, &Mock, "c1"), 404);
    assert_eq!(stop_container(&mut store, &Mock, "c1"), 404);
    assert_eq!(status(&store, "c1"), Some("created".to_string()));
    assert_eq!(start_container(&mut store, &Mock, "c1"), 204);
    assert_eq!(stop_container(&mut store, &Mock, "c1"), 204);
    assert_eq!(stop_container(&mut store, &Mock, "c1"), 404);
    assert_eq!(status(&store, "c1"), Some("stopped".to_string()));
    assert_eq!(list_containers(&store).len(), 1);
}

/// Double delete of a stopped container: 204, then 404.
#[test]
fn double_delete_of_stopped_container() {
    let mut store = MemoryStore::new();
    create_container(&mut store, "c1".to_string(), &body("alpine", &[]));
    start_container(&mut store, &Mock, "c1");
    stop_container(&mut store, &Mock, "c1");
    assert_eq!(delete_container(&mut store, "c1"), (204, Some("c1.log".to_string())));
    assert_eq!(delete_container(&mut store, "c1"), (404, None));
    assert!(list_containers(&store).is_empty());
    assert_eq!(find_container(&store, "c1").0, 404);
}

#[test]
fn running_container_is_not_deleted() {
    let mut store = MemoryStore::new();
    create_container(&mut store, "c1".to_string(), &body("alpine", &[]));
    // a created container can be deleted
    assert_eq!(delete_container(&mut store, "c1").0, 204);
    create_container(&mut store, "c2".to_string(), &body("alpine", &[]));
    start_container(&mut store, &Mock, "c2");
    assert_eq!(delete_container(&mut store, "c2"), (409, None));
    assert_eq!(status(&store, "c2"), Some("running".to_string()));
}

#[test]
fn the_lifecycle_has_no_other_edges() {
    let mut store = MemoryStore::new();
    assert_eq!(start_container(&mut store, &Mock, "nope"), 404);
    create_container(&mut store, "c".to_string(), &body("alpine", &[]));
    assert_eq!(start_container(&mut store, &Mock, "c"), 204);
    // running: cannot be started again
    assert_eq!(start_container(&mut store, &Mock, "c"), 404);
    assert_eq!(stop_container(&mut store, &Mock, "c"), 204);
    // stopped: cannot be started or stopped
    assert_eq!(start_container(&mut store, &Mock, "c"), 404);
    assert_eq!(stop_container(&mut store, &Mock, "c"), 404);
    assert_eq!(status(&store, "c"), Some("stopped".to_string()));
}

#[test]
fn failures_of_the_runtime_change_nothing() {
    let mut store = MemoryStore::new();
    create_container(&mut store, "c".to_string(), &body("alpine", &[]));
    assert_eq!(start_container(&mut store, &Broken, "c"), 500);
    assert_eq!(status(&store, "c"), Some("created".to_string()));
    assert_eq!(start_container(&mut store, &Mock, "c"), 204);
    assert_eq!(stop_container(&mut store, &Broken, "c"), 500);
    assert_eq!(status(&store, "c"), Some("running".to_string()));
    // an id that is recorded already is refused
    assert_eq!(create_container(&mut store, "c".to_string(), &body("other", &[])).0, 500);
    assert_eq!(find_container(&store, "c").1.unwrap().config().image, "alpine");
}

/// Create three containers, open the records again, list: the same three ids, created.
#[test]
fn create_restart_list() {
    let mut store = MemoryStore::new();
    let ids = vec![new_id(), new_id(), new_id()];
    for id in &ids {
        assert_eq!(create_container(&mut store, id.clone(), &body("alpine", &["true"])).0, 201);
    }
    // what is recorded: id, state and configuration
    let rows: Vec<(String, String, Config)> = list_containers(&store)
        .iter()
        .map(|c| (c.id().to_string(), store.get_status(c.id()).unwrap().unwrap(), c.config().duplicate()))
        .collect();
    let mut reopened = MemoryStore::new();
    for (id, state, config) in rows {
        match restore(id, config, &state, None).unwrap() {
            AnyContainer::Created(c) => reopened.save(&c).unwrap(),
            other => panic!("unexpected {:?}", other),
        }
    }
    let listed = list_containers(&reopened);
    let listed_ids: Vec<String> = listed.iter().map(|c| c.id().to_string()).collect();
    assert_eq!(listed_ids, ids);
    assert!(listed.iter().all(|c| c.status() == "created"));
    let summaries = container_summaries(&listed);
    assert_eq!(summaries.len(), 3);
    for (s, id) in summaries.iter().zip(&ids) {
        assert_eq!(&s.id, id);
        assert_eq!(s.state, "created");
        assert_eq!(s.names, vec![format!("/furukawa-{}", &id[0..8])]);
        assert_eq!(s.command, "true");
    }
}

#[test]
fn new_ids_are_hyphenated_lower_hex() {
    let a = new_id();
    let b = new_id();
    assert_ne!(a, b);
    for id in [a, b] {
        assert_eq!(id.len(), 36);
        for (i, c) in id.chars().enumerate() {
            if [8, 13, 18, 23].contains(&i) {
                assert_eq!(c, '-');
            } else {
                assert!(c.is_ascii_digit() || ('a'..='f').contains(&c));
            }
        }
    }
}

#[test]
fn restore_reads_the_three_states_and_no_other() {
    let c = restore("a".to_string(), Config::default(), "created", Some(3)).unwrap();
    assert_eq!(c.phase(), Phase::Created);
    match restore("a".to_string(), Config::default(), "running", Some(3)).unwrap() {
        AnyContainer::Running(r) => assert_eq!(r.state().pid, 3),
        other => panic!("unexpected {:?}", other),
    }
    match restore("a".to_string(), Config::default(), "running", None).unwrap() {
        AnyContainer::Running(r) => assert_eq!(r.state().pid, 0),
        other => panic!("unexpected {:?}", other),
    }
    match restore("a".to_string(), Config::default(), "stopped", Some(3)).unwrap() {
        AnyContainer::Stopped(s) => assert_eq!(s.state().exit_code, 0),
        other => panic!("unexpected {:?}", other),
    }
    assert!(restore("a".to_string(), Config::default(), "exited", None).is_none());
    assert!(restore("a".to_string(), Config::default(), "", None).is_none());
    assert_eq!(restore_phase("x".to_string(), Config::default(), Phase::Stopped, None).status(), "exited");
}

#[test]
fn memory_store_statements() {
    let mut store = MemoryStore::new();
    let c = Container::new("a".to_string(), Config::default());
    store.save(&c).unwrap();
    let e = store.save(&c).unwrap_err();
    assert_eq!(e.code(), "DB_ERROR");
    assert!(store.get("a").unwrap().is_some());
    assert!(store.get_running("a").unwrap().is_none());
    assert!(store.get("b").unwrap().is_none());
    assert!(store.get_any("b").unwrap().is_none());
    assert_eq!(store.get_status("b").unwrap(), None);
    store.delete("b").unwrap();
    store.delete("a").unwrap();
    assert!(store.list().unwrap().is_empty());
    // updates of what is not recorded change nothing
    let running = Container::<Running>::restore(
        "ghost".to_string(),
        Config::default(),
        Running { pid: 1, started_at: time::OffsetDateTime::now_utc() },
    );
    store.save_running(&running).unwrap();
    assert!(store.list().unwrap().is_empty());
}

#[test]
fn store_errors_have_codes() {
    let e = DbError("locked".to_string());
    assert_eq!(e.code(), "DB_ERROR");
    assert_eq!(e.message(), "Database error: locked");
    assert_eq!(e.suggestion(), Some("Check database connection or query syntax".to_string()));
    let e = SerializationError("eof".to_string());
    assert_eq!(e.code(), "DB_SERIALIZATION_ERROR");
    assert_eq!(e.message(), "Serialization error: eof");
    assert_eq!(e.suggestion(), Some("Check data integrity".to_string()));
}

fn with_port(image: &str, host_port: &str) -> ContainerConfig {
    let mut b = body(image, &[]);
    b.host_config = Some(HostConfig {
        port_bindings: Some(vec![PortBindings {
            key: "80/tcp".to_string(),
            bindings: vec![HostPort { host_port: Some(host_port.to_string()) }],
        }]),
        binds: None,
        network_mode: None,
    });
    b
}

/// Two containers that map the same host port: the second one is not started.
#[test]
fn a_host_port_is_forwarded_to_one_running_container() {
    let mut store = MemoryStore::new();
    create_container(&mut store, "a".to_string(), &with_port("alpine", "8080"));
    create_container(&mut store, "b".to_string(), &with_port("alpine", "8080"));
    create_container(&mut store, "c".to_string(), &with_port("alpine", "8081"));
    assert_eq!(start_container(&mut store, &Mock, "a"), 204);
    assert_eq!(start_container(&mut store, &Mock, "b"), 500);
    assert_eq!(status(&store, "b"), Some("created".to_string()));
    assert_eq!(start_container(&mut store, &Mock, "c"), 204);
    // once the first is stopped, the port is free again
    assert_eq!(stop_container(&mut store, &Mock, "a"), 204);
    assert_eq!(start_container(&mut store, &Mock, "b"), 204);
    let all = list_containers(&store);
    let b = all.iter().find(|c| c.id() == "b").unwrap();
    assert!(!furukawa::engine::host_port_taken("b", b.config(), &all));
    let a = all.iter().find(|c| c.id() == "a").unwrap();
    assert!(furukawa::engine::host_port_taken("a", a.config(), &all));
}

#[test]
fn decisions_of_the_handlers() {
    let failure = || Error::new(DbError("x".into()));
    assert_eq!(written_status(&Ok(()), 201), 201);
    assert_eq!(written_status(&Err(failure()), 201), 500);
    assert_eq!(found_or_status(Ok(Some(5))), Ok(5));
    assert_eq!(found_or_status::<u8>(Ok(None)), Err(404));
    assert_eq!(found_or_status::<u8>(Err(failure())), Err(500));
    assert_eq!(deletion_refused(&Ok(Some("running".to_string()))), Some(409));
    assert_eq!(deletion_refused(&Ok(Some("stopped".to_string()))), None);
    assert_eq!(deletion_refused(&Ok(Some("created".to_string()))), None);
    assert_eq!(deletion_refused(&Ok(None)), Some(404));
    assert_eq!(deletion_refused(&Err(failure())), Some(500));
    assert_eq!(log_name("abc"), "abc.log");
}

#[test]
fn an_id_always_has_the_same_lock() {
    assert_eq!(stripe("", 16), 0);
    assert_eq!(stripe("a", 16), 97 % 16);
    assert_eq!(stripe("ab", 16), (97 + 98) % 16);
    assert_eq!(stripe("ab", 1), 0);
    assert_eq!(stripe("ab", 0), 0);
    assert_eq!(stripe("\u{10ffff}\u{10ffff}", 7), (2 * 0x10ffff) % 7);
    let id = new_id();
    assert_eq!(stripe(&id, 16), stripe(&id, 16));
    assert!(stripe(&id, 16) < 16);
}

#[test]
fn a_listing_shows_what_the_store_listed() {
    let config = Config { image: "alpine".to_string(), ..Config::default() };
    let one = AnyContainer::Created(Container::new("a".to_string(), config.clone()));
    let two = AnyContainer::Created(Container::new("b".to_string(), config));
    let shown = furukawa::engine::listed_or_none(Ok(vec![one, two]));
    let ids: Vec<&str> = shown.iter().map(|c| c.id()).collect();
    assert_eq!(ids, vec!["a", "b"]);
    assert!(furukawa::engine::listed_or_none(Ok(vec![])).is_empty());
    assert!(furukawa::engine::listed_or_none(Err(Error::new(DbError("x".into())))).is_empty());
}
