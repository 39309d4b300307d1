use furukawa::container::config::{Config, PortMapping, VolumeMount};
use furukawa::container::runtime::ContainerRuntime;
use furukawa::container::{AnyContainer, Container, ContainerError, Created, Phase, Running, Stopped};
use furukawa::diagnostic::{Diagnosable, Error};

struct MockRuntime;

impl ContainerRuntime for MockRuntime {
    fn start(&self, _container: &Container<Created>) -> Result<Running, Error> {
        Ok(Running { pid: 1234, started_at: time::OffsetDateTime::now_utc() })
    }

    fn stop(&self, _container: &Container<Running>) -> Result<(), Error> {
        Ok(())
    }
}

struct BrokenRuntime;

impl ContainerRuntime for BrokenRuntime {
    fn start(&self, _container: &Container<Created>) -> Result<Running, Error> {
        Err(Error::new(ContainerError::InvalidTransition))
    }

    fn stop(&self, _container: &Container<Running>) -> Result<(), Error> {
        Err(Error::new(ContainerError::InvalidTransition))
    }
}

fn test_config() -> Config {
    Config {
        image: "test-image".to_string(),
        cmd: vec!["test-cmd".to_string()],
        ..Config::default()
    }
}

#[test]
fn test_create_container() {
    let config = test_config();
    let c = Container::new("test-id".to_string(), config);
    assert_eq!(*c.state(), Created);
}

#[test]
fn test_valid_lifecycle() {
    let config = test_config();
    let c = Container::new("test-id".to_string(), config);
    let runtime = MockRuntime;
    let running = c.start(&runtime).expect("Should be able to start created container");
    let _stopped = running.stop(&runtime).expect("Should be able to stop running container");
}

#[test]
fn start_keeps_id_and_config_and_takes_the_runtime_state() {
    let c = Container::new("test-id".to_string(), test_config());
    let running = c.start(&MockRuntime).unwrap();
    assert_eq!(running.id(), "test-id");
    assert_eq!(*running.config(), test_config());
    assert_eq!(running.state().pid, 1234);
    let stopped = running.stop(&MockRuntime).unwrap();
    assert_eq!(stopped.id(), "test-id");
    assert_eq!(*stopped.config(), test_config());
    assert_eq!(stopped.state().exit_code, 0);
}

#[test]
fn failed_start_and_stop_hand_on_the_runtime_error() {
    let c = Container::new("test-id".to_string(), test_config());
    let e = c.start(&BrokenRuntime).unwrap_err();
    assert_eq!(e.code(), "CONTAINER_INVALID_TRANSITION");
    assert_eq!(e.message(), "Invalid transition");
    assert_eq!(e.suggestion(), Some("Check container state before operation"));
    assert_eq!(e.describe(), "Invalid transition (Code: CONTAINER_INVALID_TRANSITION)");

    let now = time::OffsetDateTime::now_utc();
    let running = Container::<Running>::restore("r".to_string(), test_config(), Running { pid: 7, started_at: now });
    let e = running.stop(&BrokenRuntime).unwrap_err();
    assert_eq!(e.code(), "CONTAINER_INVALID_TRANSITION");
}

#[test]
fn started_and_stopped_take_the_outcome_as_given() {
    let now = time::OffsetDateTime::UNIX_EPOCH;
    let c = Container::new("a".to_string(), test_config());
    let running = c.started(Ok(Running { pid: 42, started_at: now })).unwrap();
    assert_eq!(*running.state(), Running { pid: 42, started_at: now });
    let stopped = running.stopped(Ok(()), now).unwrap();
    assert_eq!(*stopped.state(), Stopped { finished_at: now, exit_code: 0 });

    let c = Container::new("b".to_string(), test_config());
    assert!(c.started(Err(Error::new(ContainerError::InvalidTransition))).is_err());
}

#[test]
fn any_container_reports_status_and_phase() {
    let now = time::OffsetDateTime::UNIX_EPOCH;
    let created = AnyContainer::Created(Container::new("c".to_string(), test_config()));
    let running = AnyContainer::Running(Container::<Running>::restore(
        "r".to_string(),
        test_config(),
        Running { pid: 1, started_at: now },
    ));
    let stopped = AnyContainer::Stopped(Container::<Stopped>::restore(
        "s".to_string(),
        test_config(),
        Stopped { finished_at: now, exit_code: 3 },
    ));
    assert_eq!(created.status(), "created");
    assert_eq!(running.status(), "running");
    assert_eq!(stopped.status(), "exited");
    assert_eq!(created.phase(), Phase::Created);
    assert_eq!(running.phase(), Phase::Running);
    assert_eq!(stopped.phase(), Phase::Stopped);
    assert_eq!(created.id(), "c");
    assert_eq!(running.id(), "r");
    assert_eq!(stopped.id(), "s");
    assert_eq!(stopped.config().image, "test-image");
    assert_eq!(Phase::Created.as_str(), "created");
    assert_eq!(Phase::Running.as_str(), "running");
    assert_eq!(Phase::Stopped.as_str(), "stopped");
    assert_eq!(Phase::parse("running"), Some(Phase::Running));
    assert_eq!(Phase::parse("exited"), None);
}

#[test]
fn default_config_uses_the_bridge_network() {
    let c = Config::default();
    assert_eq!(c.image, "");
    assert!(c.cmd.is_empty());
    assert!(c.port_mappings.is_empty());
    assert!(c.volumes.is_empty());
    assert!(c.env.is_empty());
    assert_eq!(c.network, "bridge");
}

#[test]
fn duplicate_copies_every_field() {
    let c = Config {
        image: "i".to_string(),
        cmd: vec!["a".to_string(), "b".to_string()],
        port_mappings: vec![PortMapping { container_port: 80, host_port: 8080, protocol: "tcp".to_string() }],
        volumes: vec![VolumeMount { host_path: "C:\\d".to_string(), container_path: "/d".to_string(), readonly: true }],
        env: vec!["K=V".to_string()],
        network: "host".to_string(),
    };
    assert_eq!(c.duplicate(), c);
}

#[test]
fn container_error_is_diagnosable() {
    let e = ContainerError::InvalidTransition;
    assert_eq!(e.code(), "CONTAINER_INVALID_TRANSITION");
    assert_eq!(e.suggestion(), Some("Check container state before operation".to_string()));
    assert_eq!(e.message(), "Invalid transition");
}

#[test]
fn states_are_cloned_as_they_are() {
    let now = time::OffsetDateTime::now_utc();
    let running = Running { pid: 9, started_at: now };
    assert_eq!(running.clone(), running);
    let stopped = Stopped { finished_at: now, exit_code: 2 };
    assert_eq!(stopped.clone(), stopped);
    let c = Container::<Running>::restore("id".to_string(), test_config(), running);
    assert_eq!(c.clone(), c);
}
