use furukawa::compose::order::{find_service, sorted_services};
use furukawa::compose::plan::{
    container_id_from, container_name, create_request, create_url, delete_url, down_plan, list_url,
    matches_container, port_binding, project_name, start_url, stop_url, up_plan,
};
use furukawa::compose::{
    CommandField, ComposeError, ComposeFile, DependsOnField, EnvField, EnvPair, Service,
    ServiceConfig,
};

fn strings(v: &[&str]) -> Vec<String> {
    v.iter().map(|s| s.to_string()).collect()
}

fn service(name: &str, depends_on: &[&str]) -> Service {
    Service {
        name: name.to_string(),
        config: ServiceConfig {
            image: None,
            build: None,
            command: CommandField::default(),
            ports: vec![],
            volumes: vec![],
            environment: EnvField::default(),
            depends_on: if depends_on.is_empty() {
                DependsOnField::default()
            } else {
                DependsOnField::List(strings(depends_on))
            },
            network_mode: None,
            restart: None,
        },
    }
}

fn compose(services: Vec<Service>) -> ComposeFile {
    ComposeFile { version: Some("3".to_string()), services, networks: vec![], volumes: vec![] }
}

/// web waits for db and cache, cache waits for db: db, cache, web; and the reverse to stop.
#[test]
fn compose_topological_order() {
    let orders = [
        vec![service("db", &[]), service("cache", &["db"]), service("web", &["db", "cache"])],
        vec![service("web", &["db", "cache"]), service("cache", &["db"]), service("db", &[])],
        vec![service("cache", &["db"]), service("web", &["db", "cache"]), service("db", &[])],
        vec![service("web", &["cache", "db"]), service("db", &[]), service("cache", &["db"])],
    ];
    for services in orders {
        let file = compose(services);
        assert_eq!(sorted_services(&file).unwrap(), vec!["db", "cache", "web"]);
        assert_eq!(down_plan(&file, "proj").unwrap(), vec!["proj-web", "proj-cache", "proj-db"]);
        let up: Vec<String> = up_plan(&file, "http://x", "proj").unwrap().into_iter().map(|l| l.service_name).collect();
        assert_eq!(up, vec!["db", "cache", "web"]);
    }
}

#[test]
fn services_without_dependencies_keep_their_order() {
    let file = compose(vec![service("b", &[]), service("a", &[]), service("c", &[])]);
    assert_eq!(sorted_services(&file).unwrap(), vec!["b", "a", "c"]);
    assert_eq!(sorted_services(&compose(vec![])).unwrap(), Vec::<String>::new());
}

#[test]
fn undefined_dependency_is_refused_by_name() {
    let file = compose(vec![service("web", &["db"])]);
    match sorted_services(&file) {
        Err(ComposeError::UndefinedService(name)) => assert_eq!(name, "db"),
        other => panic!("unexpected {:?}", other),
    }
    let e = sorted_services(&file).unwrap_err();
    assert_eq!(e.message(), "Service 'db' referenced in depends_on but not defined");
    assert!(up_plan(&file, "http://x", "p").is_err());
    assert!(down_plan(&file, "p").is_err());
}

#[test]
fn a_circle_still_names_every_service_once() {
    let file = compose(vec![service("a", &["b"]), service("b", &["a"]), service("c", &["c"])]);
    let mut order = sorted_services(&file).unwrap();
    assert_eq!(order.len(), 3);
    order.sort();
    assert_eq!(order, vec!["a", "b", "c"]);
}

#[test]
fn depends_on_as_map_keys() {
    let mut web = service("web", &[]);
    web.config.depends_on = DependsOnField::Keys(strings(&["db"]));
    assert_eq!(web.config.depends_on.service_names(), vec!["db"]);
    let file = compose(vec![web, service("db", &[])]);
    assert_eq!(sorted_services(&file).unwrap(), vec!["db", "web"]);
    assert_eq!(find_service(&file.services, "db"), Some(1));
    assert_eq!(find_service(&file.services, "nope"), None);
}

#[test]
fn command_and_env_fields_to_vec() {
    assert_eq!(CommandField::Unset.to_vec(), Vec::<String>::new());
    assert_eq!(CommandField::Shell("echo hi".to_string()).to_vec(), vec!["sh", "-c", "echo hi"]);
    assert_eq!(CommandField::List(strings(&["a", "b"])).to_vec(), vec!["a", "b"]);
    assert_eq!(EnvField::Unset.to_vec(), Vec::<String>::new());
    assert_eq!(EnvField::List(strings(&["A=1"])).to_vec(), vec!["A=1"]);
    assert_eq!(
        EnvField::Pairs(vec![
            EnvPair { key: "A".to_string(), value: "1".to_string() },
            EnvPair { key: "B".to_string(), value: "x=y".to_string() },
        ])
        .to_vec(),
        vec!["A=1", "B=x=y"]
    );
    assert_eq!(DependsOnField::Unset.service_names(), Vec::<String>::new());
}

#[test]
fn port_bindings_of_compose_ports() {
    let b = port_binding("8080:80");
    assert_eq!((b.key.as_str(), b.host_port.as_str()), ("80/tcp", "8080"));
    let b = port_binding("80");
    assert_eq!((b.key.as_str(), b.host_port.as_str()), ("80/tcp", "80"));
    let b = port_binding("127.0.0.1:8080:80");
    assert_eq!((b.key.as_str(), b.host_port.as_str()), ("8080:80/tcp", "127.0.0.1"));
}

#[test]
fn create_request_has_the_defaults() {
    let mut s = service("web", &[]);
    let r = create_request(&s.config);
    assert_eq!(r.image, "alpine:latest");
    assert_eq!(r.network_mode, "bridge");
    assert!(r.cmd.is_empty() && r.env.is_empty() && r.port_bindings.is_empty() && r.binds.is_empty());

    s.config.image = Some("nginx:1".to_string());
    s.config.command = CommandField::Shell("nginx".to_string());
    s.config.ports = strings(&["8080:80", "443"]);
    s.config.volumes = strings(&["C:\\d:/d"]);
    s.config.environment = EnvField::List(strings(&["A=1"]));
    s.config.network_mode = Some("host".to_string());
    let r = create_request(&s.config);
    assert_eq!(r.image, "nginx:1");
    assert_eq!(r.cmd, vec!["sh", "-c", "nginx"]);
    assert_eq!(r.env, vec!["A=1"]);
    assert_eq!(r.binds, vec!["C:\\d:/d"]);
    assert_eq!(r.network_mode, "host");
    let keys: Vec<(&str, &str)> = r.port_bindings.iter().map(|b| (b.key.as_str(), b.host_port.as_str())).collect();
    assert_eq!(keys, vec![("80/tcp", "8080"), ("443/tcp", "443")]);
}

#[test]
fn up_plan_names_containers_after_the_project() {
    let mut web = service("web", &["db"]);
    web.config.image = Some("nginx".to_string());
    let file = compose(vec![web, service("db", &[])]);
    let plan = up_plan(&file, "http://127.0.0.1:2375", "shop").unwrap();
    assert_eq!(plan.len(), 2);
    assert_eq!(plan[0].service_name, "db");
    assert_eq!(plan[0].container_name, "shop-db");
    assert_eq!(plan[0].create_url, "http://127.0.0.1:2375/containers/create?name=shop-db");
    assert_eq!(plan[0].request.image, "alpine:latest");
    assert_eq!(plan[1].container_name, "shop-web");
    assert_eq!(plan[1].request.image, "nginx");
}

#[test]
fn urls_of_the_engine() {
    assert_eq!(container_name("p", "s"), "p-s");
    assert_eq!(create_url("http://h", "p-s"), "http://h/containers/create?name=p-s");
    assert_eq!(start_url("http://h", "abc"), "http://h/containers/abc/start");
    assert_eq!(stop_url("http://h", "abc"), "http://h/containers/abc/stop");
    assert_eq!(delete_url("http://h", "abc"), "http://h/containers/abc");
    assert_eq!(list_url("http://h"), "http://h/containers/json?all=1");
    assert_eq!(project_name(&None), "furukawa");
    assert_eq!(project_name(&Some("x".to_string())), "x");
}

#[test]
fn containers_are_matched_by_a_part_of_a_name() {
    assert!(matches_container(&strings(&["/shop-web"]), "shop-web"));
    assert!(matches_container(&strings(&["/other", "/xshop-web1"]), "shop-web"));
    assert!(!matches_container(&strings(&["/shop-we", "/hop-web"]), "shop-web"));
    assert!(!matches_container(&vec![], "shop-web"));
    assert!(matches_container(&strings(&["anything"]), ""));
}

#[test]
fn container_id_must_be_in_the_answer() {
    assert_eq!(container_id_from(Some("abc".to_string())).unwrap(), "abc");
    assert!(matches!(container_id_from(None), Err(ComposeError::MissingContainerId)));
    assert_eq!(ComposeError::MissingContainerId.message(), "Missing container ID in response");
    assert_eq!(ComposeError::CreateFailed("x".into()).message(), "Failed to create container");
    assert_eq!(ComposeError::StartFailed("x".into()).message(), "Failed to start container");
}
