//! The requests that bring the services of a project up and down.

use crate::compose::order::{
    find_service, is_defined, is_first_named, is_start_order, sorted_services, waits_for,
};
use crate::compose::{
    command_words, env_strings, ComposeError, ComposeFile, Service, ServiceConfig,
};
use crate::text::{
    clone_strings, concat2, concat3, contains, from_chars, has_infix, owned, split_at_first,
    split_once, string_views, to_chars,
};
use vstd::prelude::*;
use vstd::string::StringExecFns;

verus! {

/// A host port bound to a port of the container: the key under which the
/// engine reads it, `<container port>/tcp`, and the host port.
#[derive(Debug, Clone)]
pub struct PortBinding {
    pub key: String,
    pub host_port: String,
}

/// What a [`PortBinding`] holds, as mathematical values.
pub struct PortBindingView {
    pub key: Seq<char>,
    pub host_port: Seq<char>,
}

impl View for PortBinding {
    type V = PortBindingView;

    open spec fn view(&self) -> PortBindingView {
        PortBindingView { key: self.key@, host_port: self.host_port@ }
    }
}

/// The binding that a port of a Compose file asks for: `<host>:<container>`
/// binds the host port to the container port; a port alone is bound to
/// itself.
pub open spec fn binding_of(port: Seq<char>) -> PortBindingView {
    match split_at_first(port, ':') {
        Some((host, container)) => PortBindingView { key: container + "/tcp"@, host_port: host },
        None => PortBindingView { key: port + "/tcp"@, host_port: port },
    }
}

/// The binding that a port of a Compose file asks for.
pub fn port_binding(port: &str) -> (out: PortBinding)
    ensures
        out@ == binding_of(port@),
{
    let v = to_chars(port);
    match split_once(&v, ':') {
        Some((host, container)) => {
            let c = from_chars(&container);
            PortBinding { key: concat2(c.as_str(), "/tcp"), host_port: from_chars(&host) }
        },
        None => PortBinding { key: concat2(port, "/tcp"), host_port: owned(port) },
    }
}

/// What the engine is asked to create a container with.
#[derive(Debug, Clone)]
pub struct CreateRequest {
    pub image: String,
    pub cmd: Vec<String>,
    pub env: Vec<String>,
    pub port_bindings: Vec<PortBinding>,
    pub binds: Vec<String>,
    pub network_mode: String,
}

/// What a [`CreateRequest`] holds, as mathematical values.
pub struct CreateRequestView {
    pub image: Seq<char>,
    pub cmd: Seq<Seq<char>>,
    pub env: Seq<Seq<char>>,
    pub port_bindings: Seq<PortBindingView>,
    pub binds: Seq<Seq<char>>,
    pub network_mode: Seq<char>,
}

impl View for CreateRequest {
    type V = CreateRequestView;

    open spec fn view(&self) -> CreateRequestView {
        CreateRequestView {
            image: self.image@,
            cmd: string_views(self.cmd@),
            env: string_views(self.env@),
            port_bindings: Seq::new(
                self.port_bindings@.len(),
                |i: int| self.port_bindings@[i]@,
            ),
            binds: string_views(self.binds@),
            network_mode: self.network_mode@,
        }
    }
}

/// The request that creates the container of a service: the image, or
/// `alpine:latest` where none is named; the words of the command; the
/// environment; a binding for each port; the volumes as binds; the network
/// mode, or `bridge` where none is named.
pub open spec fn create_request_of(service: ServiceConfig) -> CreateRequestView {
    CreateRequestView {
        image: match service.image {
            Some(image) => image@,
            None => "alpine:latest"@,
        },
        cmd: command_words(service.command),
        env: env_strings(service.environment),
        port_bindings: Seq::new(service.ports@.len(), |i: int| binding_of(service.ports@[i]@)),
        binds: string_views(service.volumes@),
        network_mode: match service.network_mode {
            Some(mode) => mode@,
            None => "bridge"@,
        },
    }
}

/// The request that creates the container of a service.
pub fn create_request(service: &ServiceConfig) -> (out: CreateRequest)
    ensures
        out@ == create_request_of(*service),
{
    let mut port_bindings: Vec<PortBinding> = Vec::new();
    let mut i: usize = 0;
    while i < service.ports.len()
        invariant
            i <= service.ports.len(),
            port_bindings.len() == i,
            forall|j: int| 0 <= j < i ==> port_bindings[j]@ == binding_of(service.ports@[j]@),
        decreases service.ports.len() - i,
    {
        port_bindings.push(port_binding(service.ports[i].as_str()));
        i += 1;
    }
    let out = CreateRequest {
        image: match &service.image {
            Some(image) => image.clone(),
            None => owned("alpine:latest"),
        },
        cmd: service.command.to_vec(),
        env: service.environment.to_vec(),
        port_bindings,
        binds: clone_strings(&service.volumes),
        network_mode: match &service.network_mode {
            Some(mode) => mode.clone(),
            None => owned("bridge"),
        },
    };
    proof {
        assert(out@.port_bindings =~= create_request_of(*service).port_bindings);
    }
    out
}

/// The name of the container of a service: `<project>-<service>`.
pub open spec fn container_name_of(project: Seq<char>, service: Seq<char>) -> Seq<char> {
    project + "-"@ + service
}

/// `<api>/containers/create?name=<name>`.
pub open spec fn create_url_of(api_base: Seq<char>, name: Seq<char>) -> Seq<char> {
    api_base + "/containers/create?name="@ + name
}

/// `<api>/containers/<id>/start`.
pub open spec fn start_url_of(api_base: Seq<char>, id: Seq<char>) -> Seq<char> {
    api_base + "/containers/"@ + id + "/start"@
}

/// `<api>/containers/<id>/stop`.
pub open spec fn stop_url_of(api_base: Seq<char>, id: Seq<char>) -> Seq<char> {
    api_base + "/containers/"@ + id + "/stop"@
}

/// `<api>/containers/<id>`.
pub open spec fn delete_url_of(api_base: Seq<char>, id: Seq<char>) -> Seq<char> {
    api_base + "/containers/"@ + id
}

/// `<api>/containers/json?all=1`.
pub open spec fn list_url_of(api_base: Seq<char>) -> Seq<char> {
    api_base + "/containers/json?all=1"@
}

/// The name of the container of a service.
pub fn container_name(project: &str, service: &str) -> (out: String)
    ensures
        out@ == container_name_of(project@, service@),
{
    concat3(project, "-", service)
}

/// The address at which the container `name` is created.
pub fn create_url(api_base: &str, name: &str) -> (out: String)
    ensures
        out@ == create_url_of(api_base@, name@),
{
    concat3(api_base, "/containers/create?name=", name)
}

/// The address at which the container `id` is started.
pub fn start_url(api_base: &str, id: &str) -> (out: String)
    ensures
        out@ == start_url_of(api_base@, id@),
{
    let mut out = concat3(api_base, "/containers/", id);
    out.append("/start");
    out
}

/// The address at which the container `id` is stopped.
pub fn stop_url(api_base: &str, id: &str) -> (out: String)
    ensures
        out@ == stop_url_of(api_base@, id@),
{
    let mut out = concat3(api_base, "/containers/", id);
    out.append("/stop");
    out
}

/// The address at which the container `id` is deleted.
pub fn delete_url(api_base: &str, id: &str) -> (out: String)
    ensures
        out@ == delete_url_of(api_base@, id@),
{
    concat3(api_base, "/containers/", id)
}

/// The address at which all containers are listed.
pub fn list_url(api_base: &str) -> (out: String)
    ensures
        out@ == list_url_of(api_base@),
{
    concat2(api_base, "/containers/json?all=1")
}

/// Whether a container known under `names` is the container `name` of a
/// project: one of its names holds `name`.
pub open spec fn is_named(names: Seq<Seq<char>>, name: Seq<char>) -> bool {
    exists|i: int| 0 <= i < names.len() && has_infix(#[trigger] names[i], name)
}

/// Whether a container known under `names` is the container `name`.
pub fn matches_container(names: &Vec<String>, name: &str) -> (r: bool)
    ensures
        r == is_named(string_views(names@), name@),
{
    let needle = to_chars(name);
    let mut i: usize = 0;
    while i < names.len()
        invariant
            i <= names.len(),
            needle@ == name@,
            forall|j: int| 0 <= j < i ==> !has_infix(#[trigger] string_views(names@)[j], name@),
        decreases names.len() - i,
    {
        if contains(&to_chars(names[i].as_str()), &needle) {
            proof {
                assert(has_infix(string_views(names@)[i as int], name@));
            }
            return true;
        }
        i += 1;
    }
    false
}

/// The container id in the engine's answer to a request to create a
/// container, where it names one.
pub fn container_id_from(id_in_answer: Option<String>) -> (r: Result<String, ComposeError>)
    ensures
        match id_in_answer {
            Some(id) => r == Ok::<String, ComposeError>(id),
            None => r matches Err(e) && e is MissingContainerId,
        },
{
    match id_in_answer {
        Some(id) => Ok(id),
        None => Err(ComposeError::MissingContainerId),
    }
}

/// What brings one service up: the container's name, the address at which
/// it is created, and the request that creates it.
#[derive(Debug, Clone)]
pub struct Launch {
    pub service_name: String,
    pub container_name: String,
    pub create_url: String,
    pub request: CreateRequest,
}

/// What a [`Launch`] holds, as mathematical values.
pub struct LaunchView {
    pub service_name: Seq<char>,
    pub container_name: Seq<char>,
    pub create_url: Seq<char>,
    pub request: CreateRequestView,
}

impl View for Launch {
    type V = LaunchView;

    open spec fn view(&self) -> LaunchView {
        LaunchView {
            service_name: self.service_name@,
            container_name: self.container_name@,
            create_url: self.create_url@,
            request: self.request@,
        }
    }
}

/// Whether `launch` brings up the service `name` of the project: the
/// container is named `<project>-<name>`, and the request is made from the
/// first service of that name.
pub open spec fn launches(
    services: Seq<Service>,
    api_base: Seq<char>,
    project: Seq<char>,
    name: Seq<char>,
    launch: LaunchView,
) -> bool {
    &&& launch.service_name == name
    &&& launch.container_name == container_name_of(project, name)
    &&& launch.create_url == create_url_of(api_base, container_name_of(project, name))
    &&& exists|i: int| #[trigger]
        is_first_named(services, name, i) && launch.request == create_request_of(
            services[i].config,
        )
}

/// What brings the services of `compose` up, in an order in which they can
/// start. After each creation the host starts the container at
/// [`start_url`].
pub fn up_plan(compose: &ComposeFile, api_base: &str, project: &str) -> (r: Result<
    Vec<Launch>,
    ComposeError,
>)
    ensures
        match r {
            Ok(plan) => exists|order: Seq<Seq<char>>|
                {
                    &&& #[trigger] is_start_order(compose.services@, order)
                    &&& plan@.len() == order.len()
                    &&& forall|i: int|
                        0 <= i < plan@.len() ==> launches(
                            compose.services@,
                            api_base@,
                            project@,
                            order[i],
                            (#[trigger] plan@[i])@,
                        )
                },
            Err(e) => {
                &&& e matches ComposeError::UndefinedService(missing)
                &&& !is_defined(compose.services@, missing@)
                &&& exists|a: Seq<char>|
                    is_defined(compose.services@, a) && waits_for(
                        compose.services@,
                        a,
                        missing@,
                    )
            },
        },
{
    let order = match sorted_services(compose) {
        Ok(order) => order,
        Err(e) => {
            return Err(e);
        },
    };
    let ghost names = string_views(order@);
    let mut plan: Vec<Launch> = Vec::new();
    let mut i: usize = 0;
    while i < order.len()
        invariant
            i <= order.len(),
            names == string_views(order@),
            is_start_order(compose.services@, names),
            plan.len() == i,
            forall|j: int|
                0 <= j < i ==> launches(
                    compose.services@,
                    api_base@,
                    project@,
                    names[j],
                    (#[trigger] plan@[j])@,
                ),
        decreases order.len() - i,
    {
        let name = order[i].as_str();
        proof {
            assert(names[i as int] == name@);
            assert(names.contains(name@));
            assert(is_defined(compose.services@, name@));
        }
        match find_service(&compose.services, name) {
            Some(index) => {
                let container = container_name(project, name);
                let launch = Launch {
                    service_name: name.to_owned(),
                    create_url: create_url(api_base, container.as_str()),
                    container_name: container,
                    request: create_request(&compose.services[index].config),
                };
                proof {
                    assert(is_first_named(compose.services@, name@, index as int));
                }
                plan.push(launch);
            },
            None => {},
        }
        i += 1;
    }
    Ok(plan)
}

/// The names of the containers of the services of `compose`, in the order
/// in which they are brought down: the reverse of an order in which they
/// can start.
pub fn down_plan(compose: &ComposeFile, project: &str) -> (r: Result<Vec<String>, ComposeError>)
    ensures
        match r {
            Ok(plan) => exists|order: Seq<Seq<char>>|
                {
                    &&& #[trigger] is_start_order(compose.services@, order)
                    &&& plan@.len() == order.len()
                    &&& forall|i: int|
                        0 <= i < plan@.len() ==> (#[trigger] plan@[i])@ == container_name_of(
                            project@,
                            order[order.len() - 1 - i],
                        )
                },
            Err(e) => {
                &&& e matches ComposeError::UndefinedService(missing)
                &&& !is_defined(compose.services@, missing@)
                &&& exists|a: Seq<char>|
                    is_defined(compose.services@, a) && waits_for(
                        compose.services@,
                        a,
                        missing@,
                    )
            },
        },
{
    let order = match sorted_services(compose) {
        Ok(order) => order,
        Err(e) => {
            return Err(e);
        },
    };
    let ghost names = string_views(order@);
    let n = order.len();
    let mut plan: Vec<String> = Vec::new();
    let mut i: usize = 0;
    while i < n
        invariant
            i <= n == order.len(),
            names == string_views(order@),
            plan.len() == i,
            forall|j: int|
                0 <= j < i ==> (#[trigger] plan@[j])@ == container_name_of(
                    project@,
                    names[n - 1 - j],
                ),
        decreases n - i,
    {
        plan.push(container_name(project, order[n - 1 - i].as_str()));
        i += 1;
    }
    Ok(plan)
}

/// The request to bring a project up.
#[derive(Debug, Clone)]
pub struct ComposeUpRequest {
    /// The text of the Compose file.
    pub compose_yaml: String,
    /// The name of the project, which begins the names of its containers.
    pub project_name: Option<String>,
}

/// The answer to a request that brought a project up.
#[derive(Debug, Clone)]
pub struct ComposeUpResponse {
    pub started: Vec<crate::compose::StartedService>,
}

/// The request to bring a project down.
#[derive(Debug, Clone)]
pub struct ComposeDownRequest {
    pub compose_yaml: String,
    pub project_name: Option<String>,
}

/// The name of a project: the one given, or `furukawa`.
pub fn project_name(given: &Option<String>) -> (out: String)
    ensures
        out@ == match *given {
            Some(name) => name@,
            None => "furukawa"@,
        },
{
    match given {
        Some(name) => name.clone(),
        None => owned("furukawa"),
    }
}

} // verus!
