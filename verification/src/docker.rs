//! The documents of the Docker Engine API, version 1.45, that the engine
//! reads and writes.

use vstd::prelude::*;

verus! {

/// A label: a key and its value.
#[derive(Debug, Clone)]
pub struct Label {
    pub key: String,
    pub value: String,
}

/// The summary of an image in a listing.
#[derive(Debug, Clone)]
pub struct ImageSummary {
    pub id: String,
    pub parent_id: String,
    pub repo_tags: Option<Vec<String>>,
    pub repo_digests: Option<Vec<String>>,
    pub created: i64,
    pub size: i64,
    pub shared_size: i64,
    pub virtual_size: i64,
    pub labels: Option<Vec<Label>>,
    pub containers: i64,
}

/// A host port that a container port is bound to.
#[derive(Debug, Clone)]
pub struct HostPort {
    pub host_port: Option<String>,
}

/// The bindings of one container port: the key `<port>/<protocol>` and the
/// host ports bound to it.
#[derive(Debug, Clone)]
pub struct PortBindings {
    pub key: String,
    pub bindings: Vec<HostPort>,
}

/// The part of a request to create a container that concerns the host.
#[derive(Debug, Clone)]
pub struct HostConfig {
    pub port_bindings: Option<Vec<PortBindings>>,
    /// `<host path>:<container path>` or `<host path>:<container path>:ro`.
    pub binds: Option<Vec<String>>,
    pub network_mode: Option<String>,
}

/// The request to create a container.
#[derive(Debug, Clone)]
pub struct ContainerConfig {
    pub hostname: Option<String>,
    pub domainname: Option<String>,
    pub user: Option<String>,
    pub attach_stdin: Option<bool>,
    pub attach_stdout: Option<bool>,
    pub attach_stderr: Option<bool>,
    pub tty: Option<bool>,
    pub open_stdin: Option<bool>,
    pub stdin_once: Option<bool>,
    pub env: Option<Vec<String>>,
    pub cmd: Option<Vec<String>>,
    pub image: String,
    pub volumes: Option<Vec<String>>,
    pub working_dir: Option<String>,
    pub entrypoint: Option<Vec<String>>,
    pub network_disabled: Option<bool>,
    pub mac_address: Option<String>,
    pub on_build: Option<Vec<String>>,
    pub labels: Option<Vec<Label>>,
    pub stop_signal: Option<String>,
    pub stop_timeout: Option<isize>,
    pub shell: Option<Vec<String>>,
    pub host_config: Option<HostConfig>,
}

/// The answer to a request to create a container.
#[derive(Debug, Clone)]
pub struct ContainerCreateResponse {
    pub id: String,
    pub warnings: Vec<String>,
}

/// A port of a container in a listing.
#[derive(Debug, Clone)]
pub struct Port {
    pub ip: Option<String>,
    pub private_port: u16,
    pub public_port: Option<u16>,
    pub type_: String,
}

/// The host part of a container in a listing.
#[derive(Debug, Clone)]
pub struct HostConfigSummary {
    pub network_mode: String,
}

/// The address configuration of an endpoint.
#[derive(Debug, Clone)]
pub struct EndpointIpamConfig {
    pub ipv4_address: Option<String>,
    pub ipv6_address: Option<String>,
    pub link_local_ips: Option<Vec<String>>,
}

/// How a container is attached to a network.
#[derive(Debug, Clone)]
pub struct NetworkEndpointSettings {
    pub ipam_config: Option<EndpointIpamConfig>,
    pub links: Option<Vec<String>>,
    pub aliases: Option<Vec<String>>,
    pub network_id: String,
    pub endpoint_id: String,
    pub gateway: String,
    pub ip_address: String,
    pub ip_prefix_len: i64,
    pub ipv6_gateway: String,
    pub global_ipv6_address: String,
    pub global_ipv6_prefix_len: i64,
    pub mac_address: String,
    pub driver_opts: Option<Vec<Label>>,
}

/// A network of a container and how the container is attached to it.
#[derive(Debug, Clone)]
pub struct AttachedNetwork {
    pub name: String,
    pub settings: NetworkEndpointSettings,
}

/// The networks of a container in a listing.
#[derive(Debug, Clone)]
pub struct SummaryNetworkSettings {
    pub networks: Vec<AttachedNetwork>,
}

/// A mount of a container in a listing.
#[derive(Debug, Clone)]
pub struct Mount {
    pub name: Option<String>,
    pub source: String,
    pub destination: String,
    pub driver: Option<String>,
    pub mode: String,
    pub rw: bool,
    pub propagation: String,
    pub type_: String,
}

/// The summary of a container in a listing.
#[derive(Debug, Clone)]
pub struct ContainerSummary {
    pub id: String,
    pub names: Vec<String>,
    pub image: String,
    pub image_id: String,
    pub command: String,
    pub created: i64,
    pub ports: Vec<Port>,
    pub labels: Vec<Label>,
    pub state: String,
    pub status: String,
    pub host_config: HostConfigSummary,
    pub network_settings: SummaryNetworkSettings,
    pub mounts: Vec<Mount>,
}

/// The plugins of the engine, by kind.
#[derive(Debug, Clone)]
pub struct PluginsInfo {
    pub volume: Option<Vec<String>>,
    pub network: Option<Vec<String>>,
    pub authorization: Option<Vec<String>>,
    pub log: Option<Vec<String>>,
}

/// What the engine says of itself and of the host.
#[derive(Debug, Clone)]
pub struct SystemInfo {
    pub id: String,
    pub containers: usize,
    pub containers_running: usize,
    pub containers_paused: usize,
    pub containers_stopped: usize,
    pub images: usize,
    pub driver: String,
    pub system_status: Option<Vec<String>>,
    pub plugins: PluginsInfo,
    pub memory_limit: bool,
    pub swap_limit: bool,
    pub kernel_memory: bool,
    pub kernel_memory_t_c_p: bool,
    pub cpu_cfs_period: bool,
    pub cpu_cfs_quota: bool,
    pub c_p_u_shares: bool,
    pub c_p_u_set: bool,
    pub pids_limit: bool,
    pub oom_kill_disable: bool,
    pub i_pv4_forwarding: bool,
    pub bridge_nf_iptables: bool,
    pub bridge_nf_ip6tables: bool,
    pub debug: bool,
    pub n_fd: usize,
    pub o_o_m_score_adj: usize,
    pub n_e_vents_listener: usize,
    pub kernel_version: String,
    pub operating_system: String,
    pub o_s_type: String,
    pub architecture: String,
    pub n_c_p_u: usize,
    pub mem_total: i64,
    pub name: String,
    pub server_version: String,
}

/// The platform in the version document.
#[derive(Debug, Clone)]
pub struct Platform {
    pub name: String,
}

/// A component of the engine in the version document.
#[derive(Debug, Clone)]
pub struct Component {
    pub name: String,
    pub version: String,
}

/// The version document.
#[derive(Debug, Clone)]
pub struct Version {
    pub platform: Platform,
    pub components: Option<Vec<Component>>,
    pub version: String,
    pub api_version: String,
    pub min_a_p_i_version: String,
    pub git_commit: String,
    pub go_version: String,
    pub os: String,
    pub arch: String,
    pub kernel_version: String,
    pub experimental: bool,
    pub build_time: Option<String>,
}

} // verus!
