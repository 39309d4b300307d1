//! From a request to create a container to the container's configuration.

use crate::container::config::{
    Config, ConfigView, PortMapping, PortMappingView, VolumeMount, VolumeMountView,
};
use crate::docker::{ContainerConfig, ContainerCreateResponse, HostPort, PortBindings};
use crate::number::{parse_u16, parsed_u16};
use crate::text::{
    before_first, clone_strings, find_from, from_chars, owned, slice, split_at_first, split_once,
    str_eq, string_views, to_chars,
};
use vstd::prelude::*;

verus! {

/// The parameters of a request to create a container.
#[derive(Debug, Clone)]
pub struct CreateQueryParams {
    pub name: Option<String>,
    pub platform: Option<String>,
}

/// The container port of a key `<port>/<protocol>`: the number before the
/// first slash, or 0 where that is no port number.
pub open spec fn key_port(key: Seq<char>) -> u16 {
    match parsed_u16(before_first(key, '/')) {
        Some(port) => port,
        None => 0,
    }
}

/// The protocol of a key `<port>/<protocol>`: what stands between the
/// first slash and the next, or `tcp` where the key has no slash.
pub open spec fn key_protocol(key: Seq<char>) -> Seq<char> {
    match split_at_first(key, '/') {
        Some((_, rest)) => before_first(rest, '/'),
        None => "tcp"@,
    }
}

/// The mappings for the first `n` host ports bound to a key: one for each
/// host port that is a port number, in order.
pub open spec fn bound_upto(key: Seq<char>, bindings: Seq<HostPort>, n: int) -> Seq<
    PortMappingView,
>
    decreases n,
{
    if n <= 0 {
        Seq::empty()
    } else {
        let before = bound_upto(key, bindings, n - 1);
        match bindings[n - 1].host_port {
            Some(text) => match parsed_u16(text@) {
                Some(host_port) => before.push(
                    PortMappingView {
                        container_port: key_port(key),
                        host_port,
                        protocol: key_protocol(key),
                    },
                ),
                None => before,
            },
            None => before,
        }
    }
}

/// The mappings for the first `n` keys of the port bindings, in order.
pub open spec fn mappings_upto(entries: Seq<PortBindings>, n: int) -> Seq<PortMappingView>
    decreases n,
{
    if n <= 0 {
        Seq::empty()
    } else {
        mappings_upto(entries, n - 1) + bound_upto(
            entries[n - 1].key@,
            entries[n - 1].bindings@,
            entries[n - 1].bindings@.len() as int,
        )
    }
}

/// The mount that a bind asks for. The bind is cut at its colons into at
/// most three parts: the path on the host, the path in the container, and
/// the mode, which makes the mount read-only where it is `ro`. A bind
/// without a colon asks for nothing.
pub open spec fn mount_of(bind: Seq<char>) -> Option<VolumeMountView> {
    match split_at_first(bind, ':') {
        None => None,
        Some((host_path, rest)) => match split_at_first(rest, ':') {
            None => Some(VolumeMountView { host_path, container_path: rest, readonly: false }),
            Some((container_path, mode)) => Some(
                VolumeMountView { host_path, container_path, readonly: mode == "ro"@ },
            ),
        },
    }
}

/// The mounts that the first `n` binds ask for, in order.
pub open spec fn mounts_upto(binds: Seq<String>, n: int) -> Seq<VolumeMountView>
    decreases n,
{
    if n <= 0 {
        Seq::empty()
    } else {
        match mount_of(binds[n - 1]@) {
            Some(mount) => mounts_upto(binds, n - 1).push(mount),
            None => mounts_upto(binds, n - 1),
        }
    }
}

/// The views of an optional list of strings; those of an empty list where
/// there is none.
pub open spec fn strings_or_none(list: Option<Vec<String>>) -> Seq<Seq<char>> {
    match list {
        Some(v) => string_views(v@),
        None => Seq::empty(),
    }
}

/// The configuration that a request to create a container asks for: image,
/// command and environment as they are given; a port mapping for each host
/// port bound; a volume for each bind; and the network mode, or `bridge`
/// where none is given.
pub open spec fn config_of(body: ContainerConfig) -> ConfigView {
    ConfigView {
        image: body.image@,
        cmd: strings_or_none(body.cmd),
        port_mappings: match body.host_config {
            Some(host) => match host.port_bindings {
                Some(entries) => mappings_upto(entries@, entries@.len() as int),
                None => Seq::empty(),
            },
            None => Seq::empty(),
        },
        volumes: match body.host_config {
            Some(host) => match host.binds {
                Some(binds) => mounts_upto(binds@, binds@.len() as int),
                None => Seq::empty(),
            },
            None => Seq::empty(),
        },
        env: strings_or_none(body.env),
        network: match body.host_config {
            Some(host) => match host.network_mode {
                Some(mode) => mode@,
                None => "bridge"@,
            },
            None => "bridge"@,
        },
    }
}

/// The views of a list of port mappings.
pub open spec fn mapping_views(v: Seq<PortMapping>) -> Seq<PortMappingView> {
    Seq::new(v.len(), |i: int| v[i]@)
}

/// The views of a list of volume mounts.
pub open spec fn mount_views(v: Seq<VolumeMount>) -> Seq<VolumeMountView> {
    Seq::new(v.len(), |i: int| v[i]@)
}

fn port_of_key(key: &Vec<char>) -> (out: u16)
    ensures
        out == key_port(key@),
{
    let slash = find_from(key, '/', 0);
    proof {
        assert(key@.skip(0) =~= key@);
        assert(key@.subrange(0, slash as int) =~= key@.take(slash as int));
    }
    match parse_u16(&slice(key, 0, slash)) {
        Some(port) => port,
        None => 0,
    }
}

fn protocol_of_key(key: &Vec<char>) -> (out: String)
    ensures
        out@ == key_protocol(key@),
{
    match split_once(key, '/') {
        Some((_, rest)) => {
            let slash = find_from(&rest, '/', 0);
            proof {
                assert(rest@.skip(0) =~= rest@);
                assert(rest@.subrange(0, slash as int) =~= rest@.take(slash as int));
            }
            from_chars(&slice(&rest, 0, slash))
        },
        None => owned("tcp"),
    }
}

/// The port mappings that the bindings of one key ask for.
pub fn port_mappings_for(entry: &PortBindings) -> (out: Vec<PortMapping>)
    ensures
        mapping_views(out@) == bound_upto(
            entry.key@,
            entry.bindings@,
            entry.bindings@.len() as int,
        ),
{
    let key = to_chars(entry.key.as_str());
    let container_port = port_of_key(&key);
    let mut out: Vec<PortMapping> = Vec::new();
    let mut i: usize = 0;
    proof {
        assert(mapping_views(out@) =~= Seq::<PortMappingView>::empty());
    }
    while i < entry.bindings.len()
        invariant
            i <= entry.bindings.len(),
            key@ == entry.key@,
            container_port == key_port(entry.key@),
            mapping_views(out@) == bound_upto(entry.key@, entry.bindings@, i as int),
        decreases entry.bindings.len() - i,
    {
        let ghost before = mapping_views(out@);
        match &entry.bindings[i].host_port {
            Some(text) => {
                match parse_u16(&to_chars(text.as_str())) {
                    Some(host_port) => {
                        let mapping = PortMapping {
                            container_port,
                            host_port,
                            protocol: protocol_of_key(&key),
                        };
                        out.push(mapping);
                        proof {
                            assert(mapping_views(out@) =~= before.push(mapping@));
                        }
                    },
                    None => {},
                }
            },
            None => {},
        }
        i += 1;
    }
    out
}

/// The mount that a bind asks for.
pub fn volume_mount(bind: &str) -> (out: Option<VolumeMount>)
    ensures
        match out {
            Some(mount) => mount_of(bind@) == Some(mount@),
            None => mount_of(bind@) is None,
        },
{
    let v = to_chars(bind);
    match split_once(&v, ':') {
        None => None,
        Some((host_path, rest)) => match split_once(&rest, ':') {
            None => Some(
                VolumeMount {
                    host_path: from_chars(&host_path),
                    container_path: from_chars(&rest),
                    readonly: false,
                },
            ),
            Some((container_path, mode)) => {
                let mode_text = from_chars(&mode);
                Some(
                    VolumeMount {
                        host_path: from_chars(&host_path),
                        container_path: from_chars(&container_path),
                        readonly: str_eq(mode_text.as_str(), "ro"),
                    },
                )
            },
        },
    }
}

fn copy_or_empty(list: &Option<Vec<String>>) -> (out: Vec<String>)
    ensures
        string_views(out@) == strings_or_none(*list),
{
    match list {
        Some(v) => clone_strings(v),
        None => {
            let out: Vec<String> = Vec::new();
            proof {
                assert(string_views(out@) =~= Seq::<Seq<char>>::empty());
            }
            out
        },
    }
}

/// The configuration that a request to create a container asks for.
pub fn container_config(body: &ContainerConfig) -> (out: Config)
    ensures
        out@ == config_of(*body),
{
    let mut port_mappings: Vec<PortMapping> = Vec::new();
    let mut volumes: Vec<VolumeMount> = Vec::new();
    let mut network = owned("bridge");
    proof {
        assert(mapping_views(port_mappings@) =~= Seq::<PortMappingView>::empty());
        assert(mount_views(volumes@) =~= Seq::<VolumeMountView>::empty());
    }
    match &body.host_config {
        Some(host) => {
            match &host.port_bindings {
                Some(entries) => {
                    let mut i: usize = 0;
                    while i < entries.len()
                        invariant
                            i <= entries.len(),
                            mapping_views(port_mappings@) == mappings_upto(entries@, i as int),
                        decreases entries.len() - i,
                    {
                        let ghost before = mapping_views(port_mappings@);
                        let mut more = port_mappings_for(&entries[i]);
                        let ghost added = mapping_views(more@);
                        port_mappings.append(&mut more);
                        proof {
                            assert(mapping_views(port_mappings@) =~= before + added);
                        }
                        i += 1;
                    }
                },
                None => {},
            }
            match &host.binds {
                Some(binds) => {
                    let mut i: usize = 0;
                    while i < binds.len()
                        invariant
                            i <= binds.len(),
                            mount_views(volumes@) == mounts_upto(binds@, i as int),
                        decreases binds.len() - i,
                    {
                        let ghost before = mount_views(volumes@);
                        match volume_mount(binds[i].as_str()) {
                            Some(mount) => {
                                volumes.push(mount);
                                proof {
                                    assert(mount_views(volumes@) =~= before.push(mount@));
                                }
                            },
                            None => {},
                        }
                        i += 1;
                    }
                },
                None => {},
            }
            match &host.network_mode {
                Some(mode) => {
                    network = mode.clone();
                },
                None => {},
            }
        },
        None => {},
    }
    let out = Config {
        image: body.image.clone(),
        cmd: copy_or_empty(&body.cmd),
        port_mappings,
        volumes,
        env: copy_or_empty(&body.env),
        network,
    };
    proof {
        assert(out@.port_mappings =~= mapping_views(out.port_mappings@));
        assert(out@.volumes =~= mount_views(out.volumes@));
    }
    out
}

/// The answer to a request that created the container `id`.
pub fn create_response(id: &str) -> (out: ContainerCreateResponse)
    ensures
        out.id@ == id@,
        out.warnings@.len() == 0,
{
    ContainerCreateResponse { id: id.to_owned(), warnings: Vec::new() }
}

} // verus!
