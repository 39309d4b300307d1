//! What a container is created with.

use crate::text::{clone_strings, owned, string_views};
use vstd::prelude::*;

verus! {

/// What a [`PortMapping`] holds, as mathematical values.
pub struct PortMappingView {
    pub container_port: u16,
    pub host_port: u16,
    pub protocol: Seq<char>,
}

impl View for PortMapping {
    type V = PortMappingView;

    open spec fn view(&self) -> PortMappingView {
        PortMappingView {
            container_port: self.container_port,
            host_port: self.host_port,
            protocol: self.protocol@,
        }
    }
}

/// What a [`VolumeMount`] holds, as mathematical values.
pub struct VolumeMountView {
    pub host_path: Seq<char>,
    pub container_path: Seq<char>,
    pub readonly: bool,
}

impl View for VolumeMount {
    type V = VolumeMountView;

    open spec fn view(&self) -> VolumeMountView {
        VolumeMountView {
            host_path: self.host_path@,
            container_path: self.container_path@,
            readonly: self.readonly,
        }
    }
}

/// What a [`Config`] holds, as mathematical values.
pub struct ConfigView {
    pub image: Seq<char>,
    pub cmd: Seq<Seq<char>>,
    pub port_mappings: Seq<PortMappingView>,
    pub volumes: Seq<VolumeMountView>,
    pub env: Seq<Seq<char>>,
    pub network: Seq<char>,
}

impl View for Config {
    type V = ConfigView;

    open spec fn view(&self) -> ConfigView {
        ConfigView {
            image: self.image@,
            cmd: string_views(self.cmd@),
            port_mappings: Seq::new(
                self.port_mappings@.len(),
                |i: int| self.port_mappings@[i]@,
            ),
            volumes: Seq::new(self.volumes@.len(), |i: int| self.volumes@[i]@),
            env: string_views(self.env@),
            network: self.network@,
        }
    }
}

/// A host port forwarded to a port of the container.
#[derive(Debug, Clone, PartialEq)]
pub struct PortMapping {
    pub container_port: u16,
    pub host_port: u16,
    /// `tcp` or `udp`.
    pub protocol: String,
}

/// A directory of the host made visible inside the container.
#[derive(Debug, Clone, PartialEq)]
pub struct VolumeMount {
    /// Absolute Windows path on the host, such as `C:\data`.
    pub host_path: String,
    /// Absolute path inside the container, such as `/data`.
    pub container_path: String,
    /// Whether the container may only read it.
    pub readonly: bool,
}

/// The immutable configuration of a container.
#[derive(Debug, Clone, PartialEq)]
pub struct Config {
    pub image: String,
    pub cmd: Vec<String>,
    pub port_mappings: Vec<PortMapping>,
    pub volumes: Vec<VolumeMount>,
    /// Strings of the form `KEY=VALUE`.
    pub env: Vec<String>,
    /// `bridge`, `host`, `none`, or the name of a network.
    pub network: String,
}

impl Default for Config {
    /// No image, no command, no ports, volumes or environment, and the
    /// network `bridge`.
    fn default() -> (out: Config)
        ensures
            out.image@.len() == 0,
            out.cmd@.len() == 0,
            out.port_mappings@.len() == 0,
            out.volumes@.len() == 0,
            out.env@.len() == 0,
            out.network@ == "bridge"@,
    {
        Config {
            image: String::new(),
            cmd: Vec::new(),
            port_mappings: Vec::new(),
            volumes: Vec::new(),
            env: Vec::new(),
            network: owned("bridge"),
        }
    }
}

impl PortMapping {
    /// A copy of this mapping.
    pub fn duplicate(&self) -> (out: PortMapping)
        ensures
            out@ == self@,
    {
        PortMapping {
            container_port: self.container_port,
            host_port: self.host_port,
            protocol: self.protocol.clone(),
        }
    }
}

impl VolumeMount {
    /// A copy of this mount.
    pub fn duplicate(&self) -> (out: VolumeMount)
        ensures
            out@ == self@,
    {
        VolumeMount {
            host_path: self.host_path.clone(),
            container_path: self.container_path.clone(),
            readonly: self.readonly,
        }
    }
}

impl Config {
    /// A copy of this configuration.
    pub fn duplicate(&self) -> (out: Config)
        ensures
            out@ == self@,
    {
        let mut port_mappings: Vec<PortMapping> = Vec::new();
        let mut i: usize = 0;
        while i < self.port_mappings.len()
            invariant
                i <= self.port_mappings.len(),
                port_mappings.len() == i,
                forall|j: int| 0 <= j < i ==> port_mappings[j]@ == self.port_mappings[j]@,
            decreases self.port_mappings.len() - i,
        {
            port_mappings.push(self.port_mappings[i].duplicate());
            i += 1;
        }
        let mut volumes: Vec<VolumeMount> = Vec::new();
        let mut k: usize = 0;
        while k < self.volumes.len()
            invariant
                k <= self.volumes.len(),
                volumes.len() == k,
                forall|j: int| 0 <= j < k ==> volumes[j]@ == self.volumes[j]@,
            decreases self.volumes.len() - k,
        {
            volumes.push(self.volumes[k].duplicate());
            k += 1;
        }
        let out = Config {
            image: self.image.clone(),
            cmd: clone_strings(&self.cmd),
            port_mappings,
            volumes,
            env: clone_strings(&self.env),
            network: self.network.clone(),
        };
        proof {
            assert(out@.port_mappings =~= self@.port_mappings);
            assert(out@.volumes =~= self@.volumes);
        }
        out
    }
}

} // verus!
