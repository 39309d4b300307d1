//! Volumes: named directories below the volumes root.

use crate::hostpath::{HostPath, HostPathView};
use crate::text::{owned, string_views};
use vstd::prelude::*;

verus! {

/// A volume as the Engine API describes it.
#[derive(Debug, Clone)]
pub struct VolumeInfo {
    pub name: String,
    pub driver: String,
    pub mountpoint: String,
    pub scope: String,
    pub labels: Vec<crate::docker::Label>,
}

/// The request to create a volume.
#[derive(Debug, Clone)]
pub struct CreateVolumeRequest {
    pub name: String,
    pub driver: Option<String>,
}

/// The directory of the volumes: `<data>/rustker_data/volumes`.
pub open spec fn volumes_root_of(data_dir: Seq<char>) -> HostPathView {
    HostPathView { base: data_dir, parts: seq!["rustker_data"@, "volumes"@] }
}

/// The directory of the volumes. `data_dir` is the data root, or `None`
/// where none is configured; then it is the working directory, `.`.
pub fn volumes_root(data_dir: Option<&str>) -> (out: HostPath)
    ensures
        out@ == volumes_root_of(
            match data_dir {
                Some(d) => d@,
                None => "."@,
            },
        ),
{
    let mut parts: Vec<String> = Vec::new();
    parts.push(owned("rustker_data"));
    parts.push(owned("volumes"));
    proof {
        assert(string_views(parts@) =~= seq!["rustker_data"@, "volumes"@]);
    }
    HostPath {
        base: match data_dir {
            Some(d) => owned(d),
            None => owned("."),
        },
        parts,
    }
}

/// The directory of the volume `name`: `<data>/rustker_data/volumes/<name>`.
pub fn volume_dir(data_dir: Option<&str>, name: &str) -> (out: HostPath)
    ensures
        out@.base == volumes_root_of(
            match data_dir {
                Some(d) => d@,
                None => "."@,
            },
        ).base,
        out@.parts == seq!["rustker_data"@, "volumes"@, name@],
{
    let mut root = volumes_root(data_dir);
    let ghost before = string_views(root.parts@);
    root.parts.push(owned(name));
    proof {
        assert(string_views(root.parts@) =~= before.push(name@));
        assert(before.push(name@) =~= seq!["rustker_data"@, "volumes"@, name@]);
    }
    root
}

/// The description of the volume `name` that is mounted at `mountpoint`:
/// a local volume of the driver `local`, without labels.
pub fn volume_info(name: &str, mountpoint: &str) -> (out: VolumeInfo)
    ensures
        out.name@ == name@,
        out.driver@ == "local"@,
        out.mountpoint@ == mountpoint@,
        out.scope@ == "local"@,
        out.labels@.len() == 0,
{
    VolumeInfo {
        name: owned(name),
        driver: owned("local"),
        mountpoint: owned(mountpoint),
        scope: owned("local"),
        labels: Vec::new(),
    }
}

/// The driver of a volume that is created: the one asked for, or `local`.
pub fn volume_driver(request: &CreateVolumeRequest) -> (out: String)
    ensures
        out@ == match request.driver {
            Some(d) => d@,
            None => "local"@,
        },
{
    match &request.driver {
        Some(d) => d.clone(),
        None => owned("local"),
    }
}

/// The status that answers a request to delete a volume: 404 where its
/// directory is not there; else 204 where it was removed, and 500 where it
/// could not be removed.
pub fn volume_delete_status(present: bool, removed: bool) -> (status: u16)
    ensures
        status == if !present {
            404u16
        } else if removed {
            204u16
        } else {
            500u16
        },
{
    if !present {
        404
    } else if removed {
        204
    } else {
        500
    }
}

} // verus!
