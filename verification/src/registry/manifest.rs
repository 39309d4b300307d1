//! Image manifests, as a registry serves them.

use crate::text::str_eq;
use vstd::prelude::*;

verus! {

/// A blob that a manifest names.
#[derive(Debug, Clone)]
pub struct Descriptor {
    pub media_type: String,
    pub size: i64,
    pub digest: String,
    pub urls: Option<Vec<String>>,
}

/// The manifest of an image for one platform: its config blob and its
/// layers, base layer first.
#[derive(Debug, Clone)]
pub struct ManifestV2 {
    pub schema_version: u32,
    pub media_type: String,
    pub config: Descriptor,
    pub layers: Vec<Descriptor>,
}

/// An operating system and a processor architecture.
#[derive(Debug, Clone)]
pub struct Platform {
    pub architecture: String,
    pub os: String,
    pub variant: Option<String>,
}

/// A manifest that a manifest list names, and the platform it is for.
#[derive(Debug, Clone)]
pub struct ManifestDescriptor {
    pub media_type: String,
    pub size: i64,
    pub digest: String,
    pub platform: Option<Platform>,
}

/// A list of manifests of one image, one for each platform.
#[derive(Debug, Clone)]
pub struct ManifestList {
    pub schema_version: u32,
    pub media_type: String,
    pub manifests: Vec<ManifestDescriptor>,
}

/// Whether a manifest is for the operating system `os` and the
/// architecture `architecture`.
pub open spec fn is_for(m: ManifestDescriptor, os: Seq<char>, architecture: Seq<char>) -> bool {
    match m.platform {
        Some(p) => p.os@ == os && p.architecture@ == architecture,
        None => false,
    }
}

/// Whether `i` is the place of the first manifest of `list` for the given
/// platform.
pub open spec fn is_first_for(
    list: Seq<ManifestDescriptor>,
    os: Seq<char>,
    architecture: Seq<char>,
    i: int,
) -> bool {
    &&& 0 <= i < list.len()
    &&& is_for(list[i], os, architecture)
    &&& forall|j: int| 0 <= j < i ==> !is_for(#[trigger] list[j], os, architecture)
}

/// Whether some manifest of `list` is for the given platform.
pub open spec fn has_manifest_for(
    list: Seq<ManifestDescriptor>,
    os: Seq<char>,
    architecture: Seq<char>,
) -> bool {
    exists|i: int| 0 <= i < list.len() && is_for(#[trigger] list[i], os, architecture)
}

impl ManifestList {
    /// The place of the first manifest for the given platform, if there is
    /// one.
    pub fn select(&self, os: &str, architecture: &str) -> (r: Option<usize>)
        ensures
            match r {
                Some(i) => is_first_for(self.manifests@, os@, architecture@, i as int),
                None => !has_manifest_for(self.manifests@, os@, architecture@),
            },
    {
        let mut i: usize = 0;
        while i < self.manifests.len()
            invariant
                i <= self.manifests.len(),
                forall|j: int|
                    0 <= j < i ==> !is_for(#[trigger] self.manifests@[j], os@, architecture@),
            decreases self.manifests.len() - i,
        {
            let matches = match &self.manifests[i].platform {
                Some(p) => str_eq(p.os.as_str(), os) && str_eq(
                    p.architecture.as_str(),
                    architecture,
                ),
                None => false,
            };
            if matches {
                return Some(i);
            }
            i += 1;
        }
        None
    }
}

} // verus!
