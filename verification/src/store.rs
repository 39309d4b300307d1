//! The content store: where the blobs of layers and the config documents
//! of images are kept on the host.

use crate::hostpath::{HostPath, HostPathView};
use crate::text::{concat2, from_chars, owned, replace, replaced, string_views, to_chars};
use vstd::prelude::*;

verus! {

/// Something that can say whether a path exists on the host.
pub trait FileSystem {
    /// Whether `path` exists.
    fn path_exists(&self, path: &str) -> bool;
}

/// The file system of the host.
#[derive(Debug, Clone, Copy)]
pub struct LocalFileSystem;

/// Asks `std::path::Path::exists` whether `path` is there. The answer
/// depends on what is on disk, so nothing is said of it.
#[verifier::external_body]
fn host_path_exists(path: &str) -> (r: bool) {
    std::path::Path::new(path).exists()
}

impl FileSystem for LocalFileSystem {
    fn path_exists(&self, path: &str) -> bool {
        host_path_exists(path)
    }
}

/// The content store below a root directory.
#[derive(Debug, Clone)]
pub struct ImageStore {
    root_path: String,
}

/// The name of the file that holds what has the digest or id `name`: the
/// name with each colon turned into an underscore.
pub open spec fn safe_name(name: Seq<char>) -> Seq<char> {
    replaced(name, ':', '_')
}

/// Where the blob of the layer `digest` is kept: `<root>/layers/<name>`.
pub open spec fn layer_path_of(root: Seq<char>, digest: Seq<char>) -> HostPathView {
    HostPathView { base: root, parts: seq!["layers"@, safe_name(digest)] }
}

/// Where the config document of the image `id` is kept:
/// `<root>/configs/<name>.json`.
pub open spec fn config_path_of(root: Seq<char>, id: Seq<char>) -> HostPathView {
    HostPathView { base: root, parts: seq!["configs"@, safe_name(id) + ".json"@] }
}

impl ImageStore {
    /// The root directory, as a mathematical value.
    pub closed spec fn root_view(&self) -> Seq<char> {
        self.root_path@
    }

    /// The content store below `root_path`.
    pub fn new(root_path: String) -> (out: ImageStore)
        ensures
            out.root_view() == root_path@,
    {
        ImageStore { root_path }
    }

    /// The root directory.
    pub fn root_path(&self) -> (out: &str)
        ensures
            out@ == self.root_view(),
    {
        self.root_path.as_str()
    }

    /// The two directories that the store keeps: `layers` and `configs`.
    pub fn directories(&self) -> (out: Vec<HostPath>)
        ensures
            out@.len() == 2,
            out@[0]@ == (HostPathView { base: self.root_view(), parts: seq!["layers"@] }),
            out@[1]@ == (HostPathView { base: self.root_view(), parts: seq!["configs"@] }),
    {
        let mut layers: Vec<String> = Vec::new();
        layers.push(owned("layers"));
        let mut configs: Vec<String> = Vec::new();
        configs.push(owned("configs"));
        proof {
            assert(string_views(layers@) =~= seq!["layers"@]);
            assert(string_views(configs@) =~= seq!["configs"@]);
        }
        let mut out: Vec<HostPath> = Vec::new();
        out.push(HostPath { base: self.root_path.clone(), parts: layers });
        out.push(HostPath { base: self.root_path.clone(), parts: configs });
        out
    }

    /// Where the blob of the layer `digest` is kept.
    pub fn layer_path(&self, digest: &str) -> (out: HostPath)
        ensures
            out@ == layer_path_of(self.root_view(), digest@),
    {
        let name = from_chars(&replace(&to_chars(digest), ':', '_'));
        let mut parts: Vec<String> = Vec::new();
        parts.push(owned("layers"));
        parts.push(name);
        proof {
            assert(string_views(parts@) =~= seq!["layers"@, safe_name(digest@)]);
        }
        HostPath { base: self.root_path.clone(), parts }
    }

    /// Where the config document of the image `id` is kept.
    pub fn config_path(&self, id: &str) -> (out: HostPath)
        ensures
            out@ == config_path_of(self.root_view(), id@),
    {
        let name = from_chars(&replace(&to_chars(id), ':', '_'));
        let mut parts: Vec<String> = Vec::new();
        parts.push(owned("configs"));
        parts.push(concat2(name.as_str(), ".json"));
        proof {
            assert(string_views(parts@) =~= seq!["configs"@, safe_name(id@) + ".json"@]);
        }
        HostPath { base: self.root_path.clone(), parts }
    }
}

} // verus!
