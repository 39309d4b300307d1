//! Root filesystems composed from image layers.
//!
//! The layers are unpacked in order into a list of placements: each says
//! that a directory, or the file that some entry of some layer holds, goes to
//! a path. A later placement at a path replaces an earlier one. Links are
//! resolved once the entries of their layer are placed, and are replaced by
//! copies of what they stand for. When all layers are unpacked, the whiteout
//! markers take effect. The host then carries out what is left, in order.

pub mod laws;
pub mod path;
pub mod whiteout;

use crate::rootfs::path::{
    components, components_of, is_prefix, is_prefix_path, is_unsafe, is_unsafe_path, link_source,
    resolve_link, same_path,
};
use crate::diagnostic::Diagnosable;
use crate::text::{clone_strings, concat2, owned, string_views};
use vstd::prelude::*;

verus! {

/// What an entry of a layer archive is.
#[derive(Debug, Clone, Copy, PartialEq, Eq, Structural)]
pub enum EntryKind {
    File,
    Directory,
    Symlink,
    Hardlink,
}

/// One entry of a layer archive, without its content.
#[derive(Debug, Clone)]
pub struct LayerEntry {
    /// The path of the entry, as the archive writes it.
    pub path: String,
    pub kind: EntryKind,
    /// What a link points to.
    pub link_name: Option<String>,
}

/// What a [`LayerEntry`] holds, as mathematical values.
pub struct EntryView {
    pub path: Seq<char>,
    pub kind: EntryKind,
    pub link_name: Option<Seq<char>>,
}

impl View for LayerEntry {
    type V = EntryView;

    open spec fn view(&self) -> EntryView {
        EntryView {
            path: self.path@,
            kind: self.kind,
            link_name: match self.link_name {
                Some(s) => Some(s@),
                None => None,
            },
        }
    }
}

/// The views of a list of entries.
pub open spec fn entry_views(v: Seq<LayerEntry>) -> Seq<EntryView> {
    Seq::new(v.len(), |i: int| v[i]@)
}

/// A layer: its digest, and its entries in the order of the archive, or
/// `None` where the content store holds no blob of that digest.
#[derive(Debug, Clone)]
pub struct Layer {
    pub digest: String,
    pub entries: Option<Vec<LayerEntry>>,
}

/// What a [`Layer`] holds, as mathematical values.
pub struct LayerView {
    pub digest: Seq<char>,
    pub entries: Option<Seq<EntryView>>,
}

impl View for Layer {
    type V = LayerView;

    open spec fn view(&self) -> LayerView {
        LayerView {
            digest: self.digest@,
            entries: match self.entries {
                Some(list) => Some(entry_views(list@)),
                None => None,
            },
        }
    }
}

/// The views of a list of layers.
pub open spec fn layer_views(v: Seq<Layer>) -> Seq<LayerView> {
    Seq::new(v.len(), |i: int| v[i]@)
}

/// What is at a path: a directory, or the file that the entry `entry` of
/// the layer `layer` holds.
#[derive(Debug, Clone, Copy, PartialEq, Eq, Structural)]
pub enum Content {
    Directory,
    File { layer: usize, entry: usize },
}

/// What is at a path, and which layer put it there.
#[derive(Debug, Clone, Copy, PartialEq, Eq, Structural)]
pub struct Node {
    pub content: Content,
    pub layer: usize,
}

/// A placement: `node` goes to `path`, given as names from the root down.
#[derive(Debug, Clone)]
pub struct Placed {
    pub path: Vec<String>,
    pub node: Node,
}

/// What a [`Placed`] holds, as mathematical values.
pub struct PlacedView {
    pub path: Seq<Seq<char>>,
    pub node: Node,
}

impl View for Placed {
    type V = PlacedView;

    open spec fn view(&self) -> PlacedView {
        PlacedView { path: string_views(self.path@), node: self.node }
    }
}

/// The views of a list of placements.
pub open spec fn tree_view(v: Seq<Placed>) -> Seq<PlacedView> {
    Seq::new(v.len(), |i: int| v[i]@)
}

/// Why a root filesystem cannot be composed, or a blob not stored.
#[derive(Debug, Clone)]
pub enum StoreError {
    /// The host's file system refused; the text is its reason.
    Io(String),
    InvalidDigest,
    /// The content store holds no blob of this digest.
    LayerNotFound(String),
    /// An entry of this path would be unpacked outside the target.
    UnsafePath(String),
}

/// What a [`StoreError`] holds, as mathematical values.
pub enum StoreErrorView {
    Io(Seq<char>),
    InvalidDigest,
    LayerNotFound(Seq<char>),
    UnsafePath(Seq<char>),
}

impl View for StoreError {
    type V = StoreErrorView;

    open spec fn view(&self) -> StoreErrorView {
        match *self {
            StoreError::Io(s) => StoreErrorView::Io(s@),
            StoreError::InvalidDigest => StoreErrorView::InvalidDigest,
            StoreError::LayerNotFound(s) => StoreErrorView::LayerNotFound(s@),
            StoreError::UnsafePath(s) => StoreErrorView::UnsafePath(s@),
        }
    }
}

impl Diagnosable for StoreError {
    open spec fn message_of(&self) -> Seq<char> {
        match *self {
            StoreError::Io(s) => "IO Error: "@ + s@,
            StoreError::InvalidDigest => "Invalid Digest"@,
            StoreError::LayerNotFound(s) => "Layer not found: "@ + s@,
            StoreError::UnsafePath(s) => "Unsafe path: "@ + s@,
        }
    }

    open spec fn code_of(&self) -> Seq<char> {
        match *self {
            StoreError::Io(_) => "FS_IO_ERROR"@,
            StoreError::InvalidDigest => "IMAGE_DIGEST_INVALID"@,
            StoreError::LayerNotFound(_) => "FS_LAYER_NOT_FOUND"@,
            StoreError::UnsafePath(_) => "FS_UNSAFE_PATH"@,
        }
    }

    open spec fn suggestion_of(&self) -> Option<Seq<char>> {
        match *self {
            StoreError::LayerNotFound(_) => Some("Pull the image again"@),
            _ => None,
        }
    }

    fn message(&self) -> (out: String) {
        match self {
            StoreError::Io(s) => concat2("IO Error: ", s.as_str()),
            StoreError::InvalidDigest => owned("Invalid Digest"),
            StoreError::LayerNotFound(s) => concat2("Layer not found: ", s.as_str()),
            StoreError::UnsafePath(s) => concat2("Unsafe path: ", s.as_str()),
        }
    }

    fn code(&self) -> (out: String) {
        match self {
            StoreError::Io(_) => owned("FS_IO_ERROR"),
            StoreError::InvalidDigest => owned("IMAGE_DIGEST_INVALID"),
            StoreError::LayerNotFound(_) => owned("FS_LAYER_NOT_FOUND"),
            StoreError::UnsafePath(_) => owned("FS_UNSAFE_PATH"),
        }
    }

    fn suggestion(&self) -> (out: Option<String>) {
        match self {
            StoreError::LayerNotFound(_) => Some(owned("Pull the image again")),
            _ => None,
        }
    }
}

// ---------------------------------------------------------------------------
// What is at a path
// ---------------------------------------------------------------------------

/// What a list of placements has at a path.
#[derive(Debug, Clone, Copy, PartialEq, Eq, Structural)]
pub enum Found {
    Absent,
    Directory,
    File { layer: usize, entry: usize },
}

/// The node of the last placement at `p`.
pub open spec fn last_at(tree: Seq<PlacedView>, p: Seq<Seq<char>>) -> Option<Node>
    decreases tree.len(),
{
    if tree.len() == 0 {
        None
    } else if tree.last().path == p {
        Some(tree.last().node)
    } else {
        last_at(tree.drop_last(), p)
    }
}

/// Whether something is placed below `p`.
pub open spec fn has_below(tree: Seq<PlacedView>, p: Seq<Seq<char>>) -> bool {
    exists|i: int|
        0 <= i < tree.len() && is_prefix_path(p, (#[trigger] tree[i]).path) && tree[i].path.len()
            > p.len()
}

/// What is at `p`: what the last placement at `p` put there; else a
/// directory, where `p` is the root or something is placed below `p`.
pub open spec fn found_at(tree: Seq<PlacedView>, p: Seq<Seq<char>>) -> Found {
    match last_at(tree, p) {
        Some(node) => match node.content {
            Content::Directory => Found::Directory,
            Content::File { layer, entry } => Found::File { layer, entry },
        },
        None => if p.len() == 0 || has_below(tree, p) {
            Found::Directory
        } else {
            Found::Absent
        },
    }
}

proof fn lemma_last_at_tail(tree: Seq<PlacedView>, p: Seq<Seq<char>>, k: int)
    requires
        0 <= k <= tree.len(),
        forall|j: int| k <= j < tree.len() ==> (#[trigger] tree[j]).path != p,
    ensures
        last_at(tree, p) == last_at(tree.take(k), p),
    decreases tree.len() - k,
{
    if k == tree.len() {
        assert(tree.take(k) =~= tree);
    } else {
        let shorter = tree.drop_last();
        assert(tree.last() == tree[tree.len() - 1]);
        assert forall|j: int| k <= j < shorter.len() implies (#[trigger] shorter[j]).path != p by {
            assert(shorter[j] == tree[j]);
        }
        lemma_last_at_tail(shorter, p, k);
        assert(shorter.take(k) =~= tree.take(k));
    }
}

/// What `tree` has at `p`.
pub fn find(tree: &Vec<Placed>, p: &Vec<String>) -> (r: Found)
    ensures
        r == found_at(tree_view(tree@), string_views(p@)),
{
    let ghost t = tree_view(tree@);
    let ghost q = string_views(p@);
    let mut i: usize = tree.len();
    while i > 0
        invariant
            i <= tree.len(),
            t == tree_view(tree@),
            q == string_views(p@),
            forall|j: int| i <= j < t.len() ==> (#[trigger] t[j]).path != q,
        decreases i,
    {
        if same_path(&tree[i - 1].path, p) {
            proof {
                lemma_last_at_tail(t, q, i as int);
                assert(t.take(i as int).last() == t[i - 1]);
            }
            return match tree[i - 1].node.content {
                Content::Directory => Found::Directory,
                Content::File { layer, entry } => Found::File { layer, entry },
            };
        }
        i -= 1;
    }
    proof {
        lemma_last_at_tail(t, q, 0);
        assert(t.take(0) =~= Seq::<PlacedView>::empty());
    }
    if p.len() == 0 {
        return Found::Directory;
    }
    let mut k: usize = 0;
    while k < tree.len()
        invariant
            k <= tree.len(),
            t == tree_view(tree@),
            q == string_views(p@),
            p.len() > 0,
            last_at(t, q) is None,
            forall|j: int|
                0 <= j < k ==> !(is_prefix_path(q, (#[trigger] t[j]).path) && t[j].path.len()
                    > q.len()),
        decreases tree.len() - k,
    {
        if tree[k].path.len() > p.len() && is_prefix(p, &tree[k].path) {
            proof {
                assert(is_prefix_path(q, t[k as int].path) && t[k as int].path.len() > q.len());
            }
            return Found::Directory;
        }
        k += 1;
    }
    Found::Absent
}

// ---------------------------------------------------------------------------
// Links
// ---------------------------------------------------------------------------

/// The copies, placed below `to` by the layer `layer`, of what `snapshot`
/// places below `from`, in the order of `snapshot`.
pub open spec fn copied_below(
    snapshot: Seq<PlacedView>,
    from: Seq<Seq<char>>,
    to: Seq<Seq<char>>,
    layer: usize,
) -> Seq<PlacedView>
    decreases snapshot.len(),
{
    if snapshot.len() == 0 {
        Seq::empty()
    } else {
        let rest = copied_below(snapshot.drop_last(), from, to, layer);
        let e = snapshot.last();
        if is_prefix_path(from, e.path) && e.path.len() > from.len() {
            rest.push(
                PlacedView {
                    path: to + e.path.skip(from.len() as int),
                    node: Node { content: e.node.content, layer },
                },
            )
        } else {
            rest
        }
    }
}

/// The placements after a link at `link_path` to `source` is replaced by a
/// copy: nothing is placed where the source is absent or outside the root;
/// a file is placed for a file; for a directory, a directory and a copy of
/// all that is placed below the source.
pub open spec fn linked(
    tree: Seq<PlacedView>,
    link_path: Seq<Seq<char>>,
    source: Option<Seq<Seq<char>>>,
    layer: usize,
) -> Seq<PlacedView> {
    match source {
        None => tree,
        Some(from) => match found_at(tree, from) {
            Found::Absent => tree,
            Found::File { layer: l, entry } => tree.push(
                PlacedView {
                    path: link_path,
                    node: Node { content: Content::File { layer: l, entry }, layer },
                },
            ),
            Found::Directory => tree.push(
                PlacedView { path: link_path, node: Node { content: Content::Directory, layer } },
            ) + copied_below(tree, from, link_path, layer),
        },
    }
}

fn copy_below(snapshot: &Vec<Placed>, from: &Vec<String>, to: &Vec<String>, layer: usize) -> (out:
    Vec<Placed>)
    ensures
        tree_view(out@) == copied_below(
            tree_view(snapshot@),
            string_views(from@),
            string_views(to@),
            layer,
        ),
{
    let ghost t = tree_view(snapshot@);
    let ghost f = string_views(from@);
    let ghost d = string_views(to@);
    let mut out: Vec<Placed> = Vec::new();
    let mut i: usize = 0;
    proof {
        assert(t.take(0) =~= Seq::<PlacedView>::empty());
        assert(tree_view(out@) =~= Seq::<PlacedView>::empty());
    }
    while i < snapshot.len()
        invariant
            i <= snapshot.len(),
            t == tree_view(snapshot@),
            f == string_views(from@),
            d == string_views(to@),
            tree_view(out@) == copied_below(t.take(i as int), f, d, layer),
        decreases snapshot.len() - i,
    {
        let e = &snapshot[i];
        let ghost before = tree_view(out@);
        proof {
            assert(t.take(i + 1).drop_last() =~= t.take(i as int));
            assert(t.take(i + 1).last() == e@);
        }
        if e.path.len() > from.len() && is_prefix(from, &e.path) {
            let mut path = clone_strings(to);
            let mut k: usize = from.len();
            while k < e.path.len()
                invariant
                    from.len() <= k <= e.path.len(),
                    d == string_views(to@),
                    string_views(path@) == d + string_views(e.path@).subrange(
                        from.len() as int,
                        k as int,
                    ),
                decreases e.path.len() - k,
            {
                let ghost sofar = string_views(path@);
                path.push(e.path[k].clone());
                proof {
                    assert(string_views(path@) =~= sofar.push(e.path[k as int]@));
                    assert(d + string_views(e.path@).subrange(from.len() as int, k + 1) =~= (d
                        + string_views(e.path@).subrange(from.len() as int, k as int)).push(
                        e.path[k as int]@,
                    ));
                }
                k += 1;
            }
            proof {
                assert(string_views(e.path@).subrange(from.len() as int, e.path.len() as int)
                    =~= string_views(e.path@).skip(from.len() as int));
            }
            let placed = Placed { path, node: Node { content: e.node.content, layer } };
            out.push(placed);
            proof {
                assert(tree_view(out@) =~= before.push(
                    PlacedView {
                        path: d + e@.path.skip(f.len() as int),
                        node: Node { content: e@.node.content, layer },
                    },
                ));
            }
        }
        i += 1;
    }
    proof {
        assert(t.take(snapshot.len() as int) =~= t);
    }
    out
}

/// Replaces a link by a copy of what it stands for.
pub fn place_link(tree: Vec<Placed>, link_path: Vec<String>, source: Option<Vec<String>>, layer: usize) -> (out:
    Vec<Placed>)
    ensures
        tree_view(out@) == linked(
            tree_view(tree@),
            string_views(link_path@),
            match source {
                Some(s) => Some(string_views(s@)),
                None => None,
            },
            layer,
        ),
{
    let ghost t = tree_view(tree@);
    match source {
        None => tree,
        Some(from) => {
            match find(&tree, &from) {
                Found::Absent => tree,
                Found::File { layer: l, entry } => {
                    let mut out = tree;
                    let placed = Placed {
                        path: link_path,
                        node: Node { content: Content::File { layer: l, entry }, layer },
                    };
                    out.push(placed);
                    proof {
                        assert(tree_view(out@) =~= t.push(placed@));
                    }
                    out
                },
                Found::Directory => {
                    let mut copies = copy_below(&tree, &from, &link_path, layer);
                    let ghost c = tree_view(copies@);
                    let mut out = tree;
                    let placed = Placed {
                        path: link_path,
                        node: Node { content: Content::Directory, layer },
                    };
                    out.push(placed);
                    out.append(&mut copies);
                    proof {
                        assert(tree_view(out@) =~= t.push(placed@) + c);
                    }
                    out
                },
            }
        },
    }
}

// ---------------------------------------------------------------------------
// Unpacking a layer
// ---------------------------------------------------------------------------

/// The placements after the files and directories among the first `upto`
/// entries of a layer are placed, in order: the error of the first entry
/// with an unsafe path, whatever its kind. Links are left for later; an
/// entry for the root itself places nothing.
pub open spec fn extracted(
    tree: Seq<PlacedView>,
    entries: Seq<EntryView>,
    layer: usize,
    upto: int,
) -> Result<Seq<PlacedView>, StoreErrorView>
    decreases upto,
{
    if upto <= 0 {
        Ok(tree)
    } else {
        match extracted(tree, entries, layer, upto - 1) {
            Err(e) => Err(e),
            Ok(t) => {
                let e = entries[upto - 1];
                let path = components_of(e.path);
                if is_unsafe_path(e.path) {
                    Err(StoreErrorView::UnsafePath(e.path))
                } else if path.len() == 0 {
                    Ok(t)
                } else {
                    match e.kind {
                        EntryKind::File => Ok(
                            t.push(
                                PlacedView {
                                    path,
                                    node: Node {
                                        content: Content::File {
                                            layer,
                                            entry: (upto - 1) as usize,
                                        },
                                        layer,
                                    },
                                },
                            ),
                        ),
                        EntryKind::Directory => Ok(
                            t.push(
                                PlacedView {
                                    path,
                                    node: Node { content: Content::Directory, layer },
                                },
                            ),
                        ),
                        _ => Ok(t),
                    }
                }
            },
        }
    }
}

/// The placements after the links among the first `upto` entries of a layer
/// are replaced by copies, in order. A link that names no target is passed
/// over.
pub open spec fn links_applied(
    tree: Seq<PlacedView>,
    entries: Seq<EntryView>,
    layer: usize,
    upto: int,
) -> Seq<PlacedView>
    decreases upto,
{
    if upto <= 0 {
        tree
    } else {
        let t = links_applied(tree, entries, layer, upto - 1);
        let e = entries[upto - 1];
        let path = components_of(e.path);
        match (e.kind, e.link_name) {
            (EntryKind::Symlink, Some(name)) => linked(t, path, link_source(path, name, true), layer),
            (EntryKind::Hardlink, Some(name)) => linked(
                t,
                path,
                link_source(path, name, false),
                layer,
            ),
            _ => t,
        }
    }
}

/// The placements after a layer is unpacked onto `tree`: first its files
/// and directories, then its links.
pub open spec fn unpacked(tree: Seq<PlacedView>, entries: Seq<EntryView>, layer: usize) -> Result<
    Seq<PlacedView>,
    StoreErrorView,
> {
    match extracted(tree, entries, layer, entries.len() as int) {
        Ok(t) => Ok(links_applied(t, entries, layer, entries.len() as int)),
        Err(e) => Err(e),
    }
}

/// Unpacks the entries of the layer number `layer` onto `tree`.
pub fn unpack_layer(tree: Vec<Placed>, entries: &Vec<LayerEntry>, layer: usize) -> (r: Result<
    Vec<Placed>,
    StoreError,
>)
    ensures
        match r {
            Ok(out) => unpacked(tree_view(tree@), entry_views(entries@), layer) == Ok::<
                Seq<PlacedView>,
                StoreErrorView,
            >(tree_view(out@)),
            Err(e) => unpacked(tree_view(tree@), entry_views(entries@), layer) == Err::<
                Seq<PlacedView>,
                StoreErrorView,
            >(e@),
        },
{
    let ghost start = tree_view(tree@);
    let ghost list = entry_views(entries@);
    let mut out = tree;
    let mut i: usize = 0;
    while i < entries.len()
        invariant
            i <= entries.len(),
            start == tree_view(tree@),
            list == entry_views(entries@),
            extracted(start, list, layer, i as int) == Ok::<Seq<PlacedView>, StoreErrorView>(
                tree_view(out@),
            ),
        decreases entries.len() - i,
    {
        let e = &entries[i];
        let ghost before = tree_view(out@);
        proof {
            assert(list[i as int] == e@);
        }
        if is_unsafe(e.path.as_str()) {
            proof {
                lemma_extraction_stays_failed(start, list, layer, i + 1, entries.len() as int);
            }
            return Err(StoreError::UnsafePath(e.path.clone()));
        }
        let path = components(e.path.as_str());
        if path.len() > 0 {
            match e.kind {
                EntryKind::File => {
                    let placed = Placed {
                        path,
                        node: Node { content: Content::File { layer, entry: i }, layer },
                    };
                    out.push(placed);
                    proof {
                        assert(tree_view(out@) =~= before.push(placed@));
                    }
                },
                EntryKind::Directory => {
                    let placed = Placed {
                        path,
                        node: Node { content: Content::Directory, layer },
                    };
                    out.push(placed);
                    proof {
                        assert(tree_view(out@) =~= before.push(placed@));
                    }
                },
                _ => {},
            }
        }
        i += 1;
    }
    let ghost placed_all = tree_view(out@);
    let mut k: usize = 0;
    while k < entries.len()
        invariant
            k <= entries.len(),
            list == entry_views(entries@),
            links_applied(placed_all, list, layer, k as int) == tree_view(out@),
        decreases entries.len() - k,
    {
        let e = &entries[k];
        proof {
            assert(list[k as int] == e@);
        }
        match &e.link_name {
            Some(name) => {
                match e.kind {
                    EntryKind::Symlink => {
                        let path = components(e.path.as_str());
                        let source = resolve_link(&path, name.as_str(), true);
                        out = place_link(out, path, source, layer);
                    },
                    EntryKind::Hardlink => {
                        let path = components(e.path.as_str());
                        let source = resolve_link(&path, name.as_str(), false);
                        out = place_link(out, path, source, layer);
                    },
                    _ => {},
                }
            },
            None => {},
        }
        k += 1;
    }
    Ok(out)
}

/// Once an entry is refused, the layer is refused.
pub proof fn lemma_extraction_stays_failed(
    tree: Seq<PlacedView>,
    entries: Seq<EntryView>,
    layer: usize,
    k: int,
    n: int,
)
    requires
        0 <= k <= n,
        extracted(tree, entries, layer, k) is Err,
    ensures
        extracted(tree, entries, layer, n) == extracted(tree, entries, layer, k),
    decreases n - k,
{
    if k < n {
        lemma_extraction_stays_failed(tree, entries, layer, k, n - 1);
    }
}

} // verus!
