//! Whiteouts: what the markers of a composed root filesystem remove, and the
//! composition of a root filesystem from its layers.

use crate::rootfs::path::{is_prefix, is_prefix_path};
use crate::rootfs::{
    layer_views, tree_view, unpack_layer, unpacked, Content, Layer, LayerView, Placed, PlacedView,
    StoreError, StoreErrorView,
};
use crate::text::{
    clone_strings, from_chars, has_prefix, owned, str_eq, string_views, strip_prefix, to_chars,
};
use vstd::prelude::*;

verus! {

/// What the name of every whiteout marker begins with.
pub open spec fn marker_prefix() -> Seq<char> {
    ".wh."@
}

/// Whether a file of this name is a whiteout marker.
pub open spec fn is_marker_name(name: Seq<char>) -> bool {
    has_prefix(name, marker_prefix())
}

/// The name that a marker of the name `name` hides in its directory.
pub open spec fn hidden_name(name: Seq<char>) -> Seq<char> {
    name.skip(marker_prefix().len() as int)
}

/// Whether a placement is a whiteout marker.
pub open spec fn is_marker(e: PlacedView) -> bool {
    e.path.len() > 0 && is_marker_name(e.path.last())
}

/// Whether a placement is the marker of an opaque directory, `.wh..wh..opq`.
pub open spec fn is_opaque(e: PlacedView) -> bool {
    is_marker(e) && hidden_name(e.path.last()) == ".wh..opq"@
}

/// The path that the marker `m` hides: the hidden name, in the directory
/// that holds the marker.
pub open spec fn hidden_path(m: PlacedView) -> Seq<Seq<char>> {
    m.path.drop_last().push(hidden_name(m.path.last()))
}

/// Whether the marker `m` removes the placement `e`. A marker removes what
/// is at the path it hides and all below it. The marker of an opaque
/// directory removes what earlier layers placed below the directory that
/// holds it.
pub open spec fn hides(m: PlacedView, e: PlacedView) -> bool {
    is_marker(m) && if is_opaque(m) {
        let dir = m.path.drop_last();
        is_prefix_path(dir, e.path) && e.path.len() > dir.len() && e.node.layer < m.node.layer
    } else {
        is_prefix_path(hidden_path(m), e.path)
    }
}

/// Whether the placement `e` is removed when the markers of `tree` take
/// effect: it is a marker, or a marker of `tree` removes it.
pub open spec fn is_swept(tree: Seq<PlacedView>, e: PlacedView) -> bool {
    is_marker(e) || exists|j: int| 0 <= j < tree.len() && hides(#[trigger] tree[j], e)
}

/// Whether a directory carries the name of a marker: the placement is a
/// directory with such a name, or lies below one.
pub open spec fn is_misplaced(e: PlacedView) -> bool {
    (is_marker(e) && e.node.content is Directory) || exists|k: int|
        0 <= k < e.path.len() - 1 && is_marker_name(#[trigger] e.path[k])
}

/// Whether some directory of `tree` carries the name of a marker.
pub open spec fn has_misplaced(tree: Seq<PlacedView>) -> bool {
    exists|i: int| 0 <= i < tree.len() && is_misplaced(#[trigger] tree[i])
}

/// Those of the first `upto` placements of `tree` that the markers of
/// `tree` leave, in order.
pub open spec fn kept_upto(tree: Seq<PlacedView>, upto: int) -> Seq<PlacedView>
    decreases upto,
{
    if upto <= 0 {
        Seq::empty()
    } else if is_swept(tree, tree[upto - 1]) {
        kept_upto(tree, upto - 1)
    } else {
        kept_upto(tree, upto - 1).push(tree[upto - 1])
    }
}

/// The text of the error for a directory that carries a marker's name.
pub open spec fn misplaced_marker_text() -> Seq<char> {
    "whiteout marker is a directory"@
}

/// The placements after the markers have taken effect: all markers are
/// gone, and so is all that they remove. A directory that carries the name
/// of a marker cannot be removed as a file; it is an error.
pub open spec fn swept(tree: Seq<PlacedView>) -> Result<Seq<PlacedView>, StoreErrorView> {
    if has_misplaced(tree) {
        Err(StoreErrorView::Io(misplaced_marker_text()))
    } else {
        Ok(kept_upto(tree, tree.len() as int))
    }
}

/// The placements after the first `upto` layers are unpacked, in order,
/// starting from nothing: the error of the first layer that is missing or
/// holds an unsafe path.
pub open spec fn unpacked_all(layers: Seq<LayerView>, upto: int) -> Result<
    Seq<PlacedView>,
    StoreErrorView,
>
    decreases upto,
{
    if upto <= 0 {
        Ok(Seq::empty())
    } else {
        match unpacked_all(layers, upto - 1) {
            Err(e) => Err(e),
            Ok(t) => match layers[upto - 1].entries {
                None => Err(StoreErrorView::LayerNotFound(layers[upto - 1].digest)),
                Some(entries) => unpacked(t, entries, (upto - 1) as usize),
            },
        }
    }
}

/// The root filesystem composed from `layers`: all layers unpacked in
/// order, then the markers taking effect.
pub open spec fn composed(layers: Seq<LayerView>) -> Result<Seq<PlacedView>, StoreErrorView> {
    match unpacked_all(layers, layers.len() as int) {
        Ok(t) => swept(t),
        Err(e) => Err(e),
    }
}

/// The name that a whiteout marker of the name `file_name` hides, if
/// `file_name` is the name of a marker.
pub fn whiteout_target(file_name: &str) -> (r: Option<String>)
    ensures
        match r {
            Some(t) => is_marker_name(file_name@) && t@ == hidden_name(file_name@),
            None => !is_marker_name(file_name@),
        },
{
    let name = to_chars(file_name);
    let prefix = to_chars(".wh.");
    match strip_prefix(&name, &prefix) {
        Some(rest) => Some(from_chars(&rest)),
        None => None,
    }
}

fn entry_is_marker(e: &Placed) -> (r: bool)
    ensures
        r == is_marker(e@),
{
    if e.path.len() == 0 {
        return false;
    }
    let last = e.path.len() - 1;
    proof {
        assert(e@.path.last() == e.path[last as int]@);
    }
    whiteout_target(e.path[last].as_str()).is_some()
}

fn entry_hides(m: &Placed, e: &Placed) -> (r: bool)
    ensures
        r == hides(m@, e@),
{
    if m.path.len() == 0 {
        return false;
    }
    let last = m.path.len() - 1;
    proof {
        assert(m@.path.last() == m.path[last as int]@);
    }
    match whiteout_target(m.path[last].as_str()) {
        None => false,
        Some(hidden) => {
            let mut dir: Vec<String> = Vec::new();
            let mut i: usize = 0;
            while i < last
                invariant
                    i <= last < m.path.len(),
                    dir.len() == i,
                    forall|j: int| 0 <= j < i ==> dir[j]@ == m.path[j]@,
                decreases last - i,
            {
                dir.push(m.path[i].clone());
                i += 1;
            }
            proof {
                assert(string_views(dir@) =~= m@.path.drop_last());
            }
            if str_eq(hidden.as_str(), ".wh..opq") {
                is_prefix(&dir, &e.path) && e.path.len() > dir.len() && e.node.layer
                    < m.node.layer
            } else {
                let ghost d = string_views(dir@);
                dir.push(hidden);
                proof {
                    assert(string_views(dir@) =~= d.push(hidden@));
                }
                is_prefix(&dir, &e.path)
            }
        },
    }
}

fn entry_is_swept(tree: &Vec<Placed>, i: usize) -> (r: bool)
    requires
        i < tree.len(),
    ensures
        r == is_swept(tree_view(tree@), tree@[i as int]@),
{
    let ghost t = tree_view(tree@);
    if entry_is_marker(&tree[i]) {
        return true;
    }
    let mut j: usize = 0;
    while j < tree.len()
        invariant
            j <= tree.len(),
            i < tree.len(),
            t == tree_view(tree@),
            forall|k: int| 0 <= k < j ==> !hides(#[trigger] t[k], tree@[i as int]@),
        decreases tree.len() - j,
    {
        if entry_hides(&tree[j], &tree[i]) {
            proof {
                assert(hides(t[j as int], tree@[i as int]@));
            }
            return true;
        }
        j += 1;
    }
    false
}

fn entry_is_misplaced(e: &Placed) -> (r: bool)
    ensures
        r == is_misplaced(e@),
{
    let is_directory = match e.node.content {
        Content::Directory => true,
        Content::File { .. } => false,
    };
    if is_directory && entry_is_marker(e) {
        return true;
    }
    if e.path.len() == 0 {
        return false;
    }
    let mut k: usize = 0;
    while k < e.path.len() - 1
        invariant
            e.path.len() > 0,
            k <= e.path.len() - 1,
            forall|j: int| 0 <= j < k ==> !is_marker_name(#[trigger] e@.path[j]),
        decreases e.path.len() - k,
    {
        proof {
            assert(e@.path[k as int] == e.path[k as int]@);
        }
        if whiteout_target(e.path[k].as_str()).is_some() {
            return true;
        }
        k += 1;
    }
    false
}

/// Lets the markers of `tree` take effect.
pub fn sweep(tree: &Vec<Placed>) -> (r: Result<Vec<Placed>, StoreError>)
    ensures
        match r {
            Ok(out) => swept(tree_view(tree@)) == Ok::<Seq<PlacedView>, StoreErrorView>(
                tree_view(out@),
            ),
            Err(e) => swept(tree_view(tree@)) == Err::<Seq<PlacedView>, StoreErrorView>(e@),
        },
{
    let ghost t = tree_view(tree@);
    let mut i: usize = 0;
    while i < tree.len()
        invariant
            i <= tree.len(),
            t == tree_view(tree@),
            forall|j: int| 0 <= j < i ==> !is_misplaced(#[trigger] t[j]),
        decreases tree.len() - i,
    {
        if entry_is_misplaced(&tree[i]) {
            proof {
                assert(is_misplaced(t[i as int]));
            }
            return Err(StoreError::Io(owned("whiteout marker is a directory")));
        }
        i += 1;
    }
    let mut out: Vec<Placed> = Vec::new();
    let mut k: usize = 0;
    proof {
        assert(tree_view(out@) =~= kept_upto(t, 0));
    }
    while k < tree.len()
        invariant
            k <= tree.len(),
            t == tree_view(tree@),
            tree_view(out@) == kept_upto(t, k as int),
        decreases tree.len() - k,
    {
        let ghost before = tree_view(out@);
        if !entry_is_swept(tree, k) {
            let copy = Placed { path: clone_strings(&tree[k].path), node: tree[k].node };
            proof {
                assert(copy@.path =~= t[k as int].path);
            }
            out.push(copy);
            proof {
                assert(tree_view(out@) =~= before.push(t[k as int]));
            }
        }
        k += 1;
    }
    Ok(out)
}

/// Composes a root filesystem from `layers`, base layer first: unpacks
/// them in order and lets the whiteout markers take effect. What is
/// returned is what the host is to place, in order.
pub fn compose_rootfs(layers: &Vec<Layer>) -> (r: Result<Vec<Placed>, StoreError>)
    ensures
        match r {
            Ok(out) => composed(layer_views(layers@)) == Ok::<Seq<PlacedView>, StoreErrorView>(
                tree_view(out@),
            ),
            Err(e) => composed(layer_views(layers@)) == Err::<Seq<PlacedView>, StoreErrorView>(
                e@,
            ),
        },
{
    let ghost all = layer_views(layers@);
    let mut tree: Vec<Placed> = Vec::new();
    let mut i: usize = 0;
    proof {
        assert(tree_view(tree@) =~= Seq::<PlacedView>::empty());
    }
    while i < layers.len()
        invariant
            i <= layers.len(),
            all == layer_views(layers@),
            unpacked_all(all, i as int) == Ok::<Seq<PlacedView>, StoreErrorView>(
                tree_view(tree@),
            ),
        decreases layers.len() - i,
    {
        proof {
            assert(all[i as int] == layers[i as int]@);
        }
        match &layers[i].entries {
            None => {
                proof {
                    lemma_unpacking_stays_failed(all, i + 1, layers.len() as int);
                }
                return Err(StoreError::LayerNotFound(layers[i].digest.clone()));
            },
            Some(entries) => {
                match unpack_layer(tree, entries, i) {
                    Ok(next) => {
                        tree = next;
                    },
                    Err(e) => {
                        proof {
                            lemma_unpacking_stays_failed(all, i + 1, layers.len() as int);
                        }
                        return Err(e);
                    },
                }
            },
        }
        i += 1;
    }
    sweep(&tree)
}

/// Once a layer is refused, the composition is refused.
pub proof fn lemma_unpacking_stays_failed(layers: Seq<LayerView>, k: int, n: int)
    requires
        0 <= k <= n,
        unpacked_all(layers, k) is Err,
    ensures
        unpacked_all(layers, n) == unpacked_all(layers, k),
    decreases n - k,
{
    if k < n {
        lemma_unpacking_stays_failed(layers, k, n - 1);
    }
}

} // verus!
