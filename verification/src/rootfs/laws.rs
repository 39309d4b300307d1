//! What holds of every composed root filesystem.

use crate::rootfs::path::{components_of, is_prefix_path};
use crate::rootfs::whiteout::{
    composed, hidden_name, hidden_path, hides, is_marker, is_marker_name, is_opaque, is_swept,
    kept_upto, swept, unpacked_all,
};
use crate::rootfs::{
    extracted, linked, links_applied, unpacked, Content, EntryKind, EntryView, LayerView, Node,
    PlacedView, StoreErrorView,
};
use vstd::prelude::*;

verus! {

/// Whether `longer` begins with the placements of `shorter`, in order.
pub open spec fn extends(shorter: Seq<PlacedView>, longer: Seq<PlacedView>) -> bool {
    shorter.len() <= longer.len() && forall|i: int|
        0 <= i < shorter.len() ==> longer[i] == shorter[i]
}

/// What the markers leave is part of what was there, and is all of it that
/// no marker removes.
pub proof fn lemma_kept(tree: Seq<PlacedView>, upto: int)
    requires
        0 <= upto <= tree.len(),
    ensures
        forall|i: int|
            0 <= i < kept_upto(tree, upto).len() ==> !is_swept(
                tree,
                #[trigger] kept_upto(tree, upto)[i],
            ) && tree.contains(kept_upto(tree, upto)[i]),
        forall|j: int|
            0 <= j < upto && !is_swept(tree, tree[j]) ==> kept_upto(tree, upto).contains(
                #[trigger] tree[j],
            ),
    decreases upto,
{
    if upto > 0 {
        lemma_kept(tree, upto - 1);
        let before = kept_upto(tree, upto - 1);
        let now = kept_upto(tree, upto);
        let e = tree[upto - 1];
        if !is_swept(tree, e) {
            assert(now == before.push(e));
            assert forall|i: int| 0 <= i < now.len() implies !is_swept(tree, #[trigger] now[i])
                && tree.contains(now[i]) by {
                if i < before.len() {
                    assert(now[i] == before[i]);
                } else {
                    assert(now[i] == e);
                    assert(tree[upto - 1] == e);
                }
            }
            assert forall|j: int| 0 <= j < upto && !is_swept(tree, tree[j]) implies now.contains(
                #[trigger] tree[j],
            ) by {
                if j < upto - 1 {
                    let i = choose|i: int| 0 <= i < before.len() && before[i] == tree[j];
                    assert(now[i] == tree[j]);
                } else {
                    assert(now[now.len() - 1] == tree[j]);
                }
            }
        }
    }
}

/// After the markers have taken effect, no marker remains.
pub proof fn lemma_no_marker_remains(tree: Seq<PlacedView>, out: Seq<PlacedView>)
    requires
        swept(tree) == Ok::<Seq<PlacedView>, StoreErrorView>(out),
    ensures
        forall|i: int| 0 <= i < out.len() ==> !is_marker(#[trigger] out[i]),
{
    lemma_kept(tree, tree.len() as int);
}

/// After the markers have taken effect, nothing remains at the path that a
/// marker hides, nor below it.
pub proof fn lemma_whiteout_hides(tree: Seq<PlacedView>, out: Seq<PlacedView>, j: int)
    requires
        swept(tree) == Ok::<Seq<PlacedView>, StoreErrorView>(out),
        0 <= j < tree.len(),
        is_marker(tree[j]),
        !is_opaque(tree[j]),
    ensures
        forall|i: int|
            0 <= i < out.len() ==> !is_prefix_path(hidden_path(tree[j]), (#[trigger] out[i]).path),
{
    lemma_kept(tree, tree.len() as int);
    assert forall|i: int| 0 <= i < out.len() implies !is_prefix_path(
        hidden_path(tree[j]),
        (#[trigger] out[i]).path,
    ) by {
        if is_prefix_path(hidden_path(tree[j]), out[i].path) {
            assert(hides(tree[j], out[i]));
            assert(is_swept(tree, out[i]));
        }
    }
}

/// After the markers have taken effect, what remains below a directory that
/// holds the marker of an opaque directory was placed by the marker's layer
/// or by a later one.
pub proof fn lemma_opaque_hides_earlier_layers(
    tree: Seq<PlacedView>,
    out: Seq<PlacedView>,
    j: int,
)
    requires
        swept(tree) == Ok::<Seq<PlacedView>, StoreErrorView>(out),
        0 <= j < tree.len(),
        is_opaque(tree[j]),
    ensures
        forall|i: int|
            0 <= i < out.len() && is_prefix_path(
                tree[j].path.drop_last(),
                (#[trigger] out[i]).path,
            ) && out[i].path.len() > tree[j].path.len() - 1 ==> out[i].node.layer
                >= tree[j].node.layer,
{
    lemma_kept(tree, tree.len() as int);
    assert forall|i: int|
        0 <= i < out.len() && is_prefix_path(tree[j].path.drop_last(), (#[trigger] out[i]).path)
            && out[i].path.len() > tree[j].path.len() - 1 implies out[i].node.layer
            >= tree[j].node.layer by {
        if out[i].node.layer < tree[j].node.layer {
            assert(hides(tree[j], out[i]));
            assert(is_swept(tree, out[i]));
        }
    }
}

/// The markers remove nothing else: a placement that is no marker and that
/// no marker removes remains.
pub proof fn lemma_sweep_keeps_the_rest(tree: Seq<PlacedView>, out: Seq<PlacedView>, j: int)
    requires
        swept(tree) == Ok::<Seq<PlacedView>, StoreErrorView>(out),
        0 <= j < tree.len(),
        !is_swept(tree, tree[j]),
    ensures
        out.contains(tree[j]),
{
    lemma_kept(tree, tree.len() as int);
}

/// Placing the files and directories of a layer takes nothing away.
pub proof fn lemma_extracted_extends(
    tree: Seq<PlacedView>,
    entries: Seq<EntryView>,
    layer: usize,
    upto: int,
)
    ensures
        extracted(tree, entries, layer, upto) matches Ok(t) ==> extends(tree, t),
    decreases upto,
{
    if upto > 0 {
        lemma_extracted_extends(tree, entries, layer, upto - 1);
    }
}

/// Replacing a link by a copy takes nothing away.
pub proof fn lemma_linked_extends(
    tree: Seq<PlacedView>,
    link_path: Seq<Seq<char>>,
    source: Option<Seq<Seq<char>>>,
    layer: usize,
)
    ensures
        extends(tree, linked(tree, link_path, source, layer)),
{
}

/// Replacing the links of a layer by copies takes nothing away.
pub proof fn lemma_links_extend(
    tree: Seq<PlacedView>,
    entries: Seq<EntryView>,
    layer: usize,
    upto: int,
)
    ensures
        extends(tree, links_applied(tree, entries, layer, upto)),
    decreases upto,
{
    if upto > 0 {
        lemma_links_extend(tree, entries, layer, upto - 1);
        let t = links_applied(tree, entries, layer, upto - 1);
        let e = entries[upto - 1];
        let path = components_of(e.path);
        match (e.kind, e.link_name) {
            (EntryKind::Symlink, Some(name)) => {
                lemma_linked_extends(
                    t,
                    path,
                    crate::rootfs::path::link_source(path, name, true),
                    layer,
                );
            },
            (EntryKind::Hardlink, Some(name)) => {
                lemma_linked_extends(
                    t,
                    path,
                    crate::rootfs::path::link_source(path, name, false),
                    layer,
                );
            },
            _ => {},
        }
    }
}

/// Unpacking a layer takes nothing away.
pub proof fn lemma_unpacked_extends(tree: Seq<PlacedView>, entries: Seq<EntryView>, layer: usize)
    ensures
        unpacked(tree, entries, layer) matches Ok(t) ==> extends(tree, t),
{
    lemma_extracted_extends(tree, entries, layer, entries.len() as int);
    match extracted(tree, entries, layer, entries.len() as int) {
        Ok(t) => {
            lemma_links_extend(t, entries, layer, entries.len() as int);
        },
        Err(_) => {},
    }
}

/// What the first layers have placed is still there when all are unpacked.
pub proof fn lemma_unpacked_all_extends(layers: Seq<LayerView>, k: int, n: int)
    requires
        0 <= k <= n,
        unpacked_all(layers, n) is Ok,
    ensures
        unpacked_all(layers, k) is Ok,
        extends(unpacked_all(layers, k)->Ok_0, unpacked_all(layers, n)->Ok_0),
    decreases n - k,
{
    if k < n {
        lemma_unpacked_all_extends(layers, k, n - 1);
        let t = unpacked_all(layers, n - 1)->Ok_0;
        match layers[n - 1].entries {
            Some(entries) => {
                lemma_unpacked_extends(t, entries, (n - 1) as usize);
            },
            None => {},
        }
    }
}

/// The file of an entry with a safe path is placed when its layer is
/// unpacked.
pub proof fn lemma_file_entry_is_placed(
    tree: Seq<PlacedView>,
    entries: Seq<EntryView>,
    layer: usize,
    n: int,
    upto: int,
)
    requires
        0 <= n < upto <= entries.len(),
        extracted(tree, entries, layer, upto) is Ok,
        entries[n].kind == EntryKind::File,
        components_of(entries[n].path).len() > 0,
    ensures
        extracted(tree, entries, layer, upto)->Ok_0.contains(
            PlacedView {
                path: components_of(entries[n].path),
                node: Node { content: Content::File { layer, entry: n as usize }, layer },
            },
        ),
    decreases upto,
{
    let placed = PlacedView {
        path: components_of(entries[n].path),
        node: Node { content: Content::File { layer, entry: n as usize }, layer },
    };
    let before = extracted(tree, entries, layer, upto - 1)->Ok_0;
    let now = extracted(tree, entries, layer, upto)->Ok_0;
    if n == upto - 1 {
        assert(now == before.push(placed));
        assert(now[now.len() - 1] == placed);
    } else {
        lemma_file_entry_is_placed(tree, entries, layer, n, upto - 1);
        let i = choose|i: int| 0 <= i < before.len() && before[i] == placed;
        assert(now[i] == placed);
    }
}

/// In a composed root filesystem no whiteout marker remains, and nothing
/// remains at or below the path that a marker of any layer hides: for the
/// file `.wh.x` of a layer, in the directory `p`, nothing is left at `p/x`.
///
/// Here this holds whether or not a later layer places `p/x` again: the
/// markers take effect when all layers are unpacked.
pub proof fn lemma_composed_honours_whiteouts(
    layers: Seq<LayerView>,
    out: Seq<PlacedView>,
    layer: int,
    n: int,
)
    requires
        composed(layers) == Ok::<Seq<PlacedView>, StoreErrorView>(out),
        0 <= layer < layers.len(),
        layers[layer].entries is Some,
        0 <= n < layers[layer].entries->Some_0.len(),
        layers[layer].entries->Some_0[n].kind == EntryKind::File,
        components_of(layers[layer].entries->Some_0[n].path).len() > 0,
        is_marker_name(components_of(layers[layer].entries->Some_0[n].path).last()),
        hidden_name(components_of(layers[layer].entries->Some_0[n].path).last()) != ".wh..opq"@,
    ensures
        forall|i: int| 0 <= i < out.len() ==> !is_marker(#[trigger] out[i]),
        forall|i: int|
            0 <= i < out.len() ==> !is_prefix_path(
                components_of(layers[layer].entries->Some_0[n].path).drop_last().push(
                    hidden_name(components_of(layers[layer].entries->Some_0[n].path).last()),
                ),
                (#[trigger] out[i]).path,
            ),
{
    let entries = layers[layer].entries->Some_0;
    let path = components_of(entries[n].path);
    let all = unpacked_all(layers, layers.len() as int)->Ok_0;
    lemma_no_marker_remains(all, out);
    lemma_unpacked_all_extends(layers, layer + 1, layers.len() as int);
    lemma_unpacked_all_extends(layers, layer, layer + 1);
    let base = unpacked_all(layers, layer)->Ok_0;
    let after = unpacked_all(layers, layer + 1)->Ok_0;
    let l = layer as usize;
    assert(unpacked(base, entries, l) == Ok::<Seq<PlacedView>, StoreErrorView>(after));
    let placed_all = extracted(base, entries, l, entries.len() as int)->Ok_0;
    lemma_file_entry_is_placed(base, entries, l, n, entries.len() as int);
    lemma_links_extend(placed_all, entries, l, entries.len() as int);
    let marker = PlacedView {
        path,
        node: Node { content: Content::File { layer: l, entry: n as usize }, layer: l },
    };
    let a = choose|a: int| 0 <= a < placed_all.len() && placed_all[a] == marker;
    assert(after[a] == marker);
    assert(all[a] == marker);
    lemma_whiteout_hides(all, out, a);
}

} // verus!
