use furukawa::rootfs::path::{components, is_unsafe, resolve_link};
use furukawa::rootfs::whiteout::{compose_rootfs, sweep, whiteout_target};
use furukawa::rootfs::{
    find, unpack_layer, Content, EntryKind, Found, Layer, LayerEntry, Node, Placed, StoreError,
};

fn file(path: &str) -> LayerEntry {
    LayerEntry { path: path.to_string(), kind: EntryKind::File, link_name: None }
}

fn dir(path: &str) -> LayerEntry {
    LayerEntry { path: path.to_string(), kind: EntryKind::Directory, link_name: None }
}

fn symlink(path: &str, target: &str) -> LayerEntry {
    LayerEntry { path: path.to_string(), kind: EntryKind::Symlink, link_name: Some(target.to_string()) }
}

fn hardlink(path: &str, target: &str) -> LayerEntry {
    LayerEntry { path: path.to_string(), kind: EntryKind::Hardlink, link_name: Some(target.to_string()) }
}

fn layer(digest: &str, entries: Vec<LayerEntry>) -> Layer {
    Layer { digest: digest.to_string(), entries: Some(entries) }
}

fn p(path: &str) -> Vec<String> {
    path.split('/').filter(|s| !s.is_empty()).map(|s| s.to_string()).collect()
}

fn paths(tree: &[Placed]) -> Vec<String> {
    tree.iter().map(|e| e.path.join("/")).collect()
}

#[test]
fn test_compose_rootfs_with_whiteouts() {
    // Layer 1: base files. Layer 2: a new version of the binary, and a whiteout of the config.
    let layer1 = layer("sha256:layer1", vec![file("etc/config"), file("usr/bin/app")]);
    let layer2 = layer("sha256:layer2", vec![file("usr/bin/app"), file("etc/.wh.config")]);
    let tree = compose_rootfs(&vec![layer1, layer2]).unwrap();

    // usr/bin/app is there, and the last word on it is the file of layer 2.
    assert_eq!(find(&tree, &p("usr/bin/app")), Found::File { layer: 1, entry: 0 });
    // etc/config and the marker are gone.
    assert_eq!(find(&tree, &p("etc/config")), Found::Absent);
    assert_eq!(find(&tree, &p("etc/.wh.config")), Found::Absent);
    assert!(!paths(&tree).iter().any(|q| q.contains(".wh.")));
    assert_eq!(paths(&tree), vec!["usr/bin/app", "usr/bin/app"]);
    assert_eq!(tree[0].node, Node { content: Content::File { layer: 0, entry: 1 }, layer: 0 });
    assert_eq!(tree[1].node, Node { content: Content::File { layer: 1, entry: 0 }, layer: 1 });
}

#[test]
fn whiteout_removes_a_directory_with_all_below() {
    let layer1 = layer("a", vec![dir("opt"), dir("opt/app"), file("opt/app/bin"), file("opt/keep")]);
    let layer2 = layer("b", vec![file("opt/.wh.app")]);
    let tree = compose_rootfs(&vec![layer1, layer2]).unwrap();
    assert_eq!(paths(&tree), vec!["opt", "opt/keep"]);
}

#[test]
fn whiteout_without_target_is_a_no_op() {
    let tree = compose_rootfs(&vec![layer("a", vec![file("etc/x"), file("etc/.wh.nothing")])]).unwrap();
    assert_eq!(paths(&tree), vec!["etc/x"]);
}

#[test]
fn whiteout_hides_what_a_later_layer_adds_again() {
    let layers = vec![
        layer("a", vec![file("etc/config")]),
        layer("b", vec![file("etc/.wh.config")]),
        layer("c", vec![file("etc/config")]),
    ];
    let tree = compose_rootfs(&layers).unwrap();
    assert!(tree.is_empty());
}

#[test]
fn opaque_marker_removes_what_earlier_layers_placed() {
    let layers = vec![
        layer("a", vec![dir("data"), file("data/old"), file("other")]),
        layer("b", vec![file("data/.wh..wh..opq"), file("data/new")]),
    ];
    let tree = compose_rootfs(&layers).unwrap();
    assert_eq!(paths(&tree), vec!["data", "other", "data/new"]);
}

#[test]
fn missing_layer_fails_with_layer_not_found() {
    let layers = vec![
        layer("sha256:a", vec![file("x")]),
        Layer { digest: "sha256:missing".to_string(), entries: None },
    ];
    match compose_rootfs(&layers) {
        Err(StoreError::LayerNotFound(d)) => assert_eq!(d, "sha256:missing"),
        other => panic!("unexpected {:?}", other),
    }
}

#[test]
fn unsafe_paths_fail_with_unsafe_path() {
    for bad in ["../etc/passwd", "/etc/passwd", "a/../../b", "a/.."] {
        match compose_rootfs(&vec![layer("a", vec![file("ok"), file(bad)])]) {
            Err(StoreError::UnsafePath(q)) => assert_eq!(q, bad),
            other => panic!("unexpected {:?}", other),
        }
        assert!(is_unsafe(bad));
    }
    for good in ["etc/passwd", "./etc/passwd", "a/..b/c", "a//b", ""] {
        assert!(!is_unsafe(good));
    }
    match compose_rootfs(&vec![layer("a", vec![symlink("../x", "y")])]) {
        Err(StoreError::UnsafePath(q)) => assert_eq!(q, "../x"),
        other => panic!("unexpected {:?}", other),
    }
}

#[test]
fn marker_that_is_a_directory_is_an_error() {
    match compose_rootfs(&vec![layer("a", vec![dir("etc/.wh.d")])]) {
        Err(StoreError::Io(text)) => assert_eq!(text, "whiteout marker is a directory"),
        other => panic!("unexpected {:?}", other),
    }
    match compose_rootfs(&vec![layer("a", vec![file("etc/.wh.d/inner")])]) {
        Err(StoreError::Io(_)) => {}
        other => panic!("unexpected {:?}", other),
    }
}

#[test]
fn components_drop_empty_pieces_and_dots() {
    assert_eq!(components("./etc//config/"), vec!["etc", "config"]);
    assert_eq!(components("a/b"), vec!["a", "b"]);
    assert_eq!(components("."), Vec::<String>::new());
    assert_eq!(components(""), Vec::<String>::new());
}

#[test]
fn links_are_resolved_beside_the_link_or_from_the_root() {
    assert_eq!(resolve_link(&p("usr/bin/sh"), "busybox", true), Some(p("usr/bin/busybox")));
    assert_eq!(resolve_link(&p("usr/bin/sh"), "../lib/x", true), Some(p("usr/lib/x")));
    assert_eq!(resolve_link(&p("usr/bin/sh"), "/bin/busybox", true), Some(p("bin/busybox")));
    assert_eq!(resolve_link(&p("usr/bin/sh"), "bin/busybox", false), Some(p("bin/busybox")));
    assert_eq!(resolve_link(&p("sh"), "../../x", true), None);
    assert_eq!(resolve_link(&p("a/b"), "./c/./d", true), Some(p("a/c/d")));
}

#[test]
fn links_become_copies() {
    let entries = vec![
        dir("bin"),
        file("bin/busybox"),
        symlink("bin/sh", "busybox"),
        hardlink("usr/tool", "bin/busybox"),
        symlink("sbin", "bin"),
        symlink("dangling", "nowhere"),
    ];
    let tree = unpack_layer(Vec::new(), &entries, 0).unwrap();
    assert_eq!(
        paths(&tree),
        vec!["bin", "bin/busybox", "bin/sh", "usr/tool", "sbin", "sbin/busybox", "sbin/sh"]
    );
    let busybox = Content::File { layer: 0, entry: 1 };
    assert_eq!(tree[2].node.content, busybox);
    assert_eq!(tree[3].node.content, busybox);
    assert_eq!(tree[4].node.content, Content::Directory);
    assert_eq!(tree[5].node.content, busybox);
    assert_eq!(tree[6].node.content, busybox);
    assert_eq!(find(&tree, &p("usr")), Found::Directory);
    assert_eq!(find(&tree, &p("dangling")), Found::Absent);
    assert_eq!(find(&tree, &p("")), Found::Directory);
}

#[test]
fn link_sees_files_of_its_own_layer_that_come_later() {
    let entries = vec![symlink("sh", "busybox"), file("busybox")];
    let tree = unpack_layer(Vec::new(), &entries, 3).unwrap();
    assert_eq!(paths(&tree), vec!["busybox", "sh"]);
    assert_eq!(tree[1].node, Node { content: Content::File { layer: 3, entry: 1 }, layer: 3 });
}

#[test]
fn sweep_of_a_tree_without_markers_keeps_all() {
    let tree = unpack_layer(Vec::new(), &vec![dir("a"), file("a/b")], 0).unwrap();
    assert_eq!(paths(&sweep(&tree).unwrap()), paths(&tree));
}

#[test]
fn whiteout_target_strips_the_prefix() {
    assert_eq!(whiteout_target(".wh.config"), Some("config".to_string()));
    assert_eq!(whiteout_target(".wh..wh..opq"), Some(".wh..opq".to_string()));
    assert_eq!(whiteout_target(".wh."), Some("".to_string()));
    assert_eq!(whiteout_target("config"), None);
    assert_eq!(whiteout_target(".wh"), None);
}
