use ezicode::explorer::{apply_loaded_dir, collect_loaded_dirs, refresh_targets, rewrite_tree_path, toggle_dir};
use ezicode::fs_tree::TreeNode;

fn leaf(name: &str, path: &str) -> TreeNode {
    TreeNode {
        name: name.into(),
        path: path.into(),
        is_dir: false,
        expanded: false,
        children_loaded: false,
        children: Vec::new(),
    }
}

fn folder(name: &str, path: &str, expanded: bool, children: Vec<TreeNode>) -> TreeNode {
    let loaded = !children.is_empty();
    TreeNode {
        name: name.into(),
        path: path.into(),
        is_dir: true,
        expanded,
        children_loaded: loaded,
        children,
    }
}

fn sample() -> Vec<TreeNode> {
    vec![
        folder(
            "src",
            "/p/src",
            true,
            vec![folder("ui", "/p/src/ui", false, Vec::new()), leaf("main.rs", "/p/src/main.rs")],
        ),
        folder("docs", "/p/docs", false, Vec::new()),
        leaf("README.md", "/p/README.md"),
    ]
}

#[test]
fn toggling_an_unloaded_folder_asks_for_its_listing() {
    let mut tree = sample();
    let load = toggle_dir(&mut tree, "/p/docs");
    assert_eq!(load, Some("/p/docs".to_string()));
    assert!(tree[1].expanded);
    let again = toggle_dir(&mut tree, "/p/docs");
    assert_eq!(again, None);
    assert!(!tree[1].expanded);
}

#[test]
fn toggling_a_nested_folder_reaches_it() {
    let mut tree = sample();
    let load = toggle_dir(&mut tree, "/p/src/ui");
    assert_eq!(load, Some("/p/src/ui".to_string()));
    assert!(tree[0].children[0].expanded);
    assert!(tree[0].expanded);
}

#[test]
fn toggling_a_loaded_folder_loads_nothing() {
    let mut tree = sample();
    assert_eq!(toggle_dir(&mut tree, "/p/src"), None);
    assert!(!tree[0].expanded);
    assert_eq!(toggle_dir(&mut tree, "/p/src"), None);
    assert!(tree[0].expanded);
}

#[test]
fn toggling_an_unknown_path_changes_nothing() {
    let mut tree = sample();
    assert_eq!(toggle_dir(&mut tree, "/elsewhere"), None);
    assert_eq!(tree.len(), 3);
    assert!(tree[0].expanded);
    assert!(!tree[1].expanded);
    assert!(!tree[0].children[0].expanded);
}

#[test]
fn refresh_reads_the_root_and_loaded_folders() {
    let tree = sample();
    assert_eq!(refresh_targets("/p", &tree), vec!["/p".to_string(), "/p/src".to_string()]);
    let mut out = vec!["x".to_string()];
    collect_loaded_dirs(&tree, &mut out);
    assert_eq!(out, vec!["x".to_string(), "/p/src".to_string()]);
}

#[test]
fn a_fresh_root_listing_keeps_what_was_open() {
    let mut tree = sample();
    let fresh = vec![
        folder("src", "/p/src", false, Vec::new()),
        leaf("new.txt", "/p/new.txt"),
    ];
    assert!(apply_loaded_dir(&mut tree, "/p", "/p", fresh));
    assert_eq!(tree.len(), 2);
    assert!(tree[0].expanded);
    assert!(tree[0].children_loaded);
    assert_eq!(tree[0].children.len(), 2);
    assert_eq!(tree[1].name, "new.txt");
}

#[test]
fn a_fresh_listing_of_a_closed_folder_forgets_its_children() {
    let mut tree = sample();
    toggle_dir(&mut tree, "/p/src");
    assert!(apply_loaded_dir(&mut tree, "/p", "/p/src", vec![leaf("lib.rs", "/p/src/lib.rs")]));
    assert!(!tree[0].children_loaded);
    assert!(tree[0].children.is_empty());
}

#[test]
fn a_fresh_listing_of_an_open_folder_replaces_its_children() {
    let mut tree = sample();
    assert!(apply_loaded_dir(&mut tree, "/p", "/p/src", vec![leaf("lib.rs", "/p/src/lib.rs")]));
    assert_eq!(tree[0].children.len(), 1);
    assert_eq!(tree[0].children[0].path, "/p/src/lib.rs");
    assert!(!apply_loaded_dir(&mut tree, "/p", "/q/none", Vec::new()));
}

#[test]
fn a_move_renames_the_moved_nodes_and_those_below() {
    let mut tree = sample();
    rewrite_tree_path(&mut tree, "/p/src", "/p/lib");
    assert_eq!(tree[0].path, "/p/lib");
    assert_eq!(tree[0].name, "lib");
    assert_eq!(tree[0].children[1].path, "/p/lib/main.rs");
    assert_eq!(tree[0].children[1].name, "main.rs");
    assert_eq!(tree[1].path, "/p/docs");
}
