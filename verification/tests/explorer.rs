use ezicode::fs_tree::{
    collapse_all, flatten_visible, merge_loaded_dir, nodes_from_entries, reload_dir_preserving, reload_dir_preserving_shallow,
    valid_entry_name, DirEntry, TreeNode,
};
use ezicode::paths::{display_name, is_same_or_descendant, path_after_move};

fn file(name: &str, path: &str) -> TreeNode {
    TreeNode {
        name: name.into(),
        path: path.into(),
        is_dir: false,
        expanded: false,
        children_loaded: false,
        children: Vec::new(),
    }
}

fn src_dir(expanded: bool) -> TreeNode {
    TreeNode {
        name: "src".into(),
        path: "/tmp/src".into(),
        is_dir: true,
        expanded,
        children_loaded: true,
        children: vec![file("main.rs", "/tmp/src/main.rs")],
    }
}

#[test]
fn shallow_merge_preserves_loaded_descendants() {
    let previous = vec![src_dir(true)];
    let current = vec![TreeNode {
        name: "src".into(),
        path: "/tmp/src".into(),
        is_dir: true,
        expanded: false,
        children_loaded: false,
        children: Vec::new(),
    }];
    let merged = merge_loaded_dir("/tmp", previous, current);
    assert!(merged[0].expanded);
    assert!(merged[0].children_loaded);
    assert_eq!(merged[0].children[0].name, "main.rs");
}

#[test]
fn entry_names_cannot_escape_the_workspace() {
    assert!(valid_entry_name("main.rs"));
    assert!(valid_entry_name(".env"));
    assert!(!valid_entry_name(""));
    assert!(!valid_entry_name("."));
    assert!(!valid_entry_name(".."));
    assert!(!valid_entry_name("../outside"));
    assert!(!valid_entry_name("nested/file.rs"));
    assert!(!valid_entry_name("nested\\\\file.rs"));
}

#[test]
fn entry_names_reject_control_characters() {
    assert!(!valid_entry_name("bad\u{7}name"));
    assert!(!valid_entry_name("   "));
    assert!(valid_entry_name("  padded.rs  "));
}

#[test]
fn move_rewrites_only_path_components() {
    assert_eq!(
        path_after_move("/project/src/main.rs", "/project/src", "/project/lib"),
        Some("/project/lib/main.rs".to_string())
    );
    assert_eq!(path_after_move("/project/src2/main.rs", "/project/src", "/project/lib"), None);
}

#[test]
fn moving_the_source_itself_gives_the_destination() {
    assert_eq!(path_after_move("/project/src", "/project/src", "/project/lib"), Some("/project/lib".to_string()));
    assert!(is_same_or_descendant("/project", "/project/src/a.rs"));
    assert!(!is_same_or_descendant("/project/src", "/project/src2"));
    assert!(is_same_or_descendant("/project/src", "/project/src"));
    assert!(is_same_or_descendant("/project/src", "/project/src/main.rs"));
    assert!(!is_same_or_descendant("/project/src", "/project/src2/main.rs"));
    assert_eq!(display_name("/project/src/main.rs"), "main.rs");
}

#[test]
fn flatten_visible_only_includes_expanded_children() {
    let mut rows = Vec::new();
    flatten_visible(&[src_dir(false)], 0, &mut rows);
    assert_eq!(rows.len(), 1);
    assert_eq!(rows[0].depth, 0);

    rows.clear();
    flatten_visible(&[src_dir(true)], 0, &mut rows);
    assert_eq!(rows.len(), 2);
    assert_eq!(rows[1].depth, 1);
}

#[test]
fn collapse_all_hides_everything_below_the_top() {
    let mut nodes = vec![src_dir(true), file("README.md", "/tmp/README.md")];
    collapse_all(&mut nodes);
    let mut rows = Vec::new();
    flatten_visible(&nodes, 0, &mut rows);
    assert_eq!(rows.len(), 2);
    assert!(!nodes[0].expanded);
}

fn entry(name: &str, is_dir: bool) -> DirEntry {
    DirEntry { name: name.into(), path: format!("/w/{}", name), is_dir }
}

#[test]
fn listing_puts_folders_first_and_skips_build_output() {
    let nodes = nodes_from_entries(vec![
        entry("b.rs", false),
        entry("target", true),
        entry("Zeta", true),
        entry("A.rs", false),
        entry(".git", true),
        entry("alpha", true),
    ]);
    let names: Vec<&str> = nodes.iter().map(|n| n.name.as_str()).collect();
    assert_eq!(names, vec!["alpha", "Zeta", "A.rs", "b.rs"]);
    assert!(nodes.iter().all(|n| !n.expanded && !n.children_loaded));
}

#[test]
fn shallow_reload_keeps_expanded_folders() {
    let previous = vec![TreeNode {
        name: "src".into(),
        path: "/w/src".into(),
        is_dir: true,
        expanded: true,
        children_loaded: true,
        children: vec![file("main.rs", "/w/src/main.rs")],
    }];
    let nodes = reload_dir_preserving_shallow("/w", previous, vec![entry("new.rs", false), entry("src", true)]);
    assert_eq!(nodes.len(), 2);
    assert_eq!(nodes[0].name, "src");
    assert!(nodes[0].expanded);
    assert_eq!(nodes[0].children.len(), 1);
    assert!(!nodes[1].expanded);
}

#[test]
fn reload_descends_into_expanded_folders() {
    let previous = vec![
        TreeNode {
            name: "src".into(),
            path: "/w/src".into(),
            is_dir: true,
            expanded: true,
            children_loaded: true,
            children: vec![file("old.rs", "/w/src/old.rs")],
        },
        TreeNode {
            name: "docs".into(),
            path: "/w/docs".into(),
            is_dir: true,
            expanded: false,
            children_loaded: true,
            children: vec![file("a.md", "/w/docs/a.md")],
        },
    ];
    let listings = vec![
        ("/w".to_string(), vec![entry("src", true), entry("docs", true), entry("x.rs", false)]),
        (
            "/w/src".to_string(),
            vec![DirEntry { name: "new.rs".into(), path: "/w/src/new.rs".into(), is_dir: false }],
        ),
    ];
    let nodes = reload_dir_preserving("/w", &previous, &listings);
    let names: Vec<&str> = nodes.iter().map(|n| n.name.as_str()).collect();
    assert_eq!(names, vec!["docs", "src", "x.rs"]);
    assert!(!nodes[0].expanded);
    assert_eq!(nodes[0].children[0].name, "a.md");
    assert!(nodes[1].expanded && nodes[1].children_loaded);
    assert_eq!(nodes[1].children.len(), 1);
    assert_eq!(nodes[1].children[0].name, "new.rs");
    assert!(reload_dir_preserving("/missing", &previous, &listings).is_empty());
}
