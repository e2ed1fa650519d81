use ezicode::entry_ops::{
    check_move_target, check_new_entry, check_paste_target, check_rename, copied_path_status, created_status,
    creation_folder, creation_start, deleted_status, entry_target, move_destination, moved_status, paste_destination,
    paste_folder, path_in_workspace, relative_path, rename_target, renamed_status, same_parent, selection_after_delete,
    to_clipboard, CreatingKind, CreationStart, RenameCheck, TransferStep,
};
use ezicode::explorer::{ensure_directory_visible, explorer_key_action, reveal_tree_path, ExplorerKey};
use ezicode::fs_tree::{DirEntry, TreeNode, VisibleTreeRow};
use ezicode::goto::{goto_placeholder, goto_target, jumped_status, line_cursor, parse_u32, query_line_part, GotoTarget};
use ezicode::palette::{palette_command, PaletteCommand, ThemeChoice};
use ezicode::picker::{command_palette_items, reorder_cached_files, walk_includes, PickerItem};
use ezicode::lsp_events::{lsp_reaction, LspEvent, LspReaction};
use ezicode::workspace::{dirs_to_reload, theme_index, Activity, Sidebar};

fn row(path: &str, is_dir: bool, expanded: bool, depth: usize) -> VisibleTreeRow {
    VisibleTreeRow {
        name: path.rsplit('/').next().unwrap_or("").to_string(),
        path: path.to_string(),
        is_dir,
        expanded,
        depth,
    }
}

fn rows() -> Vec<VisibleTreeRow> {
    vec![
        row("/p/src", true, true, 0),
        row("/p/src/main.rs", false, false, 1),
        row("/p/src/ui", true, false, 1),
        row("/p/README.md", false, false, 0),
    ]
}

#[test]
fn explorer_keys_move_the_selection() {
    let r = rows();
    assert_eq!(explorer_key_action("down", false, false, false, &r, Some("/p/src")), ExplorerKey::Select(1));
    assert_eq!(explorer_key_action("arrowdown", false, false, false, &r, Some("/p/README.md")), ExplorerKey::Select(3));
    assert_eq!(explorer_key_action("up", false, false, false, &r, Some("/p/src")), ExplorerKey::Select(0));
    assert_eq!(explorer_key_action("arrowup", false, false, false, &r, Some("/p/src/ui")), ExplorerKey::Select(1));
    assert_eq!(explorer_key_action("home", false, false, false, &r, None), ExplorerKey::Select(0));
    assert_eq!(explorer_key_action("end", false, false, false, &r, None), ExplorerKey::Select(3));
    assert_eq!(explorer_key_action("down", false, false, false, &r, Some("/elsewhere")), ExplorerKey::Select(1));
}

#[test]
fn explorer_keys_open_and_close_folders() {
    let r = rows();
    assert_eq!(explorer_key_action("right", false, false, false, &r, Some("/p/src/ui")), ExplorerKey::Toggle(2));
    assert_eq!(explorer_key_action("right", false, false, false, &r, Some("/p/src")), ExplorerKey::Select(1));
    assert_eq!(explorer_key_action("right", false, false, false, &r, Some("/p/README.md")), ExplorerKey::Consume);
    assert_eq!(explorer_key_action("left", false, false, false, &r, Some("/p/src")), ExplorerKey::Toggle(0));
    assert_eq!(explorer_key_action("left", false, false, false, &r, Some("/p/src/main.rs")), ExplorerKey::Select(0));
    assert_eq!(explorer_key_action("left", false, false, false, &r, Some("/p/README.md")), ExplorerKey::Consume);
    assert_eq!(explorer_key_action("enter", false, false, false, &r, Some("/p/src/main.rs")), ExplorerKey::Open(1));
    assert_eq!(explorer_key_action("enter", false, false, false, &r, Some("/p/src/ui")), ExplorerKey::Toggle(2));
}

#[test]
fn explorer_keys_with_control_and_while_naming() {
    let r = rows();
    assert_eq!(explorer_key_action("c", true, false, false, &r, None), ExplorerKey::Copy);
    assert_eq!(explorer_key_action("x", true, false, false, &r, None), ExplorerKey::Cut);
    assert_eq!(explorer_key_action("v", true, false, false, &r, None), ExplorerKey::Paste);
    assert_eq!(explorer_key_action("n", true, true, false, &r, None), ExplorerKey::NewFolder);
    assert_eq!(explorer_key_action("n", true, false, false, &r, None), ExplorerKey::Pass);
    assert_eq!(explorer_key_action("c", true, true, false, &r, None), ExplorerKey::Pass);
    assert_eq!(explorer_key_action("down", false, false, true, &r, Some("/p/src")), ExplorerKey::Pass);
    assert_eq!(explorer_key_action("f2", false, false, false, &r, Some("/p/src")), ExplorerKey::Rename);
    assert_eq!(explorer_key_action("f2", false, false, false, &r, None), ExplorerKey::Pass);
    assert_eq!(explorer_key_action("delete", false, false, false, &r, Some("/p/src")), ExplorerKey::Delete);
    assert_eq!(explorer_key_action("backspace", false, false, false, &r, None), ExplorerKey::Pass);
    assert_eq!(explorer_key_action("down", false, false, false, &[], Some("/p/src")), ExplorerKey::Pass);
    assert_eq!(explorer_key_action("q", false, false, false, &r, None), ExplorerKey::Pass);
}

fn leaf(name: &str, path: &str) -> TreeNode {
    TreeNode { name: name.into(), path: path.into(), is_dir: false, expanded: false, children_loaded: false, children: Vec::new() }
}

fn folder(name: &str, path: &str) -> TreeNode {
    TreeNode { name: name.into(), path: path.into(), is_dir: true, expanded: false, children_loaded: false, children: Vec::new() }
}

fn entry(name: &str, path: &str, is_dir: bool) -> DirEntry {
    DirEntry { name: name.into(), path: path.into(), is_dir }
}

#[test]
fn revealing_a_file_opens_the_folders_above_it() {
    let mut tree = vec![folder("src", "/p/src"), leaf("README.md", "/p/README.md")];
    let listings = vec![
        ("/p/src".to_string(), vec![entry("ui", "/p/src/ui", true), entry("main.rs", "/p/src/main.rs", false)]),
        ("/p/src/ui".to_string(), vec![entry("view.rs", "/p/src/ui/view.rs", false)]),
    ];
    reveal_tree_path(&mut tree, "/p", "/p/src/ui/view.rs", &listings);
    assert!(tree[0].expanded && tree[0].children_loaded);
    assert_eq!(tree[0].children[0].path, "/p/src/ui");
    assert!(tree[0].children[0].expanded);
    assert_eq!(tree[0].children[0].children[0].name, "view.rs");
    assert!(!tree[1].expanded);
}

#[test]
fn revealing_outside_the_workspace_changes_nothing() {
    let mut tree = vec![folder("src", "/p/src")];
    reveal_tree_path(&mut tree, "/p", "/q/file.rs", &[]);
    assert!(!tree[0].expanded);
    let mut tree = vec![folder("src", "/p/src")];
    ensure_directory_visible(&mut tree, "/p", "/p", &[]);
    assert!(!tree[0].expanded);
}

#[test]
fn making_a_folder_visible_opens_it_too() {
    let mut tree = vec![folder("src", "/p/src")];
    let listings = vec![("/p/src".to_string(), vec![entry("lib.rs", "/p/src/lib.rs", false)])];
    ensure_directory_visible(&mut tree, "/p", "/p/src", &listings);
    assert!(tree[0].expanded && tree[0].children_loaded);
    assert_eq!(tree[0].children.len(), 1);
}

#[test]
fn new_entries_are_checked_before_they_are_made() {
    assert_eq!(entry_target("/p/src", "  lib.rs "), "/p/src/lib.rs");
    assert_eq!(check_new_entry(Some("/p"), "lib.rs", "/p/src/lib.rs", false), None);
    assert_eq!(
        check_new_entry(Some("/p"), "lib.rs", "/p/src/lib.rs", true),
        Some("lib.rs already exists".to_string())
    );
    assert_eq!(
        check_new_entry(Some("/p"), "../x", "/p/x", false),
        Some("Enter a valid name (without path separators)".to_string())
    );
    assert_eq!(
        check_new_entry(Some("/p"), "x", "/q/x", false),
        Some("Enter a valid name (without path separators)".to_string())
    );
    assert_eq!(created_status(CreatingKind::File, "/p/a.rs"), "Created a.rs");
    assert_eq!(created_status(CreatingKind::Folder, "/p/docs"), "Created folder docs");
}

#[test]
fn new_entries_go_to_the_chosen_folder() {
    assert_eq!(creation_folder(Some("/p/a"), Some("/p/b"), true, Some("/p")), Some("/p/a".to_string()));
    assert_eq!(creation_folder(None, Some("/p/b"), true, Some("/p")), Some("/p/b".to_string()));
    assert_eq!(creation_folder(None, Some("/p/b/c.rs"), false, Some("/p")), Some("/p/b".to_string()));
    assert_eq!(creation_folder(None, None, false, Some("/p")), Some("/p".to_string()));
    assert_eq!(creation_folder(None, None, false, None), None);
    assert!(matches!(creation_start(CreatingKind::File, None, false, None), CreationStart::NewFile));
    match creation_start(CreatingKind::Folder, None, false, None) {
        CreationStart::Refused(m) => assert_eq!(m, "Open a folder before creating a directory"),
        _ => panic!("expected a refusal"),
    }
    match creation_start(CreatingKind::File, Some("/q"), true, Some("/p")) {
        CreationStart::Refused(m) => assert_eq!(m, "The selected destination folder is unavailable"),
        _ => panic!("expected a refusal"),
    }
    assert!(matches!(creation_start(CreatingKind::File, Some("/p/src"), true, Some("/p")), CreationStart::Begin));
}

#[test]
fn renames_are_checked_before_they_happen() {
    assert_eq!(rename_target("/p/src/a.rs", " b.rs"), Some("/p/src/b.rs".to_string()));
    assert!(matches!(check_rename(Some("/p"), "/p/a.rs", "b.rs", "/p/b.rs", false), RenameCheck::Proceed));
    assert!(matches!(check_rename(Some("/p"), "/p/a.rs", "a.rs", "/p/a.rs", true), RenameCheck::Unchanged));
    match check_rename(Some("/p"), "/p/a.rs", "b.rs", "/p/b.rs", true) {
        RenameCheck::Refused(m) => assert_eq!(m, "b.rs already exists"),
        _ => panic!("expected a refusal"),
    }
    match check_rename(Some("/p"), "/p/a.rs", "x/y", "/p/x/y", false) {
        RenameCheck::Refused(m) => assert_eq!(m, "Enter a valid name (without path separators)"),
        _ => panic!("expected a refusal"),
    }
    assert!(same_parent("/p/a.rs", "/p/b.rs"));
    assert!(!same_parent("/p/a.rs", "/p/src/b.rs"));
    assert_eq!(renamed_status("/p/b.rs"), "Renamed to b.rs");
}

#[test]
fn moves_are_checked_before_they_happen() {
    match move_destination(Some("/p"), "/p/a.rs", "/p/src", true, true) {
        TransferStep::To(d) => assert_eq!(d, "/p/src/a.rs"),
        _ => panic!("expected a destination"),
    }
    match move_destination(Some("/p"), "/p/src", "/p/src/ui", true, true) {
        TransferStep::Refused(m) => assert_eq!(m, "A folder cannot be moved into itself"),
        _ => panic!("expected a refusal"),
    }
    match move_destination(Some("/p"), "/p/a.rs", "/p/src", false, true) {
        TransferStep::Refused(m) => assert_eq!(m, "The drag source or destination is unavailable"),
        _ => panic!("expected a refusal"),
    }
    assert_eq!(check_move_target("/p/a.rs", "/p/a.rs", true), Some("The item is already in that folder".to_string()));
    assert_eq!(check_move_target("/p/a.rs", "/p/src/a.rs", true), Some("a.rs already exists there".to_string()));
    assert_eq!(check_move_target("/p/a.rs", "/p/src/a.rs", false), None);
    assert_eq!(moved_status("/p/src/a.rs"), "Moved a.rs");
}

#[test]
fn pastes_are_checked_before_they_happen() {
    assert_eq!(paste_folder(Some("/p/src"), true, Some("/p")), Some("/p/src".to_string()));
    assert_eq!(paste_folder(Some("/p/src/a.rs"), false, Some("/p")), Some("/p/src".to_string()));
    assert_eq!(paste_folder(None, false, Some("/p")), Some("/p".to_string()));
    match paste_destination(Some("/p"), "/p/a.rs", "/p/src", true) {
        TransferStep::To(d) => assert_eq!(d, "/p/src/a.rs"),
        _ => panic!("expected a destination"),
    }
    match paste_destination(Some("/p"), "/p/a.rs", "/p/src", false) {
        TransferStep::Refused(m) => assert_eq!(m, "Cannot paste: the copied item is no longer available"),
        _ => panic!("expected a refusal"),
    }
    assert_eq!(
        check_paste_target("/p/src", "/p/src/ui", false),
        Some("Cannot paste: the destination already contains that item".to_string())
    );
    assert_eq!(check_paste_target("/p/a.rs", "/p/src", false), None);
    let (clip, status) = to_clipboard(Some("/p/a.rs"), true).unwrap();
    assert!(clip.cut);
    assert_eq!(clip.path, "/p/a.rs");
    assert_eq!(status, "Cut explorer item");
    assert_eq!(to_clipboard(Some("/p/a.rs"), false).unwrap().1, "Copied explorer item");
    assert!(to_clipboard(None, false).is_none());
}

#[test]
fn deleting_and_copying_paths() {
    assert_eq!(selection_after_delete(Some("/p/src/a.rs"), "/p/src"), Some("/p".to_string()));
    assert_eq!(selection_after_delete(Some("/p/b.rs"), "/p/src"), Some("/p/b.rs".to_string()));
    assert_eq!(selection_after_delete(None, "/p/src"), None);
    assert_eq!(deleted_status("/p/src"), "Deleted src");
    assert!(path_in_workspace(Some("/p"), "/p/src"));
    assert!(path_in_workspace(Some("/p"), "/p"));
    assert!(!path_in_workspace(Some("/p"), "/q"));
    assert!(!path_in_workspace(None, "/p"));
    assert_eq!(relative_path(Some("/p"), "/p/src/a.rs"), "src/a.rs");
    assert_eq!(relative_path(Some("/q"), "/p/src/a.rs"), "/p/src/a.rs");
    assert_eq!(copied_path_status("/p/a.rs"), "Copied path: /p/a.rs");
}

#[test]
fn go_to_line_reads_line_and_column() {
    assert_eq!(goto_target("12"), Some(GotoTarget { line: 12, character: 1 }));
    assert_eq!(goto_target(" 12:5 "), Some(GotoTarget { line: 12, character: 5 }));
    assert_eq!(goto_target("12: 5 :9"), Some(GotoTarget { line: 12, character: 5 }));
    assert_eq!(goto_target("12:x"), Some(GotoTarget { line: 12, character: 1 }));
    assert_eq!(goto_target("+3"), Some(GotoTarget { line: 3, character: 1 }));
    assert_eq!(goto_target("x:3"), None);
    assert_eq!(goto_target("   "), None);
    assert_eq!(goto_target("-1"), None);
    assert_eq!(goto_target("4294967296"), None);
    let t = goto_target("0:0").unwrap();
    assert_eq!(t.cursor(), (0, 0));
    assert_eq!(GotoTarget { line: 7, character: 3 }.cursor(), (6, 2));
    assert_eq!(GotoTarget { line: 7, character: 3 }.status(), "Jumped to line 7:3");
    assert_eq!(query_line_part("main.rs:42"), Some("42".to_string()));
    assert_eq!(query_line_part("main.rs"), None);
    assert_eq!(line_cursor(10), 9);
    assert_eq!(line_cursor(0), 0);
    assert_eq!(jumped_status(10), "Jumped to line 10");
    assert_eq!(goto_placeholder(120), "Go to line:column (1 - 120)...");
}

#[test]
fn numbers_parse_as_str_parse_does() {
    let cases = ["0", "007", "+12", "4294967295", "4294967296", "", "+", "-0", "1 2", "12a"];
    for c in cases {
        let chars: Vec<char> = c.chars().collect();
        assert_eq!(parse_u32(&chars), c.parse::<u32>().ok(), "{c}");
    }
}

#[test]
fn every_palette_entry_runs_a_command() {
    for item in command_palette_items() {
        assert!(palette_command(&item.id).is_some(), "{}", item.id);
    }
    assert_eq!(palette_command("file.new"), Some(PaletteCommand::NewFile));
    assert_eq!(palette_command("view.git"), Some(PaletteCommand::ShowActivity(Activity::Git)));
    assert_eq!(palette_command("theme.ayu_mirage"), Some(PaletteCommand::Theme(ThemeChoice::AyuMirage)));
    assert_eq!(ThemeChoice::GithubDark.name(), "GitHub Dark");
    assert_eq!(palette_command("app.quit"), Some(PaletteCommand::Quit));
    assert_eq!(palette_command("nothing"), None);
}

#[test]
fn the_side_bar_hides_when_its_activity_is_chosen_again() {
    let mut s = Sidebar { visible: true, activity: Activity::Explorer };
    assert_eq!(s.toggle_activity(Activity::Explorer), "EXPLORER");
    assert!(!s.visible);
    assert_eq!(s.toggle_activity(Activity::Explorer), "EXPLORER");
    assert_eq!(s, Sidebar { visible: true, activity: Activity::Explorer });
    assert_eq!(s.toggle_activity(Activity::Git), "SOURCE CONTROL");
    assert_eq!(s, Sidebar { visible: true, activity: Activity::Git });
    let mut h = Sidebar { visible: false, activity: Activity::Search };
    assert_eq!(h.show_activity(Activity::Extensions), "EXTENSIONS");
    assert_eq!(h, Sidebar { visible: true, activity: Activity::Extensions });
}

fn file_item(id: &str) -> PickerItem {
    PickerItem {
        id: id.to_string(),
        title: id.rsplit('/').next().unwrap_or("").to_string(),
        subtitle: None,
        icon: None,
        shortcut: None,
        is_recent: false,
        score: 0,
    }
}

#[test]
fn cached_files_put_open_files_first() {
    let items = vec![file_item("/p/a.rs"), file_item("/p/b.rs"), file_item("/p/c.rs")];
    let out = reorder_cached_files(&items, &["/p/c.rs".to_string(), "/p/a.rs".to_string()]);
    let ids: Vec<&str> = out.iter().map(|i| i.id.as_str()).collect();
    assert_eq!(ids, vec!["/p/a.rs", "/p/c.rs", "/p/b.rs"]);
    assert!(out[0].is_recent && out[1].is_recent && !out[2].is_recent);
    assert!(walk_includes("src"));
    assert!(!walk_includes(".git"));
    assert!(!walk_includes("target"));
    assert!(!walk_includes("node_modules"));
}

fn changed(path: &str, is_dir: bool) -> (String, bool) {
    (path.to_string(), is_dir)
}

#[test]
fn file_events_reload_each_parent_and_changed_folder_once() {
    let events = vec![
        changed("/p/src/main.rs", false),
        changed("/p/src/lib.rs", false),
        changed("/p/src/util", true),
        changed("/p/README.md", false),
        changed("/p/src/", true),
    ];
    assert_eq!(
        dirs_to_reload(&events),
        vec!["/p/src".to_string(), "/p/src/util".to_string(), "/p".to_string()]
    );
    assert_eq!(dirs_to_reload(&[]), Vec::<String>::new());
    assert_eq!(dirs_to_reload(&[changed("/", true)]), vec!["/".to_string()]);
}

#[test]
fn the_theme_is_found_by_name_or_falls_back() {
    let names = vec!["Dark".to_string(), "Light".to_string(), "Light".to_string()];
    assert_eq!(theme_index(&names, "Light", 0), 1);
    assert_eq!(theme_index(&names, "Dark", 2), 0);
    assert_eq!(theme_index(&names, "Solarized", 2), 2);
    assert_eq!(theme_index(&[], "Dark", 0), 0);
}

#[test]
fn language_server_events_set_the_status_line() {
    let status = |s: &str, restart: bool, redraw: bool| LspReaction {
        status: Some(s.to_string()),
        restart_server: restart,
        redraw,
    };
    let quiet = |redraw: bool| LspReaction { status: None, restart_server: false, redraw };
    assert_eq!(
        lsp_reaction(&LspEvent::Status { lang: "rust".into(), message: "indexing".into() }, false),
        status("rust: indexing", false, true)
    );
    assert_eq!(
        lsp_reaction(&LspEvent::ServerReady { server: "pyright".into() }, false),
        status("pyright ready", true, true)
    );
    assert_eq!(
        lsp_reaction(&LspEvent::ServerFailed { server: "gopls".into(), reason: "not found".into() }, false),
        status("gopls: not found", false, true)
    );
    assert_eq!(lsp_reaction(&LspEvent::Initialized { server: "gopls".into() }, false), quiet(true));
    assert_eq!(lsp_reaction(&LspEvent::Diagnostics { path: "/p/a.rs".into() }, true), quiet(false));
    assert_eq!(
        lsp_reaction(&LspEvent::ServerExited { server: "rust-analyzer".into() }, true),
        status("rust-analyzer exited — restarting…", true, true)
    );
    assert_eq!(lsp_reaction(&LspEvent::ServerExited { server: "rust-analyzer".into() }, false), quiet(false));
}
