use ezicode::color::{resolve_color, ColorChoice, Rgba8};
use ezicode::diagnostics::{copied_problems_status, formatted_status, problem_status, problems_report, Problem};
use ezicode::explorer::{explorer_rows, fs_event_relevant};
use ezicode::fs_tree::TreeNode;
use ezicode::git_ops::{
    commit_check, commit_placeholder, discard_all_targets, git_op_status, unstage_all_targets, ChangedFile,
};
use ezicode::goto::GotoTarget;
use ezicode::palette::{picker_confirm, PaletteCommand, PickerConfirm};
use ezicode::picker::PickerKind;
use ezicode::tab_bar::{label_color, tab_icon, tab_label, tab_mark, ChangeColor, ChangeKind, LabelColor, TabIcon, TabMark};
use ezicode::tabs::{DiffTabInfo, TabInfo};
use ezicode::terminal::{detect_shell, shell_environment, working_dir};

fn tab(path: Option<&str>) -> TabInfo {
    TabInfo {
        path: path.map(|p| p.to_string()),
        dirty: false,
        untitled: path.is_none(),
        preview: false,
        is_settings: false,
        diff: None,
    }
}

#[test]
fn tabs_are_labelled_by_what_they_show() {
    assert_eq!(tab_label(&tab(Some("/p/src/main.rs"))), "main.rs");
    assert_eq!(tab_label(&tab(None)), "Untitled");
    let mut settings = tab(None);
    settings.is_settings = true;
    assert_eq!(tab_label(&settings), "settings.json");
    assert_eq!(tab_icon(&settings), TabIcon::Json);
    let mut diff = tab(None);
    diff.diff = Some(DiffTabInfo { path: "/p/lib.rs".into(), rel: "lib.rs".into(), staged: false });
    assert_eq!(tab_label(&diff), "lib.rs — diff");
    assert_eq!(tab_icon(&diff), TabIcon::Git);
    assert_eq!(tab_icon(&tab(Some("/p/a.rs"))), TabIcon::FileType);
    assert_eq!(tab_icon(&tab(None)), TabIcon::DefaultFile);
}

#[test]
fn tabs_are_marked_by_their_change() {
    assert_eq!(tab_mark(true, Some(ChangeKind::Modified), None), Some((TabMark::Untracked, ChangeColor::Added)));
    assert_eq!(
        tab_mark(false, Some(ChangeKind::Deleted), Some(ChangeKind::Modified)),
        Some((TabMark::Change(ChangeKind::Deleted), ChangeColor::Deleted))
    );
    assert_eq!(
        tab_mark(false, None, Some(ChangeKind::Renamed)),
        Some((TabMark::Change(ChangeKind::Renamed), ChangeColor::Added))
    );
    assert_eq!(tab_mark(false, None, None), None);
    assert_eq!(label_color(true, tab_mark(true, None, None)), LabelColor::Active);
    assert_eq!(label_color(false, tab_mark(true, None, None)), LabelColor::Change(ChangeColor::Added));
    assert_eq!(label_color(false, None), LabelColor::Inactive);
}

#[test]
fn terminals_start_with_a_shell_and_a_folder() {
    assert_eq!(
        detect_shell(true, Some("/bin/zsh"), None, None),
        ("powershell.exe".to_string(), "powershell.exe".to_string())
    );
    let git_bash = "C:\\Program Files\\Git\\bin\\bash.exe";
    let pwsh = "C:\\Program Files\\PowerShell\\7\\pwsh.exe";
    assert_eq!(detect_shell(true, None, Some(git_bash), Some(pwsh)), (git_bash.to_string(), "bash".to_string()));
    assert_eq!(detect_shell(true, None, None, Some(pwsh)), (pwsh.to_string(), "pwsh".to_string()));
    assert_eq!(detect_shell(false, Some("/bin/zsh"), Some(git_bash), None), ("/bin/zsh".to_string(), "zsh".to_string()));
    assert_eq!(detect_shell(false, None, None, None), ("/bin/bash".to_string(), "sh".to_string()));
    assert_eq!(working_dir(Some("/p"), Some("/home/u")), Some("/p".to_string()));
    assert_eq!(working_dir(None, Some("/home/u")), Some("/home/u".to_string()));
    assert_eq!(working_dir(None, None), None);
    let env = shell_environment();
    assert_eq!(env.len(), 6);
    assert_eq!(env[0], ("TERM", "xterm-256color"));
    assert_eq!(env[5], ("LC_ALL", "en_US.UTF-8"));
}

#[test]
fn theme_colors_come_from_the_theme_or_its_rules() {
    assert_eq!(resolve_color(Some("#ff0000"), false), ColorChoice::Written(Rgba8 { r: 255, g: 0, b: 0, a: 255 }));
    assert_eq!(resolve_color(Some("red"), false), ColorChoice::Default);
    assert_eq!(resolve_color(Some("red"), true), ColorChoice::Keep);
    assert_eq!(resolve_color(None, true), ColorChoice::Fallback);
    assert_eq!(resolve_color(None, false), ColorChoice::Default);
}

#[test]
fn problems_are_reported_line_by_line() {
    let ps = vec![
        Problem { source: Some("rustc".into()), message: "mismatched types".into() },
        Problem { source: None, message: "unused variable".into() },
    ];
    assert_eq!(problems_report(&ps), "rustc: mismatched types\nerror: unused variable");
    assert_eq!(problems_report(&[]), "");
    assert_eq!(copied_problems_status(&ps), Some("Copied: mismatched types".to_string()));
    assert_eq!(copied_problems_status(&[]), None);
    assert_eq!(problem_status("oops"), "Problem: oops (Ctrl+Alt+C to copy)");
    assert_eq!(formatted_status(Some(3), "main.rs"), "Formatted main.rs");
    assert_eq!(formatted_status(Some(0), "main.rs"), "Document already formatted");
    assert_eq!(formatted_status(None, "main.rs"), "Formatting not supported by the language server");
}

fn change(rel: &str, staged: bool, untracked: bool, worktree_changed: bool) -> ChangedFile {
    ChangedFile { rel: rel.into(), staged, untracked, worktree_changed }
}

#[test]
fn source_control_picks_the_files_it_touches() {
    let cs = vec![
        change("a.rs", true, false, false),
        change("b.rs", false, false, true),
        change("c.rs", true, false, true),
        change("new.rs", false, true, false),
    ];
    assert_eq!(unstage_all_targets(&cs), vec!["a.rs".to_string(), "c.rs".to_string()]);
    let (kept, fresh) = discard_all_targets(&cs);
    assert_eq!(kept, vec!["b.rs".to_string(), "c.rs".to_string()]);
    assert_eq!(fresh, vec!["new.rs".to_string()]);
}

#[test]
fn commits_need_staged_changes_and_a_message() {
    assert_eq!(commit_check(false, 1, 1, "x"), Err("Not a git repository — open a folder to commit".to_string()));
    assert_eq!(commit_check(true, 0, 2, "x"), Err("Nothing staged — use + on a file or 'stage all' first".to_string()));
    assert_eq!(commit_check(true, 0, 0, "x"), Err("Nothing to commit".to_string()));
    assert_eq!(commit_check(true, 1, 1, "   "), Err("Commit message is empty".to_string()));
    assert_eq!(commit_check(true, 1, 1, "  fix it \n"), Ok("fix it".to_string()));
    assert_eq!(git_op_status(true, "Staged {}", "src/a.rs"), "Staged src/a.rs");
    assert_eq!(git_op_status(true, "Staged all changes", "x"), "Staged all changes");
    assert_eq!(git_op_status(true, "{} and {}", "x"), "x and x");
    assert_eq!(git_op_status(false, "Staged {}", "x"), "Git operation failed");
    assert_eq!(commit_placeholder(Some("dev")), "Message (Ctrl+Enter to commit on \"dev\"...)");
    assert_eq!(commit_placeholder(None), "Message (Ctrl+Enter to commit on \"main\"...)");
}

#[test]
fn the_explorer_shows_rows_only_when_open() {
    let tree = vec![TreeNode {
        name: "a.rs".into(),
        path: "/p/a.rs".into(),
        is_dir: false,
        expanded: false,
        children_loaded: false,
        children: Vec::new(),
    }];
    assert_eq!(explorer_rows(&tree, true).len(), 1);
    assert_eq!(explorer_rows(&tree, false).len(), 0);
    assert!(fs_event_relevant("/p/src/main.rs"));
    assert!(!fs_event_relevant("/p/target/debug/x"));
    assert!(!fs_event_relevant("/p/.git/index"));
    assert!(!fs_event_relevant("/p/.DS_Store"));
}

#[test]
fn confirming_a_picker_acts_on_its_kind() {
    match picker_confirm(PickerKind::FileFinder, Some("/p/a.rs"), "a.rs:12:3") {
        PickerConfirm::OpenFile(p, g) => {
            assert_eq!(p, "/p/a.rs");
            assert_eq!(g, Some(GotoTarget { line: 12, character: 3 }));
        },
        _ => panic!("expected a file to open"),
    }
    match picker_confirm(PickerKind::FileFinder, Some("/p/a.rs"), "a.rs") {
        PickerConfirm::OpenFile(_, g) => assert_eq!(g, None),
        _ => panic!("expected a file to open"),
    }
    assert!(matches!(picker_confirm(PickerKind::FileFinder, None, "x"), PickerConfirm::Nothing));
    assert!(matches!(
        picker_confirm(PickerKind::CommandPalette, Some("tab.next"), ""),
        PickerConfirm::Run(Some(PaletteCommand::NextTab))
    ));
    match picker_confirm(PickerKind::GoToLine, None, "40") {
        PickerConfirm::GoTo(g) => assert_eq!(g, Some(GotoTarget { line: 40, character: 1 })),
        _ => panic!("expected a jump"),
    }
}

#[test]
fn files_open_unless_too_large_or_binary() {
    use_buffer_checks();
}

fn use_buffer_checks() {
    use_checks_on(b"fn main() {}\n", Ok(true));
    let big = vec![b'a'; 400_001];
    use_checks_on(&big, Ok(false));
    let many_lines = vec![b'\n'; 8_001];
    use_checks_on(&many_lines, Ok(false));
    let exactly = vec![b'\n'; 8_000];
    use_checks_on(&exactly, Ok(true));
    let mut binary = vec![b'a'; 10];
    binary[3] = 0;
    use_checks_on(&binary, Err("x.bin looks binary".to_string()));
    let mut late_zero = vec![b'a'; 9000];
    late_zero[8500] = 0;
    use_checks_on(&late_zero, Ok(true));
    let huge = vec![b'a'; 8_000_001];
    use_checks_on(&huge, Err("x.bin is too large (>8MB)".to_string()));
    assert_eq!(ezicode::buffer::opened_status("/p/x.rs", true), "/p/x.rs");
    assert_eq!(ezicode::buffer::opened_status("/p/x.rs", false), "x.rs (plain text — large file)");
    assert_eq!(ezicode::buffer::opening_status("/p/x.rs"), "Opening x.rs…");
    assert_eq!(ezicode::buffer::saving_status("/p/x.rs"), "Saving x.rs…");
    assert_eq!(ezicode::buffer::saved_status("Auto-saved", "/p/x.rs"), "Auto-saved x.rs");
}

fn use_checks_on(bytes: &[u8], expected: Result<bool, String>) {
    assert_eq!(ezicode::buffer::classify_buffer("/p/x.bin", bytes), expected);
}
