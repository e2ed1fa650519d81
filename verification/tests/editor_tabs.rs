use ezicode::tabs::{DiffTabInfo, EditorTabs, OpenOutcome, SaveAction, TabInfo};
use ezicode::terminal::{check_process_exit, shell_name, terminal_label, TerminalPanel, TerminalState, TerminalToggle};

fn paths(t: &EditorTabs) -> Vec<Option<String>> {
    t.tabs.iter().map(|t| t.path.clone()).collect()
}

#[test]
fn opening_files_reuses_the_clean_preview_tab() {
    let mut t = EditorTabs::new();
    assert!(t.welcome_visible());
    assert_eq!(t.open_file("/p/a.rs"), OpenOutcome::Added(0));
    assert!(t.tabs[0].preview);
    assert_eq!(t.open_file("/p/b.rs"), OpenOutcome::Replaced(0));
    assert_eq!(paths(&t), vec![Some("/p/b.rs".to_string())]);
    assert!(t.mark_edited());
    assert!(!t.mark_edited());
    assert!(t.tabs[0].dirty && !t.tabs[0].preview);
    assert_eq!(t.open_file("/p/c.rs"), OpenOutcome::Added(1));
    assert_eq!(t.active, 1);
    assert_eq!(t.open_file("/p/b.rs"), OpenOutcome::Focused(0));
    assert_eq!(t.active, 0);
    assert!(t.focus_open("/p/c.rs"));
    assert_eq!(t.active, 1);
    assert!(!t.tabs[1].preview);
    assert!(!t.focus_open("/p/zzz.rs"));
    assert_eq!(t.active_path(), Some(&"/p/c.rs".to_string()));
}

#[test]
fn closing_tabs_keeps_a_sensible_active_tab() {
    let mut t = EditorTabs::new();
    for p in ["/a", "/b", "/c", "/d"] {
        t.open_file(p);
        t.mark_edited();
    }
    assert_eq!(t.active, 3);
    t.switch_tab(1);
    assert_eq!(t.active, 1);
    t.close_tab(3);
    assert_eq!(t.active, 1);
    t.close_tab(0);
    assert_eq!(t.active, 0);
    assert_eq!(paths(&t), vec![Some("/b".to_string()), Some("/c".to_string())]);
    t.close_tab(0);
    assert_eq!(t.active, 0);
    assert!(t.close_tab_at_index(0));
    assert!(t.tabs.is_empty());
    assert!(!t.close_tab_at_index(0));
    t.switch_tab(5);
    assert_eq!(t.active, 0);
}

#[test]
fn next_and_previous_tabs_wrap_round() {
    let mut t = EditorTabs::new();
    for p in ["/a", "/b", "/c"] {
        t.open_file(p);
        t.mark_edited();
    }
    t.next_tab();
    assert_eq!(t.active, 0);
    t.prev_tab();
    assert_eq!(t.active, 2);
    t.prev_tab();
    assert_eq!(t.active, 1);
    assert!(t.switch_tab_to(0));
    assert!(!t.switch_tab_to(9));
}

#[test]
fn the_title_names_the_file_and_the_folder() {
    let mut t = EditorTabs::new();
    assert_eq!(t.title(None), "ezicode");
    assert_eq!(t.title(Some("proj")), "proj");
    t.open_file("/p/main.rs");
    assert_eq!(t.title(Some("proj")), "main.rs — proj");
    t.mark_edited();
    assert_eq!(t.title(None), "main.rs ●");
    t.new_untitled();
    assert_eq!(t.title(None), "untitled — ezicode");
    assert_eq!(t.title(Some("proj")), "untitled — proj");
    t.open_settings();
    assert_eq!(t.title(Some("proj")), "Settings — proj");
    assert_eq!(t.title(None), "Settings — ezicode");
    assert_eq!(t.open_diff("/p/lib.rs", "lib.rs", true), Some("Diff (staged): lib.rs".to_string()));
    assert_eq!(t.title(Some("proj")), "lib.rs (staged diff) — proj");
    assert_eq!(t.open_diff("/p/lib.rs", "lib.rs", false), Some("Diff: lib.rs".to_string()));
    assert_eq!(t.title(None), "lib.rs (diff)");
    let n = t.tabs.len();
    assert_eq!(t.open_diff("/p/lib.rs", "lib.rs", true), None);
    assert_eq!(t.tabs.len(), n);
    assert_eq!(t.open_settings(), "Settings");
    assert!(t.tabs[t.active].is_settings);
    assert_eq!(t.tabs.len(), n);
}

#[test]
fn saving_depends_on_the_active_tab() {
    let mut t = EditorTabs::new();
    assert!(matches!(t.save_action(), SaveAction::NoFile));
    t.new_untitled();
    assert!(matches!(t.save_action(), SaveAction::SaveAs));
    t.saved_as(0, "/p/new.txt");
    match t.save_action() {
        SaveAction::Write(p) => assert_eq!(p, "/p/new.txt"),
        _ => panic!("expected a write"),
    }
    assert_eq!(t.quiet_save_path(0), None);
    t.mark_edited();
    assert_eq!(t.quiet_save_path(0), Some("/p/new.txt".to_string()));
    t.mark_clean(0);
    assert!(!t.is_dirty());
    t.open_settings();
    assert!(matches!(t.save_action(), SaveAction::Nothing));
}

#[test]
fn deleting_closes_the_tabs_below_it() {
    let mut t = EditorTabs::new();
    for p in ["/p/src/a.rs", "/p/b.rs", "/p/src/c.rs"] {
        t.open_file(p);
        t.mark_edited();
    }
    t.open_diff("/p/src/d.rs", "src/d.rs", false);
    t.switch_tab(1);
    t.forget_deleted("/p/src");
    assert_eq!(paths(&t), vec![Some("/p/b.rs".to_string())]);
    assert_eq!(t.active, 0);
}

#[test]
fn a_move_is_followed_by_the_tabs() {
    let mut t = EditorTabs::new();
    t.open_file("/p/src/a.rs");
    t.mark_edited();
    t.tabs.push(TabInfo {
        path: None,
        dirty: false,
        untitled: false,
        preview: false,
        is_settings: false,
        diff: Some(DiffTabInfo { path: "/p/src/b.rs".into(), rel: "src/b.rs".into(), staged: false }),
    });
    t.follow_move("/p/src", "/p/lib", Some("/p"));
    assert_eq!(t.tabs[0].path, Some("/p/lib/a.rs".to_string()));
    let d = t.tabs[1].diff.as_ref().unwrap();
    assert_eq!(d.path, "/p/lib/b.rs");
    assert_eq!(d.rel, "lib/b.rs");
    assert_eq!(t.active, 0);
}

#[test]
fn the_terminal_panel_counts_its_terminals() {
    let mut p = TerminalPanel::new();
    assert_eq!(p.toggle(), TerminalToggle::CreateNew);
    let (id, status) = p.add_terminal();
    assert_eq!(id, 1);
    assert_eq!(status, "Terminal 1 created");
    let (id2, _) = p.add_terminal();
    assert_eq!(id2, 2);
    assert_eq!(p.active, 1);
    assert_eq!(p.next(), Some("Terminal 1 active".to_string()));
    assert_eq!(p.prev(), Some("Terminal 2 active".to_string()));
    assert_eq!(p.activate(0), Some("Terminal 1 active".to_string()));
    assert_eq!(p.activate(7), None);
    assert_eq!(p.close(0), Some("Terminal 1 closed — 1 terminal(s) remain".to_string()));
    assert_eq!(p.active, 0);
    assert_eq!(p.next(), None);
    assert_eq!(p.close_active(), Some("Terminal closed".to_string()));
    assert!(!p.visible);
    assert_eq!(p.count, 0);
    assert_eq!(p.close_active(), None);
    assert_eq!(p.toggle(), TerminalToggle::CreateNew);
    assert_eq!(p.toggle(), TerminalToggle::Hidden);
    p.toggle_maximized();
    assert!(p.visible && p.maximized);
    p.toggle_maximized();
    assert!(p.visible && !p.maximized);
    assert_eq!(p.hide_panel(), "Terminal hidden");
}

#[test]
fn shells_are_named_by_their_program() {
    assert_eq!(shell_name("/usr/bin/zsh"), "zsh");
    assert_eq!(shell_name("/usr/local/bin/fish"), "fish");
    assert_eq!(shell_name("/usr/bin/nu"), "nu");
    assert_eq!(shell_name("/bin/dash"), "sh");
    assert_eq!(shell_name("/bin/tcsh"), "sh");
    assert_eq!(shell_name("/opt/xonsh2"), "bash");
    assert_eq!(terminal_label("zsh", 3), "zsh 3");
}

#[test]
fn a_gone_process_marks_the_terminal_exited() {
    let mut s = TerminalState::Running;
    assert!(!check_process_exit(&mut s, Some(42), true));
    assert_eq!(s, TerminalState::Running);
    assert!(!check_process_exit(&mut s, None, false));
    assert!(check_process_exit(&mut s, Some(42), false));
    assert_eq!(s, TerminalState::Exited(0));
    let mut e = TerminalState::Error;
    assert!(check_process_exit(&mut e, Some(1), true));
    assert_eq!(e, TerminalState::Error);
}

#[test]
fn a_later_edit_cancels_the_waiting_save() {
    use_auto_save();
}

fn use_auto_save() {
    let mut timer = ezicode::settings::AutoSaveTimer { generation: 0 };
    assert_eq!(timer.schedule(ezicode::settings::AutoSaveMode::Off), None);
    let first = timer.schedule(ezicode::settings::AutoSaveMode::AfterDelay).unwrap();
    assert!(timer.is_current(first));
    let second = timer.schedule(ezicode::settings::AutoSaveMode::AfterDelay).unwrap();
    assert!(!timer.is_current(first));
    assert!(timer.is_current(second));
    let mut wrap = ezicode::settings::AutoSaveTimer { generation: usize::MAX };
    assert_eq!(wrap.schedule(ezicode::settings::AutoSaveMode::AfterDelay), Some(0));
    assert!(ezicode::settings::saves_on_focus_change(ezicode::settings::AutoSaveMode::OnFocusChange));
    assert!(!ezicode::settings::saves_on_focus_change(ezicode::settings::AutoSaveMode::AfterDelay));
}
