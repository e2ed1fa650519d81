use ezicode::picker::{
    command_palette_items, icon_kind, picker_message, rank_scored, row_trailer, IconKind, PickerItem, PickerKind,
    PickerState, RowTrailer,
};

fn item(id: &str, title: &str, subtitle: Option<&str>) -> PickerItem {
    PickerItem {
        id: id.into(),
        title: title.into(),
        subtitle: subtitle.map(|s| s.into()),
        icon: None,
        shortcut: None,
        is_recent: false,
        score: 0,
    }
}

#[test]
fn test_command_palette_items_populated() {
    let items = command_palette_items();
    assert!(!items.is_empty(), "command palette should have commands");
    assert!(items.iter().any(|i| i.id == "file.save"));
    assert!(items.iter().any(|i| i.id == "terminal.toggle"));
    assert!(items.iter().any(|i| i.id == "file.quick_open"));
    assert!(items.iter().any(|i| i.id == "view.goto_line"));
}

#[test]
fn test_fuzzy_filtering() {
    let items = vec![
        item("1", "settings.rs", Some("app/src")),
        item("2", "main.rs", Some("app/src")),
        item("3", "Cargo.toml", None),
    ];
    let mut picker = PickerState::new(PickerKind::FileFinder, items);
    picker.filter("sett");
    assert_eq!(picker.filtered_items.len(), 1);
    assert_eq!(picker.filtered_items[0].title, "settings.rs");
}

#[test]
fn selection_wraps_around() {
    let items = vec![item("1", "a", None), item("2", "b", None), item("3", "c", None)];
    let mut picker = PickerState::new(PickerKind::CommandPalette, items);
    assert_eq!(picker.selected_index, 0);
    picker.select_prev();
    assert_eq!(picker.selected_index, 2);
    picker.select_next();
    assert_eq!(picker.selected_index, 0);
    picker.select_next();
    assert_eq!(picker.selected_item().unwrap().id, "2");
}

#[test]
fn go_to_line_lists_nothing() {
    let mut picker = PickerState::new(PickerKind::GoToLine, vec![item("1", "a", None)]);
    picker.filter("12");
    assert!(picker.filtered_items.is_empty());
    assert!(picker.selected_item().is_none());
}

#[test]
fn empty_query_lists_everything_in_order() {
    let items = vec![item("1", "b", None), item("2", "a", None)];
    let mut picker = PickerState::new(PickerKind::FileFinder, items);
    picker.filter("   ");
    let ids: Vec<&str> = picker.filtered_items.iter().map(|i| i.id.as_str()).collect();
    assert_eq!(ids, vec!["1", "2"]);
}

#[test]
fn given_scores_rank_the_entries() {
    let item = |id: &str, recent: bool| PickerItem {
        id: id.to_string(),
        title: id.to_string(),
        subtitle: None,
        icon: None,
        shortcut: None,
        is_recent: recent,
        score: 0,
    };
    let raw = vec![item("a", false), item("b", true), item("c", false), item("d", false)];
    let out = rank_scored(&raw, &vec![Some(10), Some(0), None, Some(40)]);
    let ids: Vec<&str> = out.iter().map(|i| i.id.as_str()).collect();
    assert_eq!(ids, vec!["b", "d", "a"]);
    assert_eq!(out[0].score, 50);
    assert!(rank_scored(&raw, &vec![None, None, None, None]).is_empty());
}

#[test]
fn the_list_area_shows_a_hint_or_an_empty_note() {
    assert_eq!(
        picker_message(PickerKind::GoToLine, true),
        Some("Type a line number (and optional :column) and press Enter to jump.")
    );
    assert_eq!(
        picker_message(PickerKind::GoToLine, false),
        Some("Type a line number (and optional :column) and press Enter to jump.")
    );
    assert_eq!(picker_message(PickerKind::FileFinder, true), Some("No matching results"));
    assert_eq!(picker_message(PickerKind::CommandPalette, true), Some("No matching results"));
    assert_eq!(picker_message(PickerKind::CommandPalette, false), None);
}

#[test]
fn icons_are_drawn_by_their_folder() {
    assert_eq!(icon_kind("file_icons/file_type_rust.svg"), IconKind::FileImage);
    assert_eq!(icon_kind("ui_icons/search.svg"), IconKind::TintedSvg);
    assert_eq!(icon_kind("icons/logo.png"), IconKind::Image);
    assert_eq!(icon_kind("file_icons"), IconKind::Image);
}

#[test]
fn the_selected_file_row_ends_with_its_actions() {
    let mut file = item("src/main.rs", "main.rs", Some("src"));
    assert_eq!(row_trailer(PickerKind::FileFinder, true, &file), RowTrailer::FileActions(None));
    file.is_recent = true;
    assert_eq!(
        row_trailer(PickerKind::FileFinder, true, &file),
        RowTrailer::FileActions(Some("recently opened"))
    );
    assert_eq!(row_trailer(PickerKind::FileFinder, false, &file), RowTrailer::Empty);
    let mut command = item("palette", "Command Palette", None);
    command.shortcut = Some("Ctrl+Shift+P");
    assert_eq!(row_trailer(PickerKind::CommandPalette, true, &command), RowTrailer::Shortcut("Ctrl+Shift+P"));
    assert_eq!(row_trailer(PickerKind::CommandPalette, false, &command), RowTrailer::Shortcut("Ctrl+Shift+P"));
}
