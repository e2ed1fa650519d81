use ezicode::extensions::{
    data_dir, extensions_dir, is_listed_entry, read_extension, sorted_by_id, themes_dir, user_theme_files,
    DataDirEnv, ExtensionMetadata,
};
use ezicode::sidebar::{extension_tags, footer_summary, installed_heading, status_badge, theme_count, StatusColors, Tone};

fn empty_metadata() -> ExtensionMetadata {
    ExtensionMetadata {
        id: None,
        name: None,
        publisher: None,
        display_name: None,
        version: None,
        description: None,
        compatibility: None,
        enabled: None,
        declarative_only: None,
        themes: None,
        has_main: false,
    }
}

#[test]
fn data_dir_is_namespaced() {
    let env = DataDirEnv {
        explicit: None,
        windows: false,
        local_app_data: None,
        xdg_data_home: None,
        home: Some("/home/u".into()),
        temp_dir: "/tmp".into(),
    };
    let d = data_dir(&env);
    assert!(d.ends_with("ezicode"));
    assert!(extensions_dir(&d).ends_with("extensions"));
    assert!(themes_dir(&d).ends_with("themes"));
}

#[test]
fn data_dir_prefers_the_explicit_setting() {
    let env = DataDirEnv {
        explicit: Some("/data".into()),
        windows: true,
        local_app_data: Some("C:/Local".into()),
        xdg_data_home: None,
        home: None,
        temp_dir: "/tmp".into(),
    };
    assert_eq!(data_dir(&env), "/data");
    let unix = DataDirEnv { explicit: None, windows: false, local_app_data: None, xdg_data_home: Some("/xdg".into()), home: Some("/home/u".into()), temp_dir: "/tmp".into() };
    assert_eq!(data_dir(&unix), "/xdg/ezicode");
    let home = DataDirEnv { xdg_data_home: None, ..unix };
    assert_eq!(data_dir(&home), "/home/u/.local/share/ezicode");
}

#[test]
fn reads_installer_metadata() {
    let meta = ExtensionMetadata {
        id: Some("acme.sample-theme".into()),
        name: Some("sample-theme".into()),
        publisher: Some("acme".into()),
        display_name: Some("Sample Theme".into()),
        version: Some("2.1.0".into()),
        description: Some("A colour theme".into()),
        compatibility: Some("works".into()),
        enabled: Some(true),
        declarative_only: Some(true),
        themes: Some(vec!["Sample Dark".into(), "Sample Light".into()]),
        has_main: false,
    };
    let parsed = read_extension("/d/acme.sample-theme", Some(meta), None).expect("metadata parses");
    assert_eq!(parsed.id, "acme.sample-theme");
    assert_eq!(parsed.display_name, "Sample Theme");
    assert_eq!(parsed.version, "2.1.0");
    assert!(parsed.enabled);
    assert!(parsed.declarative_only);
    assert_eq!(parsed.themes.len(), 2);
    assert_eq!(parsed.subtitle(), "acme.sample-theme  v2.1.0");
}

#[test]
fn falls_back_to_the_vscode_manifest() {
    let manifest = ExtensionMetadata {
        name: Some("hello".into()),
        publisher: Some("ezicode".into()),
        version: Some("0.1.0".into()),
        has_main: true,
        ..empty_metadata()
    };
    let parsed = read_extension("/d/side-loaded", None, Some(manifest)).expect("manifest parses");
    assert_eq!(parsed.id, "ezicode.hello");
    assert!(parsed.enabled);
    assert!(!parsed.declarative_only, "an extension with `main` needs the host");
}

#[test]
fn folder_name_is_the_last_resort_id() {
    let parsed = read_extension("/d/plain-folder", Some(empty_metadata()), None).unwrap();
    assert_eq!(parsed.id, "plain-folder");
    assert_eq!(parsed.display_name, "plain-folder");
    assert_eq!(parsed.publisher, "unknown");
    assert!(parsed.declarative_only);
    assert_eq!(parsed.subtitle(), "plain-folder");
    assert!(read_extension("/d/x", None, None).is_none());
    assert!(read_extension("/", Some(empty_metadata()), None).is_none());
}

#[test]
fn hidden_folders_and_order() {
    assert!(is_listed_entry("/d/acme.theme"));
    assert!(!is_listed_entry("/d/.tmp"));
    let a = read_extension("/d/b", Some(ExtensionMetadata { id: Some("b".into()), ..empty_metadata() }), None).unwrap();
    let b = read_extension("/d/a", Some(ExtensionMetadata { id: Some("a".into()), ..empty_metadata() }), None).unwrap();
    let sorted = sorted_by_id(vec![a, b]);
    assert_eq!(sorted[0].id, "a");
    assert_eq!(sorted[1].id, "b");
}

#[test]
fn user_theme_files_accept_json_in_any_case() {
    let files = user_theme_files(&[
        ("/t/b.JSON".into(), true),
        ("/t/a.json".into(), true),
        ("/t/dir.json".into(), false),
        ("/t/c.txt".into(), true),
    ]);
    assert_eq!(files, vec!["/t/a.json".to_string(), "/t/b.JSON".to_string()]);
}

#[test]
fn extensions_panel_text() {
    let themed = read_extension(
        "/d/t",
        Some(ExtensionMetadata {
            id: Some("t".into()),
            themes: Some(vec!["One".into(), "Two".into()]),
            declarative_only: Some(false),
            compatibility: Some("partial".into()),
            ..empty_metadata()
        }),
        None,
    )
    .unwrap();
    let tags = extension_tags(&themed);
    let texts: Vec<(&str, Tone)> = tags.iter().map(|t| (t.text.as_str(), t.tone)).collect();
    assert_eq!(
        texts,
        vec![("2 themes", Tone::Accent), ("extension host", Tone::Muted), ("partial support", Tone::Modified)]
    );
    assert_eq!(theme_count(&[themed]), 2);
    assert_eq!(installed_heading(3), "INSTALLED (3)");
    assert_eq!(footer_summary(3, 5, "/d"), "3 installed · 5 themes contributed");
    assert_eq!(footer_summary(0, 0, "/d/extensions"), "/d/extensions");
    assert_eq!(status_badge(false), ("Disabled", StatusColors::Disabled));
}
