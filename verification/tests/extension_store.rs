use ezicode::extension::languages::{build_map, language_for_extension, language_id, language_id_for_name, language_summaries};
use ezicode::extension::lsp::extension_adapters;
use ezicode::extension::manifest::{
    slugify, ExtensionManifest, LanguageConfigManifest, LanguageServerManifest,
};
use ezicode::extension::store::{
    install_destination, installed_dir, normalize_git_url, sorted_by_name, uninstall_dir, DirListing,
    InstalledExtension,
};
use ezicode::extension::summaries;

fn manifest(id: &str, name: &str) -> ExtensionManifest {
    ExtensionManifest {
        id: id.to_string(),
        name: name.to_string(),
        version: "1.0.0".to_string(),
        schema_version: 1,
        description: String::new(),
        repository: String::new(),
        authors: Vec::new(),
        lib: None,
        grammars: Vec::new(),
        language_servers: Vec::new(),
    }
}

fn config(name: &str, grammar: Option<&str>, suffixes: &[&str]) -> LanguageConfigManifest {
    LanguageConfigManifest {
        name: name.to_string(),
        grammar: grammar.map(|g| g.to_string()),
        path_suffixes: suffixes.iter().map(|s| s.to_string()).collect(),
        line_comments: Vec::new(),
    }
}

#[test]
fn slugify_makes_ids() {
    assert_eq!(slugify("My Cool Theme!"), "my-cool-theme");
    assert_eq!(slugify("Gleam"), "gleam");
    assert_eq!(slugify("  spaced  out  "), "spaced-out");
}

#[test]
fn slugify_keeps_only_ascii_alphanumerics() {
    assert_eq!(slugify("Émoji 🎉 Pack 2"), "moji-pack-2");
    assert_eq!(slugify("---"), "");
    assert_eq!(slugify(""), "");
    assert_eq!(slugify("a--b"), "a-b");
}

#[test]
fn normalizes_git_urls() {
    assert_eq!(normalize_git_url("owner/repo"), "https://github.com/owner/repo");
    assert_eq!(normalize_git_url("https://github.com/a/b"), "https://github.com/a/b");
    assert_eq!(normalize_git_url("git@github.com:a/b.git"), "git@github.com:a/b.git");
}

#[test]
fn git_url_edge_cases() {
    assert_eq!(normalize_git_url("  owner/repo  "), "https://github.com/owner/repo");
    assert_eq!(normalize_git_url("a/b/c"), "a/b/c");
    assert_eq!(normalize_git_url("my owner/repo"), "my owner/repo");
    assert_eq!(normalize_git_url("ssh://host/x"), "ssh://host/x");
    assert_eq!(normalize_git_url("local/path.git"), "local/path.git");
}

#[test]
fn rejects_bad_uninstall_ids() {
    assert!(uninstall_dir("/x/installed", "../etc").is_none());
    assert!(uninstall_dir("/x/installed", "a/b").is_none());
    assert!(uninstall_dir("/x/installed", "").is_none());
}

#[test]
fn uninstall_targets_the_extension_folder() {
    assert_eq!(uninstall_dir("/x/installed", "gleam"), Some("/x/installed/gleam".to_string()));
    assert!(uninstall_dir("/x/installed", "a\\b").is_none());
}

#[test]
fn store_layout_under_config_dir() {
    assert_eq!(installed_dir("/home/u/.config/ezicode"), "/home/u/.config/ezicode/extensions/installed");
    let ext = InstalledExtension { manifest: manifest("demo", "Demo"), dir: "/s/demo".to_string() };
    assert_eq!(ext.themes_dir(), "/s/demo/themes");
    assert_eq!(ext.wasm_path(), "/s/demo/extension.wasm");
}

#[test]
fn install_destination_uses_effective_id() {
    let m = manifest("", "My Theme");
    assert_eq!(
        install_destination("/i", &m),
        Some(("my-theme".to_string(), "/i/my-theme".to_string()))
    );
    let blank = manifest("", "!!!");
    assert_eq!(install_destination("/i", &blank), None);
}

#[test]
fn theme_files_are_json_in_path_order() {
    let ext = InstalledExtension { manifest: manifest("demo", "Demo"), dir: "/s/demo".to_string() };
    let files = ext.theme_files(&[
        "/s/demo/themes/b.json".to_string(),
        "/s/demo/themes/readme.md".to_string(),
        "/s/demo/themes/a.json".to_string(),
    ]);
    assert_eq!(files, vec!["/s/demo/themes/a.json".to_string(), "/s/demo/themes/b.json".to_string()]);
}

#[test]
fn capabilities_from_listing() {
    let mut m = manifest("demo", "Demo");
    m.language_servers.push(("demo-ls".to_string(), LanguageServerManifest::default()));
    let ext = InstalledExtension { manifest: m, dir: "/s/demo".to_string() };
    let listing = DirListing {
        theme_entries: vec!["/s/demo/themes/demo.json".to_string()],
        icon_theme_entries: vec![],
        language_entries: vec![("/s/demo/languages/demo".to_string(), false)],
        wasm_is_file: true,
    };
    let c = ext.capabilities(&listing);
    assert!(c.themes);
    assert!(!c.icon_themes);
    assert!(!c.languages);
    assert!(!c.grammars);
    assert!(c.language_servers);
    assert!(c.wasm);
}

#[test]
fn summaries_fall_back_to_id_for_name() {
    let ext = InstalledExtension { manifest: manifest("x", ""), dir: "/s/x".to_string() };
    let listing = DirListing { theme_entries: vec![], icon_theme_entries: vec![], language_entries: vec![], wasm_is_file: false };
    let s = summaries(&[(ext, listing)]);
    assert_eq!(s.len(), 1);
    assert_eq!(s[0].id, "x");
    assert_eq!(s[0].name, "x");
    assert_eq!(s[0].version, "1.0.0");
}

#[test]
fn store_sorts_by_lowercase_name() {
    let exts = vec![
        InstalledExtension { manifest: manifest("b", "Beta"), dir: "/b".to_string() },
        InstalledExtension { manifest: manifest("a", "alpha"), dir: "/a".to_string() },
        InstalledExtension { manifest: manifest("c", "ALPHA"), dir: "/c".to_string() },
    ];
    let sorted = sorted_by_name(exts);
    let ids: Vec<&str> = sorted.iter().map(|e| e.manifest.id.as_str()).collect();
    assert_eq!(ids, vec!["a", "c", "b"]);
}

#[test]
fn language_ids_and_file_extensions() {
    let cfgs = vec![
        config("Gleam", Some("Gleam"), &["gleam", ".GLM"]),
        config("My Lang", None, &["gleam", "ml"]),
    ];
    assert_eq!(language_id(&cfgs[0]), "gleam");
    assert_eq!(language_id(&cfgs[1]), "my-lang");
    let map = build_map(&cfgs);
    assert_eq!(language_for_extension(&map, "gleam"), Some("gleam".to_string()));
    assert_eq!(language_for_extension(&map, "glm"), Some("gleam".to_string()));
    assert_eq!(language_for_extension(&map, "ml"), Some("my-lang".to_string()));
    assert_eq!(language_for_extension(&map, ""), None);
    assert_eq!(language_for_extension(&map, "rs"), None);
    assert_eq!(language_id_for_name(&cfgs, "gleam"), "gleam");
    assert_eq!(language_id_for_name(&cfgs, "Other Thing"), "other-thing");
    let sums = language_summaries(&cfgs);
    assert_eq!(sums.len(), 2);
    assert_eq!(sums[0].0, "Gleam");
}

#[test]
fn parses_native_language_server_command_into_adapter() {
    let mut m = manifest("nim", "Nim");
    m.language_servers.push((
        "nimlangserver".to_string(),
        LanguageServerManifest {
            name: Some("Nim Language Server".to_string()),
            language: Some("Nim".to_string()),
            languages: vec![],
            language_ids: vec![],
            command: Some("nimlangserver".to_string()),
            args: vec!["--stdio".to_string()],
        },
    ));
    m.language_servers.push((
        "wasm-only".to_string(),
        LanguageServerManifest { language: Some("Nim".to_string()), command: Some("   ".to_string()), ..Default::default() },
    ));
    let ext = InstalledExtension { manifest: m, dir: "/s/nim".to_string() };
    let adapters = extension_adapters(&[ext], &[]);
    assert_eq!(adapters.len(), 1);
    assert_eq!(adapters[0].name, "Nim Language Server");
    assert_eq!(adapters[0].binary, "nimlangserver");
    assert_eq!(adapters[0].args, vec!["--stdio".to_string()]);
    assert_eq!(adapters[0].languages, vec!["nim".to_string()]);
}

#[test]
fn all_languages_merges_both_schemas() {
    let s = LanguageServerManifest {
        languages: vec!["Gleam".to_string()],
        language: Some("Gleam".to_string()),
        ..Default::default()
    };
    assert_eq!(s.all_languages(), vec!["Gleam".to_string()]);
    let t = LanguageServerManifest {
        languages: vec!["A".to_string()],
        language: Some("B".to_string()),
        ..Default::default()
    };
    assert_eq!(t.all_languages(), vec!["A".to_string(), "B".to_string()]);
}
