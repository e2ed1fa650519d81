use ezicode::extension::manifest::slugify;
use ezicode::extension::store::normalize_git_url;
use ezicode::extension::wasm::WasmHost;
use ezicode::color::try_parse_color;
use ezicode::gpu::parse_pci_id;
use ezicode::picker::workspace_file_item;

#[test]
fn slugify_twice_is_slugify_once() {
    for name in ["My Cool Theme!", "  a--b  ", "ÄÖÜ x", "9 Lives"] {
        let once = slugify(name);
        assert_eq!(slugify(&once), once);
        assert!(once.chars().all(|c| c.is_ascii_lowercase() || c.is_ascii_digit() || c == '-'));
        assert!(!once.starts_with('-') && !once.ends_with('-') && !once.contains("--"));
    }
}

#[test]
fn normalizing_a_git_url_twice_changes_nothing() {
    for input in ["owner/repo", " https://x/y ", "git@h:a/b.git", "a b/c", "plain"] {
        let once = normalize_git_url(input);
        assert_eq!(normalize_git_url(&once), once);
    }
}

#[test]
fn pci_ids_ignore_case() {
    for id in ["0XABCD", "10De", " 0x1aF0 "] {
        assert_eq!(parse_pci_id(&id.to_ascii_lowercase()), parse_pci_id(id));
    }
}

#[test]
fn short_hex_colors_equal_their_doubled_form() {
    assert_eq!(try_parse_color("#a1f"), try_parse_color("#aa11ff"));
    assert!(try_parse_color("#a1f").is_ok());
}

#[test]
fn wasm_host_records_each_id_once() {
    let mut host = WasmHost::new();
    host.record("a".into(), true);
    host.record("b".into(), false);
    host.record("a".into(), false);
    assert_eq!(host.loaded_count(), 2);
    assert_eq!(host.instantiated_count(), 0);
    host.record("c".into(), true);
    assert_eq!(host.instantiated_count(), 1);
}

#[test]
fn workspace_items_name_their_folder() {
    let item = workspace_file_item("/w", "/w/app/src/main.rs", "rust".into(), false);
    assert_eq!(item.title, "main.rs");
    assert_eq!(item.subtitle.as_deref(), Some("app/src"));
    assert_eq!(item.id, "/w/app/src/main.rs");
    let top = workspace_file_item("/w", "/w/Cargo.toml", "toml".into(), true);
    assert_eq!(top.subtitle, None);
    assert!(top.is_recent);
    let outside = workspace_file_item("/w", "/elsewhere/x.rs", "rust".into(), false);
    assert_eq!(outside.subtitle, None);
}
