use ezicode::breadcrumbs::{
    extract_breadcrumbs, extract_breadcrumbs_checked, extract_code_symbols, extract_code_symbols_checked,
    extract_markdown_headings, line_is_safe, lines_are_safe, BreadcrumbKind,
};

#[test]
fn test_markdown_heading_extraction() {
    let md = r#"# Zed Workspace Packages

Total packages: **252**

## Tooling (3)

Notes on tooling.

### xtask

xtask details.
"#;
    let h_line1 = extract_markdown_headings(md, 1);
    assert_eq!(h_line1.len(), 1);
    assert_eq!(h_line1[0].label, "# Zed Workspace Packages");

    let h_line5 = extract_markdown_headings(md, 6);
    assert_eq!(h_line5.len(), 2);
    assert_eq!(h_line5[0].label, "# Zed Workspace Packages");
    assert_eq!(h_line5[1].label, "## Tooling (3)");

    let h_line10 = extract_markdown_headings(md, 11);
    assert_eq!(h_line10.len(), 3);
    assert_eq!(h_line10[2].label, "### xtask");
}

#[test]
fn test_code_symbol_extraction() {
    let rust_code = r#"
pub struct PickerState {
    pub kind: PickerKind,
}

impl PickerState {
    pub fn new() -> Self {
        Self { kind: PickerKind::FileFinder }
    }
}
"#;
    let syms = extract_code_symbols(rust_code, 8, "rs");
    assert!(!syms.is_empty());
    assert!(syms.iter().any(|s| s.label.contains("impl PickerState") || s.label.contains("fn new")));
}

#[test]
fn breadcrumbs_start_with_folders_and_file() {
    let crumbs = extract_breadcrumbs("/w/app/src/main.rs", "fn main() {\n}\n", 1, Some("/w"), "rust");
    assert!(crumbs.len() >= 3);
    assert_eq!(crumbs[0].label, "app");
    assert_eq!(crumbs[0].kind, BreadcrumbKind::Folder);
    assert_eq!(crumbs[2].label, "main.rs");
    assert_eq!(crumbs[2].kind, BreadcrumbKind::File);
}

#[test]
fn outlines_that_would_cut_a_character_are_refused() {
    let bad = format!("pub struct {}é{}", "a".repeat(26), "x".repeat(5));
    let good = format!("pub struct {}{}", "a".repeat(26), "x".repeat(8));
    let rs: Vec<char> = "rs".chars().collect();
    assert!(!line_is_safe(&bad.chars().collect::<Vec<char>>(), &rs));
    assert!(line_is_safe(&good.chars().collect::<Vec<char>>(), &rs));
    let text = format!("fn main() {{}}\n{bad}\n");
    assert!(lines_are_safe(&text, 1, "rs"));
    assert!(!lines_are_safe(&text, 2, "rs"));
    assert!(extract_code_symbols_checked(&text, 2, "rs").is_none());
    let symbols = extract_code_symbols_checked(&text, 1, "rs").unwrap();
    assert_eq!(symbols.len(), 1);
    assert_eq!(symbols[0].label, "fn main");
    assert!(extract_breadcrumbs_checked("/p/lib.rs", &text, 2, Some("/p"), "icon").is_none());
    let crumbs = extract_breadcrumbs_checked("/p/lib.rs", &text, 1, Some("/p"), "icon").unwrap();
    assert_eq!(crumbs.last().unwrap().label, "fn main");
    let notes = extract_breadcrumbs_checked("/p/notes.md", &text, 2, Some("/p"), "icon").unwrap();
    assert_eq!(notes[0].label, "notes.md");
}
