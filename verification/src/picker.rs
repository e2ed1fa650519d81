//! Picker state for the file finder, the command palette and go-to-line:
//! fuzzy filtering, ranking and selection.

use fuzzy_matcher::skim::SkimMatcherV2;
use fuzzy_matcher::FuzzyMatcher;
use crate::paths::{
    paths_equal, same_path, display_of, file_name_of, parent_of, path_file_name, path_has_prefix, path_parent,
    path_strip_prefix, path_suffix,
};
use crate::text::{
    text_is, chars_of, find_char, find_char_from, has_prefix, lemma_find_char_result, push_all, slice_chars, starts_with,
    string_of, trim, trim_chars, trim_end, trim_start, lemma_trim_start_concat, lemma_trim_end_concat,
    lemma_trim_start_is_tail, lemma_trim_start_twice, lemma_trim_is_stretch,
};
use vstd::prelude::*;

verus! {

/// Which picker is open.
#[derive(Clone, Copy, PartialEq, Eq, Debug, Structural)]
pub enum PickerKind {
    FileFinder,
    CommandPalette,
    GoToLine,
}

/// One entry of a picker.
#[derive(Clone, Debug)]
pub struct PickerItem {
    pub id: String,
    pub title: String,
    pub subtitle: Option<String>,
    pub icon: Option<String>,
    pub shortcut: Option<&'static str>,
    pub is_recent: bool,
    pub score: i64,
}

/// The value of a picker entry.
pub struct ItemView {
    pub id: Seq<char>,
    pub title: Seq<char>,
    pub subtitle: Option<Seq<char>>,
    pub icon: Option<Seq<char>>,
    pub shortcut: Option<Seq<char>>,
    pub is_recent: bool,
    pub score: int,
}

/// The value of an optional text.
pub open spec fn opt_view(o: Option<String>) -> Option<Seq<char>> {
    match o {
        Some(s) => Some(s@),
        None => None,
    }
}

/// The value of a picker item.
pub open spec fn item_view(i: PickerItem) -> ItemView {
    ItemView {
        id: i.id@,
        title: i.title@,
        subtitle: opt_view(i.subtitle),
        icon: opt_view(i.icon),
        shortcut: match i.shortcut {
            Some(s) => Some(s@),
            None => None,
        },
        is_recent: i.is_recent,
        score: i.score as int,
    }
}

/// The values of a sequence of items.
pub open spec fn items_view(s: Seq<PickerItem>) -> Seq<ItemView> {
    s.map_values(|i: PickerItem| item_view(i))
}

/// The score the skim fuzzy matcher (default settings) gives `choice` for
/// `pattern`, if it matches.
pub uninterp spec fn skim_score(choice: Seq<char>, pattern: Seq<char>) -> Option<i64>;

/// Fuzzy score of `choice` against `pattern` with the default
/// `SkimMatcherV2` (`FuzzyMatcher::fuzzy_match`). The matcher scores with
/// 32-bit arithmetic and scores an empty pattern 0.
#[verifier::external_body]
fn fuzzy_score(choice: &str, pattern: &str) -> (r: Option<i64>)
    ensures
        r == skim_score(choice@, pattern@),
        pattern@.len() == 0 ==> r == Some(0i64),
        r matches Some(s) ==> i32::MIN <= s <= i32::MAX,
{
    SkimMatcherV2::default().fuzzy_match(choice, pattern)
}

/// How many entries a picker lists at most.
pub open spec fn max_listed() -> int {
    40
}

/// The first (at most 40) entries.
pub open spec fn first_listed(s: Seq<ItemView>) -> Seq<ItemView> {
    if s.len() > max_listed() {
        s.take(max_listed())
    } else {
        s
    }
}

/// The text an entry is matched against: its title, and its subtitle after
/// a space when it has one.
pub open spec fn match_target(it: ItemView) -> Seq<char> {
    match it.subtitle {
        Some(s) => it.title + seq![' '] + s,
        None => it.title,
    }
}

/// The part of a query that is matched: the trimmed text before a `:`
/// (which may carry a line number), or the whole trimmed query.
pub open spec fn query_target(query: Seq<char>) -> Seq<char> {
    let q = trim(query);
    let c = find_char_from(q, ':', 0);
    if c >= 0 {
        trim(q.take(c))
    } else {
        q
    }
}

/// The entries that match `q`, with their scores (recent ones 50 higher),
/// in the given order.
pub open spec fn scored(raw: Seq<ItemView>, q: Seq<char>) -> Seq<ItemView>
    decreases raw.len(),
{
    if raw.len() == 0 {
        Seq::empty()
    } else {
        let prev = scored(raw.drop_last(), q);
        let it = raw.last();
        match skim_score(match_target(it), q) {
            Some(sc) => prev.push(
                ItemView {
                    score: if it.is_recent {
                        sc + 50
                    } else {
                        sc as int
                    },
                    ..it
                },
            ),
            None => prev,
        }
    }
}

/// The entries that have a score in `scores` (the score at the same
/// position, `None` for no match), with that score (recent ones 50 higher),
/// in the given order.
pub open spec fn scored_with(raw: Seq<ItemView>, scores: Seq<Option<i64>>) -> Seq<ItemView>
    decreases raw.len(),
{
    if raw.len() == 0 {
        Seq::empty()
    } else {
        let prev = scored_with(raw.drop_last(), scores.take(raw.len() - 1));
        let it = raw.last();
        match scores[raw.len() - 1] {
            Some(sc) => prev.push(
                ItemView {
                    score: if it.is_recent {
                        sc + 50
                    } else {
                        sc as int
                    },
                    ..it
                },
            ),
            None => prev,
        }
    }
}

proof fn lemma_scored_with(raw: Seq<ItemView>, scores: Seq<Option<i64>>, q: Seq<char>)
    requires
        scores.len() == raw.len(),
        forall|j: int| 0 <= j < raw.len() ==> #[trigger] scores[j] == skim_score(match_target(raw[j]), q),
    ensures
        scored_with(raw, scores) == scored(raw, q),
    decreases raw.len(),
{
    if raw.len() > 0 {
        let n = raw.len() - 1;
        let r2 = raw.drop_last();
        let s2 = scores.take(n);
        assert forall|j: int| 0 <= j < r2.len() implies #[trigger] s2[j] == skim_score(match_target(r2[j]), q) by {
            assert(s2[j] == scores[j]);
            assert(r2[j] == raw[j]);
        }
        lemma_scored_with(r2, s2, q);
        assert(scores[n] == skim_score(match_target(raw[n]), q));
    }
}

/// `x` inserted into `s` after every entry scoring at least as much.
pub open spec fn insert_by_score(s: Seq<ItemView>, x: ItemView) -> Seq<ItemView>
    decreases s.len(),
{
    if s.len() == 0 {
        seq![x]
    } else if s.last().score >= x.score {
        s.push(x)
    } else {
        insert_by_score(s.drop_last(), x).push(s.last())
    }
}

/// `s` sorted by descending score, keeping the order of equal scores.
pub open spec fn sort_by_score(s: Seq<ItemView>) -> Seq<ItemView>
    decreases s.len(),
{
    if s.len() == 0 {
        Seq::empty()
    } else {
        insert_by_score(sort_by_score(s.drop_last()), s.last())
    }
}

/// What a picker lists for `query`.
pub open spec fn listed_for(kind: PickerKind, raw: Seq<ItemView>, query: Seq<char>) -> Seq<ItemView> {
    if kind == PickerKind::GoToLine {
        Seq::empty()
    } else if trim(query).len() == 0 {
        first_listed(raw)
    } else {
        first_listed(sort_by_score(scored(raw, query_target(query))))
    }
}

/// The selection after moving down, wrapping to the top.
pub open spec fn next_index(i: int, n: int) -> int {
    if n == 0 {
        i
    } else {
        (i + 1) % n
    }
}

/// The selection after moving up, wrapping to the bottom.
pub open spec fn prev_index(i: int, n: int) -> int {
    if n == 0 {
        i
    } else if i == 0 {
        n - 1
    } else {
        i - 1
    }
}

/// A verified copy of an item.
fn copy_item(i: &PickerItem) -> (r: PickerItem)
    ensures
        item_view(r) == item_view(*i),
{
    PickerItem {
        id: i.id.clone(),
        title: i.title.clone(),
        subtitle: match &i.subtitle {
            Some(s) => Some(s.clone()),
            None => None,
        },
        icon: match &i.icon {
            Some(s) => Some(s.clone()),
            None => None,
        },
        shortcut: i.shortcut,
        is_recent: i.is_recent,
        score: i.score,
    }
}

/// Copies of the first (at most 40) items.
fn first_copies(s: &Vec<PickerItem>) -> (r: Vec<PickerItem>)
    ensures
        items_view(r@) == first_listed(items_view(s@)),
{
    let n: usize = if s.len() > 40 {
        40
    } else {
        s.len()
    };
    let mut out: Vec<PickerItem> = Vec::new();
    let mut i: usize = 0;
    while i < n
        invariant
            n <= s@.len(),
            n == if s@.len() > 40 { 40 } else { s@.len() },
            0 <= i <= n,
            items_view(out@) == items_view(s@).take(i as int),
        decreases n - i,
    {
        let c = copy_item(&s[i]);
        let ghost before = out@;
        out.push(c);
        proof {
            assert(items_view(out@) =~= items_view(before).push(item_view(c)));
            assert(items_view(s@).take(i + 1) =~= items_view(s@).take(i as int).push(item_view(s@[i as int])));
        }
        i = i + 1;
    }
    proof {
        if s@.len() <= 40 {
            assert(items_view(s@).take(n as int) =~= items_view(s@));
        }
    }
    out
}

proof fn lemma_insert_at(s: Seq<ItemView>, x: ItemView, p: int)
    requires
        0 <= p <= s.len(),
        forall|j: int| p <= j < s.len() ==> #[trigger] s[j].score < x.score,
        p == 0 || s[p - 1].score >= x.score,
    ensures
        insert_by_score(s, x) == s.take(p) + seq![x] + s.skip(p),
    decreases s.len() - p,
{
    if p == s.len() {
        if s.len() == 0 {
            assert(s.take(p) + seq![x] + s.skip(p) =~= seq![x]);
        } else {
            assert(s.take(p) + seq![x] + s.skip(p) =~= s.push(x));
        }
    } else {
        lemma_insert_at(s.drop_last(), x, p);
        assert(s.drop_last().take(p) =~= s.take(p));
        assert(s.take(p) + seq![x] + s.skip(p) =~= (s.drop_last().take(p) + seq![x] + s.drop_last().skip(p)).push(s.last()));
    }
}

/// Inserts `x` into `v` (sorted by descending score) after every entry
/// scoring at least as much.
fn insert_sorted(v: &mut Vec<PickerItem>, x: PickerItem)
    ensures
        items_view(final(v)@) == insert_by_score(items_view(old(v)@), item_view(x)),
{
    let ghost s = items_view(v@);
    let mut p = v.len();
    while p > 0 && v[p - 1].score < x.score
        invariant
            p <= v@.len(),
            s == items_view(v@),
            forall|j: int| p <= j < v@.len() ==> #[trigger] s[j].score < item_view(x).score,
        decreases p,
    {
        p = p - 1;
    }
    proof {
        lemma_insert_at(s, item_view(x), p as int);
    }
    let ghost xv = item_view(x);
    let ghost before = v@;
    v.insert(p, x);
    proof {
        assert(items_view(v@) =~= s.take(p as int) + seq![xv] + s.skip(p as int));
    }
}

/// The picker entries of the command palette, in menu order.
pub open spec fn palette_row(
    id: Seq<char>,
    title: Seq<char>,
    subtitle: Seq<char>,
    icon: Option<Seq<char>>,
    shortcut: Option<Seq<char>>,
) -> ItemView {
    ItemView { id, title, subtitle: Some(subtitle), icon, shortcut, is_recent: false, score: 0 }
}

/// The commands of the command palette.
pub open spec fn palette() -> Seq<ItemView> {
    seq![
        palette_row("file.new"@, "New File"@, "File"@, Some("ui_icons/new_file.svg"@), Some("Ctrl+N"@)),
        palette_row("file.open"@, "Open File..."@, "File"@, Some("ui_icons/file.svg"@), Some("Ctrl+O"@)),
        palette_row("file.open_folder"@, "Open Folder..."@, "File"@, Some("ui_icons/folder.svg"@), None),
        palette_row("file.save"@, "Save File"@, "File"@, None, Some("Ctrl+S"@)),
        palette_row("file.quick_open"@, "Quick Open File (File Finder)"@, "Navigation"@, Some("ui_icons/go-to-file.svg"@), Some("Ctrl+P"@)),
        palette_row("view.goto_line"@, "Go to Line..."@, "Navigation"@, None, Some("Ctrl+G"@)),
        palette_row("tab.close"@, "Close Active Tab"@, "View"@, None, Some("Ctrl+W"@)),
        palette_row("tab.next"@, "Next Tab"@, "View"@, None, Some("Ctrl+Tab"@)),
        palette_row("tab.prev"@, "Previous Tab"@, "View"@, None, Some("Ctrl+Shift+Tab"@)),
        palette_row("terminal.toggle"@, "Toggle Integrated Terminal"@, "Terminal"@, Some("ui_icons/terminal.svg"@), Some("Ctrl+`"@)),
        palette_row("terminal.new"@, "New Terminal Session"@, "Terminal"@, Some("ui_icons/add.svg"@), Some("Ctrl+Shift+`"@)),
        palette_row("terminal.close"@, "Close Active Terminal"@, "Terminal"@, None, Some("Ctrl+Shift+W"@)),
        palette_row("terminal.clear"@, "Clear Terminal Buffer"@, "Terminal"@, None, Some("Ctrl+Shift+K"@)),
        palette_row("sidebar.toggle"@, "Toggle Primary Sidebar"@, "View"@, None, Some("Ctrl+B"@)),
        palette_row("view.explorer"@, "Focus File Explorer"@, "View"@, Some("ui_icons/files.svg"@), Some("Ctrl+Shift+E"@)),
        palette_row("view.search"@, "Focus Project Search"@, "View"@, Some("ui_icons/search.svg"@), Some("Ctrl+Shift+F"@)),
        palette_row("view.git"@, "Focus Source Control (Git)"@, "View"@, Some("ui_icons/source-control.svg"@), Some("Ctrl+Shift+G"@)),
        palette_row("view.extensions"@, "Focus Extensions"@, "View"@, Some("ui_icons/extensions.svg"@), Some("Ctrl+Shift+X"@)),
        palette_row("preferences.settings"@, "Open Preferences / Settings"@, "Preferences"@, Some("ui_icons/settings.svg"@), Some("Ctrl+,"@)),
        palette_row("theme.github_dark"@, "Color Theme: GitHub Dark"@, "Preferences"@, None, None),
        palette_row("theme.ayu_dark"@, "Color Theme: Ayu Dark"@, "Preferences"@, None, None),
        palette_row("theme.ayu_mirage"@, "Color Theme: Ayu Mirage"@, "Preferences"@, None, None),
        palette_row("theme.ayu_light"@, "Color Theme: Ayu Light"@, "Preferences"@, None, None),
        palette_row("theme.gruvbox_dark"@, "Color Theme: Gruvbox Dark"@, "Preferences"@, None, None),
        palette_row("editor.format"@, "Format Document (LSP)"@, "Editor"@, None, Some("Shift+Alt+F"@)),
        palette_row("editor.font_increase"@, "Increase Editor Font Size"@, "View"@, None, Some("Ctrl+="@)),
        palette_row("editor.font_decrease"@, "Decrease Editor Font Size"@, "View"@, None, Some("Ctrl+-"@)),
        palette_row("editor.font_reset"@, "Reset Editor Font Size"@, "View"@, None, Some("Ctrl+0"@)),
        palette_row("editor.copy_diagnostic"@, "Copy Diagnostic Error"@, "Editor"@, None, Some("Ctrl+Alt+C"@)),
        palette_row("git.refresh"@, "Git: Refresh Changes"@, "Git"@, Some("ui_icons/refresh.svg"@), None),
        palette_row("git.stage_all"@, "Git: Stage All Changes"@, "Git"@, None, None),
        palette_row("git.unstage_all"@, "Git: Unstage All Changes"@, "Git"@, None, None),
        palette_row("git.discard_all"@, "Git: Discard All Changes"@, "Git"@, Some("ui_icons/discard.svg"@), None),
        palette_row("git.commit"@, "Git: Commit Changes"@, "Git"@, None, None),
        palette_row("help.about"@, "About ezicode"@, "Help"@, None, None),
        palette_row("app.quit"@, "Quit ezicode"@, "Application"@, None, None),
    ]
}

/// One command palette entry.
fn palette_entry(id: &str, title: &str, subtitle: &str, icon: Option<&str>, shortcut: Option<&'static str>) -> (r: PickerItem)
    ensures
        item_view(r) == palette_row(id@, title@, subtitle@, match icon { Some(s) => Some(s@), None => None }, match shortcut { Some(s) => Some(s@), None => None }),
{
    PickerItem {
        id: id.to_string(),
        title: title.to_string(),
        subtitle: Some(subtitle.to_string()),
        icon: match icon {
            Some(s) => Some(s.to_string()),
            None => None,
        },
        shortcut,
        is_recent: false,
        score: 0,
    }
}

/// The commands listed by the command palette.
#[verifier::rlimit(50)]
pub fn command_palette_items() -> (r: Vec<PickerItem>)
    ensures
        items_view(r@) == palette(),
{
    let mut v: Vec<PickerItem> = Vec::new();
    v.push(palette_entry("file.new", "New File", "File", Some("ui_icons/new_file.svg"), Some("Ctrl+N")));
    v.push(palette_entry("file.open", "Open File...", "File", Some("ui_icons/file.svg"), Some("Ctrl+O")));
    v.push(palette_entry("file.open_folder", "Open Folder...", "File", Some("ui_icons/folder.svg"), None));
    v.push(palette_entry("file.save", "Save File", "File", None, Some("Ctrl+S")));
    v.push(palette_entry("file.quick_open", "Quick Open File (File Finder)", "Navigation", Some("ui_icons/go-to-file.svg"), Some("Ctrl+P")));
    v.push(palette_entry("view.goto_line", "Go to Line...", "Navigation", None, Some("Ctrl+G")));
    v.push(palette_entry("tab.close", "Close Active Tab", "View", None, Some("Ctrl+W")));
    v.push(palette_entry("tab.next", "Next Tab", "View", None, Some("Ctrl+Tab")));
    v.push(palette_entry("tab.prev", "Previous Tab", "View", None, Some("Ctrl+Shift+Tab")));
    v.push(palette_entry("terminal.toggle", "Toggle Integrated Terminal", "Terminal", Some("ui_icons/terminal.svg"), Some("Ctrl+`")));
    v.push(palette_entry("terminal.new", "New Terminal Session", "Terminal", Some("ui_icons/add.svg"), Some("Ctrl+Shift+`")));
    v.push(palette_entry("terminal.close", "Close Active Terminal", "Terminal", None, Some("Ctrl+Shift+W")));
    v.push(palette_entry("terminal.clear", "Clear Terminal Buffer", "Terminal", None, Some("Ctrl+Shift+K")));
    v.push(palette_entry("sidebar.toggle", "Toggle Primary Sidebar", "View", None, Some("Ctrl+B")));
    v.push(palette_entry("view.explorer", "Focus File Explorer", "View", Some("ui_icons/files.svg"), Some("Ctrl+Shift+E")));
    v.push(palette_entry("view.search", "Focus Project Search", "View", Some("ui_icons/search.svg"), Some("Ctrl+Shift+F")));
    v.push(palette_entry("view.git", "Focus Source Control (Git)", "View", Some("ui_icons/source-control.svg"), Some("Ctrl+Shift+G")));
    v.push(palette_entry("view.extensions", "Focus Extensions", "View", Some("ui_icons/extensions.svg"), Some("Ctrl+Shift+X")));
    v.push(palette_entry("preferences.settings", "Open Preferences / Settings", "Preferences", Some("ui_icons/settings.svg"), Some("Ctrl+,")));
    v.push(palette_entry("theme.github_dark", "Color Theme: GitHub Dark", "Preferences", None, None));
    v.push(palette_entry("theme.ayu_dark", "Color Theme: Ayu Dark", "Preferences", None, None));
    v.push(palette_entry("theme.ayu_mirage", "Color Theme: Ayu Mirage", "Preferences", None, None));
    v.push(palette_entry("theme.ayu_light", "Color Theme: Ayu Light", "Preferences", None, None));
    v.push(palette_entry("theme.gruvbox_dark", "Color Theme: Gruvbox Dark", "Preferences", None, None));
    v.push(palette_entry("editor.format", "Format Document (LSP)", "Editor", None, Some("Shift+Alt+F")));
    v.push(palette_entry("editor.font_increase", "Increase Editor Font Size", "View", None, Some("Ctrl+=")));
    v.push(palette_entry("editor.font_decrease", "Decrease Editor Font Size", "View", None, Some("Ctrl+-")));
    v.push(palette_entry("editor.font_reset", "Reset Editor Font Size", "View", None, Some("Ctrl+0")));
    v.push(palette_entry("editor.copy_diagnostic", "Copy Diagnostic Error", "Editor", None, Some("Ctrl+Alt+C")));
    v.push(palette_entry("git.refresh", "Git: Refresh Changes", "Git", Some("ui_icons/refresh.svg"), None));
    v.push(palette_entry("git.stage_all", "Git: Stage All Changes", "Git", None, None));
    v.push(palette_entry("git.unstage_all", "Git: Unstage All Changes", "Git", None, None));
    v.push(palette_entry("git.discard_all", "Git: Discard All Changes", "Git", Some("ui_icons/discard.svg"), None));
    v.push(palette_entry("git.commit", "Git: Commit Changes", "Git", None, None));
    v.push(palette_entry("help.about", "About ezicode", "Help", None, None));
    v.push(palette_entry("app.quit", "Quit ezicode", "Application", None, None));
    assert(items_view(v@) =~= palette());
    v
}

/// The entries of `raw` that have a score in `scores` (the score at the
/// same position, `None` for no match): best score first (recent entries
/// 50 higher, ties in list order), at most 40.
pub fn rank_scored(raw: &Vec<PickerItem>, scores: &Vec<Option<i64>>) -> (r: Vec<PickerItem>)
    requires
        scores@.len() == raw@.len(),
        forall|j: int| 0 <= j < scores@.len() ==> (#[trigger] scores@[j] matches Some(x) ==> x <= i64::MAX - 50),
    ensures
        items_view(r@) == first_listed(sort_by_score(scored_with(items_view(raw@), scores@))),
{
    let ghost rv = items_view(raw@);
    let mut sorted: Vec<PickerItem> = Vec::new();
    let mut i: usize = 0;
    assert(rv.take(0) =~= Seq::<ItemView>::empty());
    assert(scores@.take(0) =~= Seq::<Option<i64>>::empty());
    while i < raw.len()
        invariant
            rv == items_view(raw@),
            rv.len() == raw@.len(),
            scores@.len() == raw@.len(),
            forall|j: int| 0 <= j < scores@.len() ==> (#[trigger] scores@[j] matches Some(x) ==> x <= i64::MAX - 50),
            0 <= i <= raw@.len(),
            items_view(sorted@) == sort_by_score(scored_with(rv.take(i as int), scores@.take(i as int))),
        decreases raw@.len() - i,
    {
        let item = &raw[i];
        proof {
            assert(rv[i as int] == item_view(*item));
            assert(rv.take(i + 1).drop_last() =~= rv.take(i as int));
            assert(rv.take(i + 1).last() == rv[i as int]);
            assert(scores@.take(i + 1).take(i as int) =~= scores@.take(i as int));
            assert(scores@.take(i + 1)[i as int] == scores@[i as int]);
        }
        match scores[i] {
            Some(score) => {
                let mut it = copy_item(item);
                it.score = if it.is_recent {
                    score + 50
                } else {
                    score
                };
                insert_sorted(&mut sorted, it);
                proof {
                    let sv = scored_with(rv.take(i + 1), scores@.take(i + 1));
                    assert(sv.drop_last() == scored_with(rv.take(i as int), scores@.take(i as int)));
                    assert(sv.last() == item_view(it));
                    assert(sort_by_score(sv) == insert_by_score(sort_by_score(sv.drop_last()), sv.last()));
                }
            },
            None => {},
        }
        i = i + 1;
    }
    assert(rv.take(raw@.len() as int) =~= rv);
    assert(scores@.take(raw@.len() as int) =~= scores@);
    first_copies(&sorted)
}

/// The state of an open picker.
pub struct PickerState {
    pub kind: PickerKind,
    pub raw_items: Vec<PickerItem>,
    pub filtered_items: Vec<PickerItem>,
    pub selected_index: usize,
}

impl PickerState {
    /// A picker of `kind` over `raw_items`, listing the first 40 of them
    /// (none for go-to-line), with the first one selected.
    pub fn new(kind: PickerKind, raw_items: Vec<PickerItem>) -> (r: Self)
        ensures
            r.kind == kind,
            items_view(r.raw_items@) == items_view(raw_items@),
            items_view(r.filtered_items@) == if kind == PickerKind::GoToLine {
                Seq::<ItemView>::empty()
            } else {
                first_listed(items_view(raw_items@))
            },
            r.selected_index == 0,
    {
        let filtered_items = if kind == PickerKind::GoToLine {
            Vec::new()
        } else {
            first_copies(&raw_items)
        };
        proof {
            if kind == PickerKind::GoToLine {
                assert(items_view(filtered_items@) =~= Seq::<ItemView>::empty());
            }
        }
        PickerState { kind, raw_items, filtered_items, selected_index: 0 }
    }

    /// Lists the entries matching `query`: best fuzzy score first (recent
    /// entries 50 higher, ties in list order), at most 40; an empty query
    /// lists the first 40 entries; go-to-line lists nothing. Selects the
    /// first entry.
    pub fn filter(&mut self, query: &str)
        ensures
            final(self).kind == old(self).kind,
            items_view(final(self).raw_items@) == items_view(old(self).raw_items@),
            items_view(final(self).filtered_items@) == listed_for(old(self).kind, items_view(old(self).raw_items@), query@),
            final(self).selected_index == 0,
    {
        if self.kind == PickerKind::GoToLine {
            self.filtered_items = Vec::new();
            self.selected_index = 0;
            assert(items_view(self.filtered_items@) =~= Seq::<ItemView>::empty());
            return;
        }
        let qa = chars_of(query);
        let q = trim_chars(&qa);
        if q.len() == 0 {
            self.filtered_items = first_copies(&self.raw_items);
            self.selected_index = 0;
            return;
        }
        let qm = match find_char(&q, ':', 0) {
            Some(c) => {
                proof {
                    lemma_find_char_result(q@, ':', 0);
                }
                let f = slice_chars(&q, 0, c);
                trim_chars(&f)
            },
            None => q,
        };
        assert(qm@ == query_target(query@));
        let qs = string_of(&qm);
        let ghost raw = items_view(self.raw_items@);
        let mut scores: Vec<Option<i64>> = Vec::new();
        let mut i: usize = 0;
        while i < self.raw_items.len()
            invariant
                raw == items_view(self.raw_items@),
                raw.len() == self.raw_items@.len(),
                qs@ == query_target(query@),
                0 <= i <= self.raw_items@.len(),
                scores@.len() == i,
                forall|j: int| 0 <= j < i ==> #[trigger] scores@[j] == skim_score(match_target(raw[j]), qs@),
                forall|j: int| 0 <= j < i ==> (#[trigger] scores@[j] matches Some(x) ==> i32::MIN <= x <= i32::MAX),
            decreases self.raw_items@.len() - i,
        {
            let item = &self.raw_items[i];
            let mut target = chars_of(item.title.as_str());
            match &item.subtitle {
                Some(sub) => {
                    target.push(' ');
                    let sc = chars_of(sub.as_str());
                    push_all(&mut target, &sc);
                },
                None => {},
            }
            let ts = string_of(&target);
            proof {
                assert(raw[i as int] == item_view(*item));
                assert(ts@ == match_target(raw[i as int]));
            }
            scores.push(fuzzy_score(ts.as_str(), qs.as_str()));
            i = i + 1;
        }
        proof {
            lemma_scored_with(raw, scores@, qs@);
        }
        self.filtered_items = rank_scored(&self.raw_items, &scores);
        self.selected_index = 0;
    }

    /// Moves the selection down, wrapping to the top.
    pub fn select_next(&mut self)
        requires
            old(self).selected_index < usize::MAX,
        ensures
            final(self).selected_index == next_index(old(self).selected_index as int, old(self).filtered_items@.len() as int),
            final(self).kind == old(self).kind,
            final(self).raw_items == old(self).raw_items,
            final(self).filtered_items == old(self).filtered_items,
    {
        if self.filtered_items.len() > 0 {
            self.selected_index = (self.selected_index + 1) % self.filtered_items.len();
        }
    }

    /// Moves the selection up, wrapping to the bottom.
    pub fn select_prev(&mut self)
        ensures
            final(self).selected_index == prev_index(old(self).selected_index as int, old(self).filtered_items@.len() as int),
            final(self).kind == old(self).kind,
            final(self).raw_items == old(self).raw_items,
            final(self).filtered_items == old(self).filtered_items,
    {
        if self.filtered_items.len() > 0 {
            if self.selected_index == 0 {
                self.selected_index = self.filtered_items.len() - 1;
            } else {
                self.selected_index = self.selected_index - 1;
            }
        }
    }

    /// The selected entry, if the selection is on one.
    pub fn selected_item(&self) -> (r: Option<&PickerItem>)
        ensures
            self.selected_index < self.filtered_items@.len() ==> r == Some(&self.filtered_items@[self.selected_index as int]),
            self.selected_index >= self.filtered_items@.len() ==> r is None,
    {
        if self.selected_index < self.filtered_items.len() {
            Some(&self.filtered_items[self.selected_index])
        } else {
            None
        }
    }
}

/// Moving the selection down and then up returns to where it was, for a
/// selection on an entry.
pub proof fn lemma_next_then_prev(i: int, n: int)
    requires
        0 <= i < n,
    ensures
        prev_index(next_index(i, n), n) == i,
        next_index(prev_index(i, n), n) == i,
{
    if i + 1 < n {
        assert((i + 1) % n == i + 1) by (nonlinear_arith)
            requires
                0 <= i + 1 < n,
        ;
    } else {
        assert((i + 1) % n == 0) by (nonlinear_arith)
            requires
                i + 1 == n,
                n > 0,
        ;
    }
    if i == 0 {
        assert(n % n == 0) by (nonlinear_arith)
            requires
                n > 0,
        ;
    } else {
        assert(i % n == i) by (nonlinear_arith)
            requires
                0 <= i < n,
        ;
    }
}

/// The listing is ordered by descending score.
pub proof fn lemma_sorted_by_score(s: Seq<ItemView>)
    ensures
        forall|a: int, b: int| 0 <= a < b < sort_by_score(s).len() ==> sort_by_score(s)[a].score >= sort_by_score(s)[b].score,
        sort_by_score(s).len() == s.len(),
    decreases s.len(),
{
    if s.len() > 0 {
        lemma_sorted_by_score(s.drop_last());
        lemma_insert_sorted_keeps_order(sort_by_score(s.drop_last()), s.last());
    }
}

proof fn lemma_insert_sorted_keeps_order(s: Seq<ItemView>, x: ItemView)
    requires
        forall|a: int, b: int| 0 <= a < b < s.len() ==> s[a].score >= s[b].score,
    ensures
        forall|a: int, b: int| 0 <= a < b < insert_by_score(s, x).len() ==> insert_by_score(s, x)[a].score >= insert_by_score(s, x)[b].score,
        insert_by_score(s, x).len() == s.len() + 1,
    decreases s.len(),
{
    if s.len() > 0 && s.last().score < x.score {
        lemma_insert_sorted_keeps_order(s.drop_last(), x);
        let t = insert_by_score(s.drop_last(), x);
        assert forall|a: int, b: int| 0 <= a < b < t.push(s.last()).len() implies t.push(s.last())[a].score >= t.push(s.last())[b].score by {
            if b == t.len() {
                if a < t.len() {
                    assert(t[a].score >= s.last().score) by {
                        lemma_insert_elems(s.drop_last(), x);
                    }
                }
            }
        }
    }
}

proof fn lemma_insert_elems(s: Seq<ItemView>, x: ItemView)
    ensures
        forall|a: int| 0 <= a < insert_by_score(s, x).len() ==> (insert_by_score(s, x)[a] == x || s.contains(#[trigger] insert_by_score(s, x)[a])),
    decreases s.len(),
{
    if s.len() > 0 && s.last().score < x.score {
        lemma_insert_elems(s.drop_last(), x);
        let t = insert_by_score(s.drop_last(), x);
        assert forall|a: int| 0 <= a < t.push(s.last()).len() implies (t.push(s.last())[a] == x || s.contains(#[trigger] t.push(s.last())[a])) by {
            if a < t.len() {
                if t[a] != x {
                    let k = choose|k: int| 0 <= k < s.drop_last().len() && s.drop_last()[k] == t[a];
                    assert(s[k] == t[a]);
                }
            } else {
                assert(s[s.len() - 1] == s.last());
            }
        }
    } else if s.len() > 0 {
        assert forall|a: int| 0 <= a < s.push(x).len() implies (s.push(x)[a] == x || s.contains(#[trigger] s.push(x)[a])) by {
            if a < s.len() {
                assert(s[a] == s.push(x)[a]);
            }
        }
    }
}

/// The file-finder entry of a workspace file: its file name as title, the
/// folder it is in relative to the root as subtitle (none at the root or
/// outside it), and its path as id.
pub open spec fn file_entry(root: Seq<char>, path: Seq<char>, icon: Seq<char>, is_recent: bool) -> ItemView {
    let sub = if path_has_prefix(path, root) {
        match path_parent(path_suffix(path, root)) {
            Some(d) => if d.len() > 0 {
                Some(d)
            } else {
                None
            },
            None => None,
        }
    } else {
        None
    };
    ItemView {
        id: path,
        title: match path_file_name(path) {
            Some(n) => n,
            None => Seq::empty(),
        },
        subtitle: sub,
        icon: Some(icon),
        shortcut: None,
        is_recent,
        score: 0,
    }
}

/// The file-finder entry for the file at `path` in the workspace `root`.
pub fn workspace_file_item(root: &str, path: &str, icon: String, is_recent: bool) -> (r: PickerItem)
    ensures
        item_view(r) == file_entry(root@, path@, icon@, is_recent),
{
    let title = match file_name_of(path) {
        Some(n) => n,
        None => String::new(),
    };
    let subtitle = match path_strip_prefix(path, root) {
        Some(rel) => match parent_of(rel.as_str()) {
            Some(d) => {
                if d.as_str().is_empty() {
                    None
                } else {
                    Some(display_of(d.as_str()))
                }
            },
            None => None,
        },
        None => None,
    };
    PickerItem {
        id: path.to_string(),
        title,
        subtitle,
        icon: Some(icon),
        shortcut: None,
        is_recent,
        score: 0,
    }
}

/// Whether the workspace walk for the file finder enters an entry of this
/// name: everything but `.git`, `target` and `node_modules`.
pub fn walk_includes(name: &str) -> (r: bool)
    ensures
        r == !(name@ == ".git"@ || name@ == "target"@ || name@ == "node_modules"@),
{
    !(text_is(name, ".git") || text_is(name, "target") || text_is(name, "node_modules"))
}

/// Whether `id` names one of the `recent` files.
pub open spec fn listed_recent(recent: Seq<Seq<char>>, id: Seq<char>) -> bool {
    exists|j: int| 0 <= j < recent.len() && same_path(id, #[trigger] recent[j])
}

/// The test for entries of recent files.
pub open spec fn recent_test(recent: Seq<Seq<char>>) -> spec_fn(ItemView) -> bool {
    |i: ItemView| listed_recent(recent, i.id)
}

/// The test for entries of other files.
pub open spec fn not_recent_test(recent: Seq<Seq<char>>) -> spec_fn(ItemView) -> bool {
    |i: ItemView| !listed_recent(recent, i.id)
}

/// The cached file list brought up to date with the open files: the
/// entries of recent files first, marked recent, then the others, each
/// group in its cached order.
pub open spec fn recent_first(items: Seq<ItemView>, recent: Seq<Seq<char>>) -> Seq<ItemView> {
    items.filter(recent_test(recent)).map_values(|i: ItemView| ItemView { is_recent: true, ..i }) + items.filter(
        not_recent_test(recent),
    )
}

fn is_listed_recent(recent: &[String], id: &str) -> (r: bool)
    ensures
        r == listed_recent(recent@.map_values(|s: String| s@), id@),
{
    let ghost rv = recent@.map_values(|s: String| s@);
    let mut j: usize = 0;
    while j < recent.len()
        invariant
            rv == recent@.map_values(|s: String| s@),
            0 <= j <= recent@.len(),
            forall|k: int| 0 <= k < j ==> !same_path(id@, #[trigger] rv[k]),
        decreases recent@.len() - j,
    {
        if paths_equal(id, recent[j].as_str()) {
            assert(same_path(id@, rv[j as int]));
            return true;
        }
        j = j + 1;
    }
    false
}

/// Orders the cached file-finder entries for the files open now
/// (`recent`): theirs first, marked recent, then the rest.
pub fn reorder_cached_files(items: &[PickerItem], recent: &[String]) -> (r: Vec<PickerItem>)
    ensures
        items_view(r@) == recent_first(items_view(items@), recent@.map_values(|s: String| s@)),
{
    let ghost iv = items_view(items@);
    let ghost rv = recent@.map_values(|s: String| s@);
    let ghost yes = recent_test(rv);
    let ghost no = not_recent_test(rv);
    let mut first: Vec<PickerItem> = Vec::new();
    let mut rest: Vec<PickerItem> = Vec::new();
    let mut i: usize = 0;
    proof {
        reveal(Seq::filter);
        assert(iv.take(0) =~= Seq::<ItemView>::empty());
        assert(items_view(first@) =~= Seq::<ItemView>::empty());
        assert(items_view(rest@) =~= Seq::<ItemView>::empty());
    }
    while i < items.len()
        invariant
            iv == items_view(items@),
            iv.len() == items@.len(),
            rv == recent@.map_values(|s: String| s@),
            yes == recent_test(rv),
            no == not_recent_test(rv),
            0 <= i <= items@.len(),
            items_view(first@) == iv.take(i as int).filter(yes).map_values(|x: ItemView| ItemView { is_recent: true, ..x }),
            items_view(rest@) == iv.take(i as int).filter(no),
        decreases items@.len() - i,
    {
        assert(iv[i as int] == item_view(items@[i as int]));
        proof {
            reveal(Seq::filter);
            assert(iv.take(i + 1).drop_last() =~= iv.take(i as int));
            assert(iv.take(i + 1).last() == iv[i as int]);
        }
        let mut it = copy_item(&items[i]);
        if is_listed_recent(recent, items[i].id.as_str()) {
            let ghost before = first@;
            let ghost fv = iv.take(i as int).filter(yes);
            it.is_recent = true;
            first.push(it);
            assert(iv.take(i + 1).filter(yes) == fv.push(iv[i as int]));
            assert(item_view(it) == ItemView { is_recent: true, ..iv[i as int] });
            assert(items_view(first@) =~= items_view(before).push(item_view(it)));
            assert(fv.push(iv[i as int]).map_values(|x: ItemView| ItemView { is_recent: true, ..x }) =~= fv.map_values(
                |x: ItemView| ItemView { is_recent: true, ..x },
            ).push(ItemView { is_recent: true, ..iv[i as int] }));
            assert(iv.take(i + 1).filter(no) == iv.take(i as int).filter(no));
        } else {
            let ghost before = rest@;
            rest.push(it);
            assert(items_view(rest@) =~= items_view(before).push(item_view(it)));
            assert(iv.take(i + 1).filter(yes) == iv.take(i as int).filter(yes));
        }
        i = i + 1;
    }
    assert(iv.take(i as int) =~= iv);
    let ghost fv = items_view(first@);
    let ghost sv = items_view(rest@);
    let mut out = first;
    let mut k: usize = 0;
    while k < rest.len()
        invariant
            0 <= k <= rest@.len(),
            sv == items_view(rest@),
            items_view(out@) == fv + sv.take(k as int),
        decreases rest@.len() - k,
    {
        let ghost before = out@;
        let it = copy_item(&rest[k]);
        out.push(it);
        assert(items_view(out@) =~= items_view(before).push(item_view(it)));
        assert(sv.take(k + 1) =~= sv.take(k as int).push(sv[k as int]));
        assert(sv[k as int] == item_view(rest@[k as int]));
        k = k + 1;
    }
    assert(sv.take(k as int) =~= sv);
    out
}

/// The line an open picker shows in place of result rows: a hint for
/// go-to-line, "No matching results" when nothing is listed, else none.
pub fn picker_message(kind: PickerKind, nothing_listed: bool) -> (r: Option<&'static str>)
    ensures
        kind == PickerKind::GoToLine ==> (r matches Some(m)
            && m@ == "Type a line number (and optional :column) and press Enter to jump."@),
        kind != PickerKind::GoToLine && nothing_listed ==> (r matches Some(m) && m@ == "No matching results"@),
        kind != PickerKind::GoToLine && !nothing_listed ==> r is None,
{
    if kind == PickerKind::GoToLine {
        Some("Type a line number (and optional :column) and press Enter to jump.")
    } else if nothing_listed {
        Some("No matching results")
    } else {
        None
    }
}

/// How a row's icon is drawn.
#[derive(Clone, Copy, PartialEq, Eq, Debug, Structural)]
pub enum IconKind {
    /// A file-type image (`file_icons/...`).
    FileImage,
    /// A monochrome interface glyph (`ui_icons/...`), tinted like muted text.
    TintedSvg,
    /// Any other image.
    Image,
}

/// How the icon at `icon` is drawn, told by its folder.
pub fn icon_kind(icon: &str) -> (r: IconKind)
    ensures
        r == if has_prefix(icon@, "file_icons/"@) {
            IconKind::FileImage
        } else if has_prefix(icon@, "ui_icons/"@) {
            IconKind::TintedSvg
        } else {
            IconKind::Image
        },
{
    let v = chars_of(icon);
    let files = chars_of("file_icons/");
    if starts_with(v.as_slice(), files.as_slice()) {
        return IconKind::FileImage;
    }
    let ui = chars_of("ui_icons/");
    if starts_with(v.as_slice(), ui.as_slice()) {
        IconKind::TintedSvg
    } else {
        IconKind::Image
    }
}

/// What stands at the right end of a result row.
#[derive(Clone, Copy, PartialEq, Eq, Debug)]
pub enum RowTrailer {
    /// The split and close actions of the selected file, with the note
    /// "recently opened" for a recent one.
    FileActions(Option<&'static str>),
    /// The item's keyboard shortcut.
    Shortcut(&'static str),
    /// Nothing.
    Empty,
}

/// The right end of a row: the file actions on the selected row of the file
/// finder, else the item's shortcut where it has one.
pub fn row_trailer(kind: PickerKind, is_selected: bool, item: &PickerItem) -> (r: RowTrailer)
    ensures
        is_selected && kind == PickerKind::FileFinder ==> (r matches RowTrailer::FileActions(note) && (
        item.is_recent ==> (note matches Some(n) && n@ == "recently opened"@)) && (!item.is_recent
            ==> note is None)),
        !(is_selected && kind == PickerKind::FileFinder) ==> match item.shortcut {
            Some(sc) => r == RowTrailer::Shortcut(sc),
            None => r == RowTrailer::Empty,
        },
{
    if is_selected && kind == PickerKind::FileFinder {
        let note = if item.is_recent {
            Some("recently opened")
        } else {
            None
        };
        RowTrailer::FileActions(note)
    } else {
        match item.shortcut {
            Some(sc) => RowTrailer::Shortcut(sc),
            None => RowTrailer::Empty,
        }
    }
}

/// The pattern a query is matched with never holds a `:`: a `:` and what
/// follows it (a line number) are not matched.
pub proof fn lemma_query_pattern_has_no_colon(query: Seq<char>)
    ensures
        forall|i: int| 0 <= i < query_target(query).len() ==> query_target(query)[i] != ':',
{
    let q = trim(query);
    let c = find_char_from(q, ':', 0);
    lemma_find_char_result(q, ':', 0);
    if c >= 0 {
        let d = lemma_trim_is_stretch(q.take(c));
        assert forall|i: int| 0 <= i < query_target(query).len() implies query_target(query)[i] != ':' by {
            assert(query_target(query)[i] == q.take(c)[d + i]);
        }
    }
}

/// A query `x:y` lists exactly what `x` lists (when `x` holds no `:` and is
/// not blank): the part after the `:` is a line to jump to, not part of
/// the search.
pub proof fn lemma_line_suffix_does_not_change_listing(kind: PickerKind, raw: Seq<ItemView>, x: Seq<char>, y: Seq<char>)
    requires
        forall|i: int| 0 <= i < x.len() ==> x[i] != ':',
        trim(x).len() > 0,
    ensures
        listed_for(kind, raw, x + seq![':'] + y) == listed_for(kind, raw, x),
{
    let b = seq![':'] + y;
    let q = x + b;
    assert(x + seq![':'] + y =~= q);
    let a = trim_start(x);
    assert(a.len() > 0);
    lemma_trim_start_concat(x, b);
    lemma_trim_end_concat(a, b);
    let tq = trim(q);
    assert(tq == a + trim_end(b));
    lemma_trim_start_is_tail(x);
    assert forall|j: int| 0 <= j < a.len() implies tq[j] != ':' by {
        assert(tq[j] == a[j]);
        assert(a[j] == x[x.len() - a.len() + j]);
    }
    assert(tq[a.len() as int] == ':');
    lemma_find_char_result(tq, ':', 0);
    assert(find_char_from(tq, ':', 0) == a.len());
    assert(tq.take(a.len() as int) =~= a);
    lemma_trim_start_twice(x);
    assert(query_target(q) == trim(x));
    let d = lemma_trim_is_stretch(x);
    lemma_find_char_result(trim(x), ':', 0);
    if find_char_from(trim(x), ':', 0) >= 0 {
        let p = find_char_from(trim(x), ':', 0);
        assert(trim(x)[p] == x[d + p]);
    }
    assert(query_target(x) == trim(x));
    assert(trim(q).len() > 0);
}

/// A picker lists at most 40 entries; go-to-line lists none, and a blank
/// query lists the first 40 entries as they are.
pub proof fn lemma_listing_is_capped(kind: PickerKind, raw: Seq<ItemView>, query: Seq<char>)
    ensures
        listed_for(kind, raw, query).len() <= 40,
        kind == PickerKind::GoToLine ==> listed_for(kind, raw, query).len() == 0,
        kind != PickerKind::GoToLine && trim(query).len() == 0 ==> listed_for(kind, raw, query) == if raw.len()
            <= 40 {
            raw
        } else {
            raw.take(40)
        },
{
}

} // verus!
