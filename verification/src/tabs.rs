//! The editor's open tabs: which files are open, which tab is active, and
//! what opening, editing, switching and closing do to them, with the
//! window title that follows from them.

use crate::paths::{
    display_name, is_same_or_descendant, moved_path, path_after_move, path_has_prefix, path_strip_prefix,
    path_suffix, paths_equal, same_path, shown_name,
};
use crate::text::{chars_of, push_all, string_of};
use vstd::prelude::*;

verus! {

/// A tab that shows the changes of one file.
#[derive(Clone, Debug)]
pub struct DiffTabInfo {
    pub path: String,
    /// The path as shown: below the workspace folder when it lies there.
    pub rel: String,
    pub staged: bool,
}

/// One open tab, apart from its editor.
#[derive(Clone, Debug)]
pub struct TabInfo {
    pub path: Option<String>,
    pub dirty: bool,
    pub untitled: bool,
    /// A preview tab is replaced by the next file opened, until it is
    /// edited or chosen.
    pub preview: bool,
    pub is_settings: bool,
    pub diff: Option<DiffTabInfo>,
}

/// The value of a tab.
pub struct TabView {
    pub path: Option<Seq<char>>,
    pub dirty: bool,
    pub untitled: bool,
    pub preview: bool,
    pub is_settings: bool,
    /// The file, whether the staged changes show, and the path as shown.
    pub diff: Option<(Seq<char>, bool, Seq<char>)>,
}

/// The value of a tab.
pub open spec fn tab_view(t: TabInfo) -> TabView {
    TabView {
        path: match t.path {
            Some(p) => Some(p@),
            None => None,
        },
        dirty: t.dirty,
        untitled: t.untitled,
        preview: t.preview,
        is_settings: t.is_settings,
        diff: match t.diff {
            Some(d) => Some((d.path@, d.staged, d.rel@)),
            None => None,
        },
    }
}

/// The values of a sequence of tabs.
pub open spec fn tabs_view(s: Seq<TabInfo>) -> Seq<TabView> {
    s.map_values(|t: TabInfo| tab_view(t))
}

/// The open tabs and the index of the active one.
#[derive(Debug)]
pub struct EditorTabs {
    pub tabs: Vec<TabInfo>,
    pub active: usize,
}

/// What opening a file did.
#[derive(Clone, Copy, Debug, PartialEq, Eq, Structural)]
pub enum OpenOutcome {
    /// The file was open already, in this tab, which is now active.
    Focused(usize),
    /// The file took the place of the clean preview tab at this index.
    Replaced(usize),
    /// The file opened in a new tab at this index.
    Added(usize),
}

/// The first tab, from `i` on, that shows the file `p`.
pub open spec fn tab_index_from(tabs: Seq<TabView>, p: Seq<char>, i: int) -> Option<int>
    decreases tabs.len() - i,
{
    if i < 0 || i >= tabs.len() {
        None
    } else if tabs[i].path matches Some(q) && same_path(q, p) {
        Some(i)
    } else {
        tab_index_from(tabs, p, i + 1)
    }
}

proof fn lemma_tab_index_bound(tabs: Seq<TabView>, p: Seq<char>, i: int)
    requires
        tab_index_from(tabs, p, i) is Some,
    ensures
        0 <= i <= tab_index_from(tabs, p, i)->0 < tabs.len(),
        tabs[tab_index_from(tabs, p, i)->0].path matches Some(q) && same_path(q, p),
    decreases tabs.len() - i,
{
    if 0 <= i < tabs.len() && !(tabs[i].path matches Some(q) && same_path(q, p)) {
        lemma_tab_index_bound(tabs, p, i + 1);
    }
}

/// The tab that becomes active when the next one is chosen.
pub open spec fn next_index(active: int, len: int) -> int {
    (active + 1) % len
}

/// The tab that becomes active when the previous one is chosen.
pub open spec fn prev_index(active: int, len: int) -> int {
    (active + len - 1) % len
}

/// The active editor tab after the tab at `index` of `len` tabs closed.
pub open spec fn active_after_close(len: int, active: int, index: int) -> int {
    if len == 1 {
        0
    } else {
        let a = if index <= active && active > 0 { active - 1 } else { active };
        if a >= len - 1 { len - 2 } else { a }
    }
}

/// Where the tab at `j` stands once the tab at `index` is gone.
pub open spec fn shifted(j: int, index: int) -> int {
    if j < index { j } else { j - 1 }
}

/// The tabs after a file opened at `path`: its tab made active and no
/// longer a preview when it was open; otherwise the clean active preview
/// tab turned into it, or a new preview tab for it appended and made
/// active.
pub open spec fn opened(tabs: Seq<TabView>, active: int, path: Seq<char>) -> (Seq<TabView>, int) {
    match tab_index_from(tabs, path, 0) {
        Some(k) => (tabs.update(k, TabView { preview: false, ..tabs[k] }), k),
        None => if 0 <= active < tabs.len() && tabs[active].preview && !tabs[active].dirty {
            (
                tabs.update(
                    active,
                    TabView {
                        path: Some(path),
                        dirty: false,
                        untitled: false,
                        preview: true,
                        is_settings: false,
                        ..tabs[active]
                    },
                ),
                active,
            )
        } else {
            (
                tabs.push(
                    TabView {
                        path: Some(path),
                        dirty: false,
                        untitled: false,
                        preview: true,
                        is_settings: false,
                        diff: None,
                    },
                ),
                tabs.len() as int,
            )
        },
    }
}

/// The window title: the active tab's file, with a mark when it has
/// unsaved changes, then the workspace folder (`root`); or the folder, or
/// the application's name.
pub open spec fn title_text(tabs: Seq<TabView>, active: int, root: Option<Seq<char>>) -> Seq<char> {
    let dash = " — "@;
    if 0 <= active < tabs.len() {
        let t = tabs[active];
        let star = if t.dirty { " ●"@ } else { ""@ };
        if t.is_settings {
            match root {
                Some(r) => "Settings — "@ + r,
                None => "Settings — ezicode"@,
            }
        } else if t.path is Some {
            let name = shown_name(t.path->0);
            match root {
                Some(r) => name + star + dash + r,
                None => name + star,
            }
        } else {
            match t.diff {
                Some((dp, staged, _)) => {
                    let name = shown_name(dp);
                    let label = if staged { " (staged diff)"@ } else { " (diff)"@ };
                    match root {
                        Some(r) => name + label + dash + r,
                        None => name + label,
                    }
                },
                None => if t.untitled {
                    match root {
                        Some(r) => "untitled"@ + star + dash + r,
                        None => "untitled"@ + star + " — ezicode"@,
                    }
                } else {
                    match root {
                        Some(r) => r,
                        None => "ezicode"@,
                    }
                },
            }
        }
    } else {
        match root {
            Some(r) => r,
            None => "ezicode"@,
        }
    }
}

/// A copy of a tab.
fn copy_tab(t: &TabInfo) -> (r: TabInfo)
    ensures
        tab_view(r) == tab_view(*t),
{
    TabInfo {
        path: match &t.path {
            Some(p) => Some(p.clone()),
            None => None,
        },
        dirty: t.dirty,
        untitled: t.untitled,
        preview: t.preview,
        is_settings: t.is_settings,
        diff: match &t.diff {
            Some(d) => Some(DiffTabInfo { path: d.path.clone(), rel: d.rel.clone(), staged: d.staged }),
            None => None,
        },
    }
}

/// Whether `p` is the path `deleted` or lies below it.
pub open spec fn within(deleted: Seq<char>, p: Seq<char>) -> bool {
    same_path(p, deleted) || path_has_prefix(p, deleted)
}

/// The file a tab's changes are shown for.
pub open spec fn diff_path(t: TabView) -> Option<Seq<char>> {
    match t.diff {
        Some((p, _, _)) => Some(p),
        None => None,
    }
}

/// A tab stays open after `deleted` is deleted when neither its file nor
/// the file of its changes was there.
pub open spec fn survives(deleted: Seq<char>, t: TabView) -> bool {
    &&& (t.path matches Some(p) ==> !within(deleted, p))
    &&& (diff_path(t) matches Some(p) ==> !within(deleted, p))
}

/// The test [`survives`] as a predicate on tabs.
pub open spec fn survivor_test(deleted: Seq<char>) -> spec_fn(TabView) -> bool {
    |t: TabView| survives(deleted, t)
}

/// The first tab, from `i` on, that shows the changes of the file `p`.
pub open spec fn diff_index_from(tabs: Seq<TabView>, p: Seq<char>, i: int) -> Option<int>
    decreases tabs.len() - i,
{
    if i < 0 || i >= tabs.len() {
        None
    } else if diff_path(tabs[i]) matches Some(q) && same_path(q, p) {
        Some(i)
    } else {
        diff_index_from(tabs, p, i + 1)
    }
}

proof fn lemma_diff_index_bound(tabs: Seq<TabView>, p: Seq<char>, i: int)
    requires
        diff_index_from(tabs, p, i) is Some,
    ensures
        0 <= i <= diff_index_from(tabs, p, i)->0 < tabs.len(),
    decreases tabs.len() - i,
{
    if 0 <= i < tabs.len() && !(diff_path(tabs[i]) matches Some(q) && same_path(q, p)) {
        lemma_diff_index_bound(tabs, p, i + 1);
    }
}

/// The active tab once the tabs `kept` are what is left of `tabs`: the tab
/// of the file that was active, else the tab of the changes that were
/// active, else the same index, kept within the tabs.
pub open spec fn active_after_delete(tabs: Seq<TabView>, active: int, kept: Seq<TabView>) -> int {
    let by_path = if 0 <= active < tabs.len() && tabs[active].path is Some {
        tab_index_from(kept, tabs[active].path->0, 0)
    } else {
        None
    };
    let by_diff = if 0 <= active < tabs.len() && diff_path(tabs[active]) is Some {
        diff_index_from(kept, diff_path(tabs[active])->0, 0)
    } else {
        None
    };
    match by_path {
        Some(k) => k,
        None => match by_diff {
            Some(k) => k,
            None => if kept.len() == 0 {
                0
            } else if active < kept.len() - 1 {
                active
            } else {
                kept.len() - 1
            },
        },
    }
}

/// A path after a move: where it went, or itself.
pub open spec fn moved_or_same(p: Seq<char>, source: Seq<char>, destination: Seq<char>) -> Seq<char> {
    match moved_path(p, source, destination) {
        Some(u) => u,
        None => p,
    }
}

/// A tab after `source` moved to `destination`: its file and the file of
/// its changes follow the move, and a moved file of changes is shown
/// below the workspace folder `root` again.
pub open spec fn moved_tab(t: TabView, source: Seq<char>, destination: Seq<char>, root: Option<Seq<char>>) -> TabView {
    TabView {
        path: match t.path {
            Some(p) => Some(moved_or_same(p, source, destination)),
            None => None,
        },
        diff: match t.diff {
            Some((dp, staged, rel)) => match moved_path(dp, source, destination) {
                Some(u) => Some(
                    (
                        u,
                        staged,
                        match root {
                            Some(r) => if path_has_prefix(u, r) {
                                path_suffix(u, r)
                            } else {
                                u
                            },
                            None => rel,
                        },
                    ),
                ),
                None => Some((dp, staged, rel)),
            },
            None => None,
        },
        ..t
    }
}

fn tab_survives(t: &TabInfo, deleted: &str) -> (r: bool)
    ensures
        r == survives(deleted@, tab_view(*t)),
{
    let a = match &t.path {
        Some(p) => !is_same_or_descendant(deleted, p.as_str()),
        None => true,
    };
    let b = match &t.diff {
        Some(d) => !is_same_or_descendant(deleted, d.path.as_str()),
        None => true,
    };
    a && b
}

fn moved_tab_info(t: &TabInfo, source: &str, destination: &str, root: Option<&str>) -> (r: TabInfo)
    ensures
        tab_view(r) == moved_tab(tab_view(*t), source@, destination@, match root {
            Some(x) => Some(x@),
            None => None,
        }),
{
    let path = match &t.path {
        Some(p) => match path_after_move(p.as_str(), source, destination) {
            Some(u) => Some(u),
            None => Some(p.clone()),
        },
        None => None,
    };
    let diff = match &t.diff {
        Some(d) => match path_after_move(d.path.as_str(), source, destination) {
            Some(u) => {
                let rel = match root {
                    Some(r) => match path_strip_prefix(u.as_str(), r) {
                        Some(x) => x,
                        None => u.clone(),
                    },
                    None => d.rel.clone(),
                };
                Some(DiffTabInfo { path: u, rel, staged: d.staged })
            },
            None => Some(DiffTabInfo { path: d.path.clone(), rel: d.rel.clone(), staged: d.staged }),
        },
        None => None,
    };
    TabInfo { path, dirty: t.dirty, untitled: t.untitled, preview: t.preview, is_settings: t.is_settings, diff }
}

/// The first tab, from `i` on, that shows the changes of the file `p`,
/// staged or not as `staged` says.
pub open spec fn diff_tab_from(tabs: Seq<TabView>, p: Seq<char>, staged: bool, i: int) -> Option<int>
    decreases tabs.len() - i,
{
    if i < 0 || i >= tabs.len() {
        None
    } else if tabs[i].diff matches Some((q, st, _)) && same_path(q, p) && st == staged {
        Some(i)
    } else {
        diff_tab_from(tabs, p, staged, i + 1)
    }
}

/// The first settings tab from `i` on.
pub open spec fn settings_tab_from(tabs: Seq<TabView>, i: int) -> Option<int>
    decreases tabs.len() - i,
{
    if i < 0 || i >= tabs.len() {
        None
    } else if tabs[i].is_settings {
        Some(i)
    } else {
        settings_tab_from(tabs, i + 1)
    }
}

/// What saving the active tab does.
#[derive(Clone, Debug)]
pub enum SaveAction {
    /// No tab is open.
    NoFile,
    /// The settings page is not saved as a file.
    Nothing,
    /// The tab has no file yet: one is to be chosen.
    SaveAs,
    /// The text is written to this file.
    Write(String),
}

impl View for EditorTabs {
    type V = (Seq<TabView>, int);

    open spec fn view(&self) -> (Seq<TabView>, int) {
        (tabs_view(self.tabs@), self.active as int)
    }
}

impl EditorTabs {
    /// The active index names a tab, or there are no tabs and it is zero.
    pub open spec fn wf(&self) -> bool {
        self.active < self.tabs@.len() || (self.tabs@.len() == 0 && self.active == 0)
    }

    /// No tabs open.
    pub fn new() -> (r: Self)
        ensures
            r@.0.len() == 0,
            r.active == 0,
            r.wf(),
    {
        EditorTabs { tabs: Vec::new(), active: 0 }
    }

    /// The welcome page shows when no tab is open.
    pub fn welcome_visible(&self) -> (r: bool)
        ensures
            r == (self.tabs@.len() == 0),
    {
        self.tabs.len() == 0
    }

    /// Whether the active tab has unsaved changes.
    pub fn is_dirty(&self) -> (r: bool)
        ensures
            r == (self.active < self.tabs@.len() && self.tabs@[self.active as int].dirty),
    {
        if self.active < self.tabs.len() {
            self.tabs[self.active].dirty
        } else {
            false
        }
    }

    /// The file of the active tab.
    pub fn active_path(&self) -> (r: Option<&String>)
        ensures
            match r {
                Some(p) => self.active < self.tabs@.len() && self.tabs@[self.active as int].path == Some(*p),
                None => !(self.active < self.tabs@.len()) || self.tabs@[self.active as int].path is None,
            },
    {
        if self.active < self.tabs.len() {
            match &self.tabs[self.active].path {
                Some(p) => Some(p),
                None => None,
            }
        } else {
            None
        }
    }

    /// The index of the tab that shows the file `path`.
    pub fn position_of(&self, path: &str) -> (r: Option<usize>)
        ensures
            match r {
                Some(k) => tab_index_from(self@.0, path@, 0) == Some(k as int),
                None => tab_index_from(self@.0, path@, 0) is None,
            },
    {
        let ghost tv = self@.0;
        let mut i: usize = 0;
        while i < self.tabs.len()
            invariant
                tv == tabs_view(self.tabs@),
                tv.len() == self.tabs@.len(),
                0 <= i <= self.tabs@.len(),
                tab_index_from(tv, path@, 0) == tab_index_from(tv, path@, i as int),
            decreases self.tabs@.len() - i,
        {
            assert(tv[i as int] == tab_view(self.tabs@[i as int]));
            let hit = match &self.tabs[i].path {
                Some(q) => paths_equal(q.as_str(), path),
                None => false,
            };
            if hit {
                return Some(i);
            }
            i = i + 1;
        }
        None
    }

    /// Makes the tab at `k` active and keeps it open.
    fn focus(&mut self, k: usize)
        requires
            k < old(self).tabs@.len(),
        ensures
            final(self)@ == (old(self)@.0.update(k as int, TabView { preview: false, ..old(self)@.0[k as int] }), k as int),
            final(self).tabs@.len() == old(self).tabs@.len(),
            final(self).active == k,
    {
        self.active = k;
        let ghost before = self.tabs@;
        let mut t = copy_tab(&self.tabs[k]);
        assert(tab_view(t) == tab_view(before[k as int]));
        t.preview = false;
        self.tabs.set(k, t);
        assert(tabs_view(self.tabs@) =~= tabs_view(before).update(k as int, tab_view(t)));
    }

    /// Opening a file that is open already makes its tab active; says
    /// whether it was open.
    pub fn focus_open(&mut self, path: &str) -> (r: bool)
        ensures
            r == (tab_index_from(old(self)@.0, path@, 0) is Some),
            r ==> final(self)@ == opened(old(self)@.0, old(self).active as int, path@),
            !r ==> final(self)@ == old(self)@,
    {
        match self.position_of(path) {
            Some(k) => {
                proof {
                    lemma_tab_index_bound(self@.0, path@, 0);
                }
                self.focus(k);
                true
            },
            None => false,
        }
    }

    /// Takes in a file that was read: focuses its tab when it is open,
    /// otherwise turns the clean active preview tab into it, or appends a
    /// preview tab for it and makes that active.
    pub fn open_file(&mut self, path: &str) -> (r: OpenOutcome)
        ensures
            final(self)@ == opened(old(self)@.0, old(self).active as int, path@),
            match r {
                OpenOutcome::Focused(k) => tab_index_from(old(self)@.0, path@, 0) == Some(k as int),
                OpenOutcome::Replaced(k) => tab_index_from(old(self)@.0, path@, 0) is None && k == old(self).active,
                OpenOutcome::Added(k) => tab_index_from(old(self)@.0, path@, 0) is None && k == old(self).tabs@.len(),
            },
            final(self).active < final(self).tabs@.len(),
    {
        if let Some(k) = self.position_of(path) {
            proof {
                lemma_tab_index_bound(self@.0, path@, 0);
            }
            self.focus(k);
            return OpenOutcome::Focused(k);
        }
        let ghost before = self.tabs@;
        let a = self.active;
        if a < self.tabs.len() && self.tabs[a].preview && !self.tabs[a].dirty {
            let mut t = copy_tab(&self.tabs[a]);
            assert(tab_view(t) == tab_view(before[a as int]));
            t.path = Some(path.to_string());
            t.dirty = false;
            t.untitled = false;
            t.preview = true;
            t.is_settings = false;
            self.tabs.set(a, t);
            assert(tabs_view(self.tabs@) =~= tabs_view(before).update(a as int, tab_view(t)));
            return OpenOutcome::Replaced(a);
        }
        let t = TabInfo {
            path: Some(path.to_string()),
            dirty: false,
            untitled: false,
            preview: true,
            is_settings: false,
            diff: None,
        };
        self.tabs.push(t);
        assert(tabs_view(self.tabs@) =~= tabs_view(before).push(tab_view(t)));
        self.active = self.tabs.len() - 1;
        OpenOutcome::Added(self.active)
    }

    /// An edit in the active tab: it becomes dirty and stops being a
    /// preview. Says whether anything shown changed.
    pub fn mark_edited(&mut self) -> (r: bool)
        ensures
            final(self).active == old(self).active,
            old(self).active < old(self).tabs@.len() ==> {
                let t = old(self)@.0[old(self).active as int];
                &&& final(self)@.0 == old(self)@.0.update(
                    old(self).active as int,
                    TabView { dirty: true, preview: false, ..t },
                )
                &&& r == (!t.dirty || t.preview)
            },
            !(old(self).active < old(self).tabs@.len()) ==> final(self)@ == old(self)@ && !r,
    {
        let a = self.active;
        if a >= self.tabs.len() {
            return false;
        }
        let ghost before = self.tabs@;
        let mut t = copy_tab(&self.tabs[a]);
        assert(tab_view(t) == tab_view(before[a as int]));
        let changed = !t.dirty || t.preview;
        t.dirty = true;
        t.preview = false;
        self.tabs.set(a, t);
        assert(tabs_view(self.tabs@) =~= tabs_view(before).update(a as int, tab_view(t)));
        changed
    }

    /// Makes the tab at `index` active, when there is one.
    pub fn switch_tab(&mut self, index: usize)
        ensures
            final(self).tabs == old(self).tabs,
            final(self).active == if index < old(self).tabs@.len() { index } else { old(self).active },
    {
        if index < self.tabs.len() {
            self.active = index;
        }
    }

    /// Chooses the tab at `index`, when there is one: it becomes active and
    /// stops being a preview. Says whether it was there.
    pub fn switch_tab_to(&mut self, index: usize) -> (r: bool)
        ensures
            r == (index < old(self).tabs@.len()),
            r ==> final(self)@ == (old(self)@.0.update(index as int, TabView { preview: false, ..old(self)@.0[index as int] }), index as int),
            !r ==> final(self)@ == old(self)@,
    {
        if index < self.tabs.len() {
            self.focus(index);
            true
        } else {
            false
        }
    }

    /// Closes the tab at `index` (any index when it is the only tab); the
    /// tab before it, or the first, takes over when it was active.
    pub fn close_tab(&mut self, index: usize)
        requires
            old(self).tabs@.len() == 1 || index < old(self).tabs@.len(),
        ensures
            old(self).tabs@.len() == 1 ==> final(self)@.0.len() == 0,
            old(self).tabs@.len() != 1 ==> final(self)@.0 == old(self)@.0.remove(index as int),
            final(self).active == active_after_close(old(self).tabs@.len() as int, old(self).active as int, index as int),
    {
        let ghost before = self.tabs@;
        if self.tabs.len() == 1 {
            self.tabs.remove(0);
            self.active = 0;
            return;
        }
        self.tabs.remove(index);
        assert(tabs_view(self.tabs@) =~= tabs_view(before).remove(index as int));
        if index <= self.active && self.active > 0 {
            self.active = self.active - 1;
        }
        if self.active >= self.tabs.len() {
            self.active = if self.tabs.len() > 0 { self.tabs.len() - 1 } else { 0 };
        }
    }

    /// Closes the tab at `index` when there is one; says whether it did.
    pub fn close_tab_at_index(&mut self, index: usize) -> (r: bool)
        ensures
            r == (index < old(self).tabs@.len()),
            r && old(self).tabs@.len() == 1 ==> final(self)@.0.len() == 0,
            r && old(self).tabs@.len() != 1 ==> final(self)@.0 == old(self)@.0.remove(index as int),
            r ==> final(self).active == active_after_close(old(self).tabs@.len() as int, old(self).active as int, index as int),
            !r ==> final(self)@ == old(self)@,
    {
        if index < self.tabs.len() {
            self.close_tab(index);
            true
        } else {
            false
        }
    }

    /// With more than one tab, makes the next one active, wrapping round.
    pub fn next_tab(&mut self)
        requires
            old(self).wf(),
        ensures
            final(self).tabs == old(self).tabs,
            final(self).active == if old(self).tabs@.len() > 1 {
                next_index(old(self).active as int, old(self).tabs@.len() as int)
            } else {
                old(self).active as int
            },
    {
        let n = self.tabs.len();
        if n > 1 {
            let a = self.active;
            self.active = if a + 1 < n { a + 1 } else { 0 };
            assert(self.active == next_index(a as int, n as int)) by {
                if a + 1 < n {
                    assert((a + 1) % (n as int) == a + 1) by (nonlinear_arith)
                        requires a + 1 < n;
                } else {
                    assert((a + 1) % (n as int) == 0) by (nonlinear_arith)
                        requires a + 1 == n, n > 1;
                }
            }
        }
    }

    /// With more than one tab, makes the previous one active, wrapping round.
    pub fn prev_tab(&mut self)
        requires
            old(self).wf(),
        ensures
            final(self).tabs == old(self).tabs,
            final(self).active == if old(self).tabs@.len() > 1 {
                prev_index(old(self).active as int, old(self).tabs@.len() as int)
            } else {
                old(self).active as int
            },
    {
        let n = self.tabs.len();
        if n > 1 {
            let a = self.active;
            self.active = if a > 0 { a - 1 } else { n - 1 };
            assert(self.active == prev_index(a as int, n as int)) by {
                if a > 0 {
                    assert((a + n - 1) % (n as int) == a - 1) by (nonlinear_arith)
                        requires 0 < a < n;
                } else {
                    assert((n - 1) % (n as int) == n - 1) by (nonlinear_arith)
                        requires 1 < n;
                }
            }
        }
    }

    /// The index of the tab that shows the changes of the file `path`.
    pub fn diff_position_of(&self, path: &str) -> (r: Option<usize>)
        ensures
            match r {
                Some(k) => diff_index_from(self@.0, path@, 0) == Some(k as int),
                None => diff_index_from(self@.0, path@, 0) is None,
            },
    {
        let ghost tv = self@.0;
        let mut i: usize = 0;
        while i < self.tabs.len()
            invariant
                tv == tabs_view(self.tabs@),
                tv.len() == self.tabs@.len(),
                0 <= i <= self.tabs@.len(),
                diff_index_from(tv, path@, 0) == diff_index_from(tv, path@, i as int),
            decreases self.tabs@.len() - i,
        {
            assert(tv[i as int] == tab_view(self.tabs@[i as int]));
            let hit = match &self.tabs[i].diff {
                Some(d) => paths_equal(d.path.as_str(), path),
                None => false,
            };
            if hit {
                return Some(i);
            }
            i = i + 1;
        }
        None
    }

    /// Closes the tabs of the files at or below `deleted`, and of their
    /// changes; the tab that was active stays active when it is still open.
    pub fn forget_deleted(&mut self, deleted: &str)
        ensures
            final(self)@.0 == old(self)@.0.filter(survivor_test(deleted@)),
            final(self).active == active_after_delete(old(self)@.0, old(self).active as int, final(self)@.0),
    {
        let ghost ov = self@.0;
        let ghost pred = survivor_test(deleted@);
        let mut old_tabs: Vec<TabInfo> = Vec::new();
        std::mem::swap(&mut old_tabs, &mut self.tabs);
        assert(tabs_view(old_tabs@) == ov);
        let a = self.active;
        let (active_path, active_diff) = if a < old_tabs.len() {
            assert(ov[a as int] == tab_view(old_tabs@[a as int]));
            let p = match &old_tabs[a].path {
                Some(p) => Some(p.clone()),
                None => None,
            };
            let d = match &old_tabs[a].diff {
                Some(d) => Some(d.path.clone()),
                None => None,
            };
            (p, d)
        } else {
            (None, None)
        };
        let mut kept: Vec<TabInfo> = Vec::new();
        let mut i: usize = 0;
        proof {
            reveal(Seq::filter);
            assert(ov.take(0) =~= Seq::<TabView>::empty());
            assert(tabs_view(kept@) =~= Seq::<TabView>::empty());
        }
        while i < old_tabs.len()
            invariant
                ov == tabs_view(old_tabs@),
                ov.len() == old_tabs@.len(),
                pred == survivor_test(deleted@),
                0 <= i <= old_tabs@.len(),
                tabs_view(kept@) == ov.take(i as int).filter(pred),
            decreases old_tabs@.len() - i,
        {
            assert(ov[i as int] == tab_view(old_tabs@[i as int]));
            proof {
                reveal(Seq::filter);
                assert(ov.take(i + 1).drop_last() =~= ov.take(i as int));
                assert(ov.take(i + 1).last() == ov[i as int]);
            }
            if tab_survives(&old_tabs[i], deleted) {
                let t = copy_tab(&old_tabs[i]);
                let ghost before = kept@;
                kept.push(t);
                assert(tabs_view(kept@) =~= tabs_view(before).push(tab_view(t)));
            }
            i = i + 1;
        }
        assert(ov.take(i as int) =~= ov);
        self.tabs = kept;
        let by_path = match &active_path {
            Some(p) => self.position_of(p.as_str()),
            None => None,
        };
        let by_diff = match &active_diff {
            Some(p) => self.diff_position_of(p.as_str()),
            None => None,
        };
        let n = self.tabs.len();
        self.active = match by_path {
            Some(k) => k,
            None => match by_diff {
                Some(k) => k,
                None => if n == 0 {
                    0
                } else if a < n - 1 {
                    a
                } else {
                    n - 1
                },
            },
        };
    }

    /// Follows a move of `source` to `destination` in every tab; `root` is
    /// the workspace folder, when one is open.
    pub fn follow_move(&mut self, source: &str, destination: &str, root: Option<&str>)
        ensures
            final(self).active == old(self).active,
            final(self)@.0 == old(self)@.0.map_values(|t: TabView| moved_tab(t, source@, destination@, match root {
                Some(x) => Some(x@),
                None => None,
            })),
    {
        let ghost ov = self@.0;
        let ghost rv: Option<Seq<char>> = match root {
            Some(x) => Some(x@),
            None => None,
        };
        let mut i: usize = 0;
        while i < self.tabs.len()
            invariant
                self.active == old(self).active,
                ov == tabs_view(old(self).tabs@),
                self.tabs@.len() == ov.len(),
                0 <= i <= self.tabs@.len(),
                rv == match root {
                    Some(x) => Some(x@),
                    None => None::<Seq<char>>,
                },
                forall|j: int| 0 <= j < i ==> tab_view(#[trigger] self.tabs@[j]) == moved_tab(ov[j], source@, destination@, rv),
                forall|j: int| i <= j < self.tabs@.len() ==> tab_view(#[trigger] self.tabs@[j]) == ov[j],
            decreases self.tabs@.len() - i,
        {
            let t = moved_tab_info(&self.tabs[i], source, destination, root);
            self.tabs.set(i, t);
            i = i + 1;
        }
        assert(tabs_view(self.tabs@) =~= ov.map_values(|t: TabView| moved_tab(t, source@, destination@, rv)));
    }

    /// Opens a new untitled tab and makes it active; gives the status line.
    pub fn new_untitled(&mut self) -> (r: &'static str)
        requires
            old(self).tabs@.len() < usize::MAX,
        ensures
            final(self)@ == (
                old(self)@.0.push(
                    TabView {
                        path: None,
                        dirty: false,
                        untitled: true,
                        preview: false,
                        is_settings: false,
                        diff: None,
                    },
                ),
                old(self).tabs@.len() as int,
            ),
            r@ == "Untitled file — Ctrl+S to save"@,
    {
        let t = TabInfo { path: None, dirty: false, untitled: true, preview: false, is_settings: false, diff: None };
        let ghost before = self.tabs@;
        self.tabs.push(t);
        assert(tabs_view(self.tabs@) =~= tabs_view(before).push(tab_view(t)));
        self.active = self.tabs.len() - 1;
        "Untitled file — Ctrl+S to save"
    }

    /// Shows the settings page: its tab when one is open, else a new one;
    /// gives the status line.
    pub fn open_settings(&mut self) -> (r: &'static str)
        requires
            old(self).tabs@.len() < usize::MAX,
        ensures
            settings_tab_from(old(self)@.0, 0) matches Some(k) ==> final(self)@ == (old(self)@.0, k),
            settings_tab_from(old(self)@.0, 0) is None ==> final(self)@ == (
                old(self)@.0.push(
                    TabView {
                        path: None,
                        dirty: false,
                        untitled: false,
                        preview: false,
                        is_settings: true,
                        diff: None,
                    },
                ),
                old(self).tabs@.len() as int,
            ),
            r@ == "Settings"@,
    {
        let ghost tv = self@.0;
        let mut i: usize = 0;
        while i < self.tabs.len()
            invariant
                tv == tabs_view(self.tabs@),
                tv.len() == self.tabs@.len(),
                self.tabs == old(self).tabs,
                self.active == old(self).active,
                0 <= i <= self.tabs@.len(),
                settings_tab_from(tv, 0) == settings_tab_from(tv, i as int),
            decreases self.tabs@.len() - i,
        {
            assert(tv[i as int] == tab_view(self.tabs@[i as int]));
            if self.tabs[i].is_settings {
                self.active = i;
                return "Settings";
            }
            i = i + 1;
        }
        let t = TabInfo { path: None, dirty: false, untitled: false, preview: false, is_settings: true, diff: None };
        let ghost before = self.tabs@;
        self.tabs.push(t);
        assert(tabs_view(self.tabs@) =~= tabs_view(before).push(tab_view(t)));
        self.active = self.tabs.len() - 1;
        "Settings"
    }

    /// Shows the changes of the file `path` (staged or not): their tab when
    /// one is open, which gives `None`; else a new tab, and the status line.
    pub fn open_diff(&mut self, path: &str, rel: &str, staged: bool) -> (r: Option<String>)
        requires
            old(self).tabs@.len() < usize::MAX,
        ensures
            diff_tab_from(old(self)@.0, path@, staged, 0) matches Some(k) ==> final(self)@ == (old(self)@.0, k)
                && r is None,
            diff_tab_from(old(self)@.0, path@, staged, 0) is None ==> final(self)@ == (
                old(self)@.0.push(
                    TabView {
                        path: None,
                        dirty: false,
                        untitled: false,
                        preview: false,
                        is_settings: false,
                        diff: Some((path@, staged, rel@)),
                    },
                ),
                old(self).tabs@.len() as int,
            ) && (r matches Some(m) && m@ == if staged {
                "Diff (staged): "@ + shown_name(path@)
            } else {
                "Diff: "@ + shown_name(path@)
            }),
    {
        let ghost tv = self@.0;
        let mut i: usize = 0;
        while i < self.tabs.len()
            invariant
                tv == tabs_view(self.tabs@),
                tv.len() == self.tabs@.len(),
                self.tabs == old(self).tabs,
                self.active == old(self).active,
                0 <= i <= self.tabs@.len(),
                diff_tab_from(tv, path@, staged, 0) == diff_tab_from(tv, path@, staged, i as int),
            decreases self.tabs@.len() - i,
        {
            assert(tv[i as int] == tab_view(self.tabs@[i as int]));
            let hit = match &self.tabs[i].diff {
                Some(d) => paths_equal(d.path.as_str(), path) && d.staged == staged,
                None => false,
            };
            if hit {
                self.active = i;
                return None;
            }
            i = i + 1;
        }
        let t = TabInfo {
            path: None,
            dirty: false,
            untitled: false,
            preview: false,
            is_settings: false,
            diff: Some(DiffTabInfo { path: path.to_string(), rel: rel.to_string(), staged }),
        };
        let ghost before = self.tabs@;
        self.tabs.push(t);
        assert(tabs_view(self.tabs@) =~= tabs_view(before).push(tab_view(t)));
        self.active = self.tabs.len() - 1;
        let mut cs = if staged { chars_of("Diff (staged): ") } else { chars_of("Diff: ") };
        let name = display_name(path);
        push_all(&mut cs, chars_of(name.as_str()).as_slice());
        Some(string_of(cs.as_slice()))
    }

    /// What saving the active tab does.
    pub fn save_action(&self) -> (r: SaveAction)
        ensures
            !(self.active < self.tabs@.len()) ==> r is NoFile,
            self.active < self.tabs@.len() ==> {
                let t = self@.0[self.active as int];
                if t.is_settings {
                    r is Nothing
                } else {
                    match t.path {
                        Some(p) => r matches SaveAction::Write(q) && q@ == p,
                        None => r is SaveAs,
                    }
                }
            },
    {
        if self.active >= self.tabs.len() {
            return SaveAction::NoFile;
        }
        let t = &self.tabs[self.active];
        assert(self@.0[self.active as int] == tab_view(*t));
        if t.is_settings {
            return SaveAction::Nothing;
        }
        match &t.path {
            Some(p) => SaveAction::Write(p.clone()),
            None => SaveAction::SaveAs,
        }
    }

    /// The file an automatic save writes the tab at `index` to: one with
    /// unsaved changes to a file of its own, not the settings page.
    pub fn quiet_save_path(&self, index: usize) -> (r: Option<String>)
        ensures
            match r {
                Some(p) => index < self.tabs@.len() && !self@.0[index as int].is_settings && self@.0[index as int].dirty
                    && self@.0[index as int].path == Some(p@),
                None => !(index < self.tabs@.len()) || self@.0[index as int].is_settings || !self@.0[index as int].dirty
                    || self@.0[index as int].path is None,
            },
    {
        if index >= self.tabs.len() {
            return None;
        }
        let t = &self.tabs[index];
        assert(self@.0[index as int] == tab_view(*t));
        if t.is_settings || !t.dirty {
            return None;
        }
        match &t.path {
            Some(p) => Some(p.clone()),
            None => None,
        }
    }

    /// The tab at `index` holds what is on disk now.
    pub fn mark_clean(&mut self, index: usize)
        ensures
            final(self).active == old(self).active,
            index < old(self).tabs@.len() ==> final(self)@.0 == old(self)@.0.update(
                index as int,
                TabView { dirty: false, ..old(self)@.0[index as int] },
            ),
            index >= old(self).tabs@.len() ==> final(self)@ == old(self)@,
    {
        if index < self.tabs.len() {
            let ghost before = self.tabs@;
            let mut t = copy_tab(&self.tabs[index]);
            t.dirty = false;
            self.tabs.set(index, t);
            assert(tabs_view(self.tabs@) =~= tabs_view(before).update(index as int, tab_view(t)));
        }
    }

    /// The tab at `index` was saved under the new file `path`.
    pub fn saved_as(&mut self, index: usize, path: &str)
        ensures
            final(self).active == old(self).active,
            index < old(self).tabs@.len() ==> final(self)@.0 == old(self)@.0.update(
                index as int,
                TabView { path: Some(path@), untitled: false, dirty: false, is_settings: false, ..old(self)@.0[index as int] },
            ),
            index >= old(self).tabs@.len() ==> final(self)@ == old(self)@,
    {
        if index < self.tabs.len() {
            let ghost before = self.tabs@;
            let mut t = copy_tab(&self.tabs[index]);
            t.path = Some(path.to_string());
            t.untitled = false;
            t.dirty = false;
            t.is_settings = false;
            self.tabs.set(index, t);
            assert(tabs_view(self.tabs@) =~= tabs_view(before).update(index as int, tab_view(t)));
        }
    }

    /// The window title, given the name the workspace folder is shown by
    /// when a folder is open.
    pub fn title(&self, root: Option<&str>) -> (r: String)
        ensures
            r@ == title_text(self@.0, self.active as int, match root {
                Some(x) => Some(x@),
                None => None,
            }),
    {
        let mut cs: Vec<char> = Vec::new();
        if self.active < self.tabs.len() {
            let t = &self.tabs[self.active];
            assert(self@.0[self.active as int] == tab_view(*t));
            let star = if t.dirty { " ●" } else { "" };
            if t.is_settings {
                match root {
                    Some(r) => {
                        push_all(&mut cs, chars_of("Settings — ").as_slice());
                        push_all(&mut cs, chars_of(r).as_slice());
                    },
                    None => push_all(&mut cs, chars_of("Settings — ezicode").as_slice()),
                }
            } else if let Some(p) = &t.path {
                let name = display_name(p.as_str());
                push_all(&mut cs, chars_of(name.as_str()).as_slice());
                push_all(&mut cs, chars_of(star).as_slice());
                if let Some(r) = root {
                    push_all(&mut cs, chars_of(" — ").as_slice());
                    push_all(&mut cs, chars_of(r).as_slice());
                }
            } else if let Some(d) = &t.diff {
                let name = display_name(d.path.as_str());
                push_all(&mut cs, chars_of(name.as_str()).as_slice());
                let label = if d.staged { " (staged diff)" } else { " (diff)" };
                push_all(&mut cs, chars_of(label).as_slice());
                if let Some(r) = root {
                    push_all(&mut cs, chars_of(" — ").as_slice());
                    push_all(&mut cs, chars_of(r).as_slice());
                }
            } else if t.untitled {
                push_all(&mut cs, chars_of("untitled").as_slice());
                push_all(&mut cs, chars_of(star).as_slice());
                match root {
                    Some(r) => {
                        push_all(&mut cs, chars_of(" — ").as_slice());
                        push_all(&mut cs, chars_of(r).as_slice());
                    },
                    None => push_all(&mut cs, chars_of(" — ezicode").as_slice()),
                }
            } else {
                match root {
                    Some(r) => push_all(&mut cs, chars_of(r).as_slice()),
                    None => push_all(&mut cs, chars_of("ezicode").as_slice()),
                }
            }
        } else {
            match root {
                Some(r) => push_all(&mut cs, chars_of(r).as_slice()),
                None => push_all(&mut cs, chars_of("ezicode").as_slice()),
            }
        }
        string_of(cs.as_slice())
    }
}

/// After a file is opened, the active tab shows that file.
pub proof fn lemma_open_shows_file(tabs: Seq<TabView>, active: int, path: Seq<char>)
    ensures
        0 <= opened(tabs, active, path).1 < opened(tabs, active, path).0.len(),
        opened(tabs, active, path).0[opened(tabs, active, path).1].path matches Some(q) && (q == path || same_path(
            q,
            path,
        )),
{
    if tab_index_from(tabs, path, 0) is Some {
        lemma_tab_index_bound(tabs, path, 0);
    }
}

/// Opening a file that is open already adds no tab; opening another one
/// adds at most one.
pub proof fn lemma_open_adds_at_most_one(tabs: Seq<TabView>, active: int, path: Seq<char>)
    ensures
        tab_index_from(tabs, path, 0) is Some ==> opened(tabs, active, path).0.len() == tabs.len(),
        opened(tabs, active, path).0.len() <= tabs.len() + 1,
{
    if tab_index_from(tabs, path, 0) is Some {
        lemma_tab_index_bound(tabs, path, 0);
    }
}

/// Closing a tab other than the active one keeps the same tab active.
pub proof fn lemma_close_keeps_active_tab(tabs: Seq<TabView>, active: int, index: int)
    requires
        tabs.len() > 1,
        0 <= active < tabs.len(),
        0 <= index < tabs.len(),
        index != active,
    ensures
        active_after_close(tabs.len() as int, active, index) == shifted(active, index),
        tabs.remove(index)[active_after_close(tabs.len() as int, active, index)] == tabs[active],
{
}

/// Closing the active tab hands over to the tab before it; when the first
/// tab was active and closed, the one after it (now first) takes over.
pub proof fn lemma_close_active_tab_hands_over(tabs: Seq<TabView>, active: int)
    requires
        tabs.len() > 1,
        0 <= active < tabs.len(),
    ensures
        active > 0 ==> active_after_close(tabs.len() as int, active, active) == active - 1
            && tabs.remove(active)[active_after_close(tabs.len() as int, active, active)] == tabs[active - 1],
        active == 0 ==> active_after_close(tabs.len() as int, active, active) == 0
            && tabs.remove(active)[active_after_close(tabs.len() as int, active, active)] == tabs[1],
{
}

/// After a close, the active index names one of the remaining tabs, or
/// none remain and it is zero.
pub proof fn lemma_close_keeps_active_in_range(len: int, active: int, index: int)
    requires
        len >= 1,
        0 <= active < len,
        len == 1 || 0 <= index < len,
    ensures
        0 <= active_after_close(len, active, index) < len - 1 || (len == 1 && active_after_close(len, active, index) == 0),
{
}

/// Choosing the next tab and then the previous one comes back to the
/// same tab, and so does the other order.
pub proof fn lemma_next_then_prev_tab(active: int, len: int)
    requires
        len > 1,
        0 <= active < len,
    ensures
        prev_index(next_index(active, len), len) == active,
        next_index(prev_index(active, len), len) == active,
{
    if active + 1 < len {
        assert((active + 1) % len == active + 1) by (nonlinear_arith)
            requires 0 <= active + 1 < len;
        assert((active + 1 + len - 1) % len == active) by (nonlinear_arith)
            requires 0 <= active, active + 1 < len;
    } else {
        assert((active + 1) % len == 0) by (nonlinear_arith)
            requires active + 1 == len, len > 1;
        assert((0 + len - 1) % len == active) by (nonlinear_arith)
            requires active + 1 == len, len > 1;
    }
    if active > 0 {
        assert((active + len - 1) % len == active - 1) by (nonlinear_arith)
            requires 0 < active < len;
        assert((active - 1 + 1) % len == active) by (nonlinear_arith)
            requires 0 < active < len;
    } else {
        assert((active + len - 1) % len == len - 1) by (nonlinear_arith)
            requires active == 0, len > 1;
        assert((len - 1 + 1) % len == 0) by (nonlinear_arith)
            requires len > 1;
    }
}

/// After a deletion no open tab shows a file at or below the deleted
/// path, nor the changes of one; and the active index names a remaining
/// tab, or none remain and it is zero.
pub proof fn lemma_delete_closes_its_tabs(tabs: Seq<TabView>, active: int, deleted: Seq<char>)
    requires
        0 <= active,
    ensures
        forall|i: int|
            0 <= i < tabs.filter(survivor_test(deleted)).len() ==> survives(
                deleted,
                #[trigger] tabs.filter(survivor_test(deleted))[i],
            ),
        ({
            let kept = tabs.filter(survivor_test(deleted));
            let a = active_after_delete(tabs, active, kept);
            (0 <= a < kept.len()) || (kept.len() == 0 && a == 0)
        }),
{
    let kept = tabs.filter(survivor_test(deleted));
    assert forall|i: int| 0 <= i < kept.len() implies survives(deleted, #[trigger] kept[i]) by {
        tabs.lemma_filter_pred(survivor_test(deleted), i);
    }
    if 0 <= active < tabs.len() && tabs[active].path is Some && tab_index_from(kept, tabs[active].path->0, 0) is Some {
        lemma_tab_index_bound(kept, tabs[active].path->0, 0);
    }
    if 0 <= active < tabs.len() && diff_path(tabs[active]) is Some && diff_index_from(
        kept,
        diff_path(tabs[active])->0,
        0,
    ) is Some {
        lemma_diff_index_bound(kept, diff_path(tabs[active])->0, 0);
    }
}

} // verus!
