//! Tab decorations: a tab's label and icon, and the mark and color of a
//! file's version-control change.

use crate::paths::{file_name_of, path_file_name};
use crate::tabs::{tab_view, TabInfo, TabView};
use crate::text::{chars_of, push_all, string_of};
use vstd::prelude::*;

verus! {

/// How a file changed in the working tree.
#[derive(Clone, Copy, Debug, PartialEq, Eq, Structural)]
pub enum ChangeKind {
    Modified,
    Added,
    Deleted,
    Renamed,
    Copied,
    Untracked,
    Conflicted,
    TypeChanged,
}

/// The theme color marking a change.
#[derive(Clone, Copy, Debug, PartialEq, Eq, Structural)]
pub enum ChangeColor {
    Modified,
    Added,
    Deleted,
    Accent,
}

/// The color of a tab whose file changed: modified, added (also renamed,
/// copied and untracked), deleted (also conflicted), or the accent for a
/// type change.
pub fn kind_color(kind: ChangeKind) -> (r: ChangeColor)
    ensures
        r == kind_color_of(kind),
{
    match kind {
        ChangeKind::Modified => ChangeColor::Modified,
        ChangeKind::Added | ChangeKind::Renamed | ChangeKind::Copied | ChangeKind::Untracked => ChangeColor::Added,
        ChangeKind::Deleted | ChangeKind::Conflicted => ChangeColor::Deleted,
        ChangeKind::TypeChanged => ChangeColor::Accent,
    }
}

/// The label of a tab: `settings.json` for the settings page; the changed
/// file's name (or its path as shown) and ` — diff` for changes; the file's
/// name, or `Untitled`.
pub open spec fn tab_label_of(t: TabView) -> Seq<char> {
    if t.is_settings {
        "settings.json"@
    } else {
        match t.diff {
            Some((p, _, rel)) => {
                let name = match path_file_name(p) {
                    Some(n) => n,
                    None => rel,
                };
                name + " — diff"@
            },
            None => match t.path {
                Some(p) => match path_file_name(p) {
                    Some(n) => n,
                    None => "Untitled"@,
                },
                None => "Untitled"@,
            },
        }
    }
}

/// The label of a tab.
pub fn tab_label(tab: &TabInfo) -> (r: String)
    ensures
        r@ == tab_label_of(tab_view(*tab)),
{
    if tab.is_settings {
        return "settings.json".to_string();
    }
    match &tab.diff {
        Some(d) => {
            let name = match file_name_of(d.path.as_str()) {
                Some(n) => n,
                None => d.rel.clone(),
            };
            let mut cs = chars_of(name.as_str());
            push_all(&mut cs, chars_of(" — diff").as_slice());
            string_of(cs.as_slice())
        },
        None => match &tab.path {
            Some(p) => match file_name_of(p.as_str()) {
                Some(n) => n,
                None => "Untitled".to_string(),
            },
            None => "Untitled".to_string(),
        },
    }
}

/// The icon of a tab.
#[derive(Clone, Copy, Debug, PartialEq, Eq, Structural)]
pub enum TabIcon {
    /// The JSON file icon, for the settings page.
    Json,
    /// The git icon, for changes.
    Git,
    /// The icon of the tab's file type.
    FileType,
    /// The plain file icon.
    DefaultFile,
}

/// The icon of a tab.
pub fn tab_icon(tab: &TabInfo) -> (r: TabIcon)
    ensures
        r == if tab.is_settings {
            TabIcon::Json
        } else if tab.diff is Some {
            TabIcon::Git
        } else if tab.path is Some {
            TabIcon::FileType
        } else {
            TabIcon::DefaultFile
        },
{
    if tab.is_settings {
        TabIcon::Json
    } else if tab.diff.is_some() {
        TabIcon::Git
    } else if tab.path.is_some() {
        TabIcon::FileType
    } else {
        TabIcon::DefaultFile
    }
}

/// The version-control mark of a tab's file.
#[derive(Clone, Copy, Debug, PartialEq, Eq, Structural)]
pub enum TabMark {
    /// `U`, for a file git does not track.
    Untracked,
    /// The letter of the change.
    Change(ChangeKind),
}

/// The mark and color of a tab whose file changed: untracked files are
/// marked `U` in the added color; otherwise the change in the working
/// tree, or else the staged one, gives both.
pub fn tab_mark(untracked: bool, worktree: Option<ChangeKind>, index: Option<ChangeKind>) -> (r: Option<(TabMark, ChangeColor)>)
    ensures
        r == if untracked {
            Some((TabMark::Untracked, ChangeColor::Added))
        } else {
            match worktree {
                Some(k) => Some((TabMark::Change(k), kind_color_of(k))),
                None => match index {
                    Some(k) => Some((TabMark::Change(k), kind_color_of(k))),
                    None => None,
                },
            }
        },
{
    if untracked {
        Some((TabMark::Untracked, ChangeColor::Added))
    } else {
        match worktree {
            Some(k) => Some((TabMark::Change(k), kind_color(k))),
            None => match index {
                Some(k) => Some((TabMark::Change(k), kind_color(k))),
                None => None,
            },
        }
    }
}

/// The color of a change, as [`kind_color`] gives it.
pub open spec fn kind_color_of(kind: ChangeKind) -> ChangeColor {
    match kind {
        ChangeKind::Modified => ChangeColor::Modified,
        ChangeKind::Added | ChangeKind::Renamed | ChangeKind::Copied | ChangeKind::Untracked => ChangeColor::Added,
        ChangeKind::Deleted | ChangeKind::Conflicted => ChangeColor::Deleted,
        ChangeKind::TypeChanged => ChangeColor::Accent,
    }
}

/// The color of a tab's label.
#[derive(Clone, Copy, Debug, PartialEq, Eq, Structural)]
pub enum LabelColor {
    Active,
    Change(ChangeColor),
    Inactive,
}

/// The label color: the active tab's own; else the color of its file's
/// change; else the inactive one.
pub fn label_color(is_active: bool, mark: Option<(TabMark, ChangeColor)>) -> (r: LabelColor)
    ensures
        r == if is_active {
            LabelColor::Active
        } else {
            match mark {
                Some((_, c)) => LabelColor::Change(c),
                None => LabelColor::Inactive,
            }
        },
{
    if is_active {
        LabelColor::Active
    } else {
        match mark {
            Some((_, c)) => LabelColor::Change(c),
            None => LabelColor::Inactive,
        }
    }
}

} // verus!
