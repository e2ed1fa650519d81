//! The explorer's file operations, apart from the file system: where a new,
//! renamed, moved or pasted entry goes, the checks made before the change,
//! and the status line after it. The caller looks at the disk (whether a
//! path exists, whether it is a folder) and hands the answers in.

use crate::fs_tree::{valid_entry_name, valid_name};
use crate::paths::{
    display_name, file_name_of, is_same_or_descendant, parent_of, path_file_name, path_has_prefix, path_join,
    path_joined, path_parent, path_strip_prefix, path_suffix, paths_equal, same_path, shown_name, display_of,
};
use crate::text::{chars_of, push_all, string_of, trim, trim_chars};
use vstd::prelude::*;

verus! {

/// The value of an optional text.
pub open spec fn text_opt(o: Option<&str>) -> Option<Seq<char>> {
    match o {
        Some(s) => Some(s@),
        None => None,
    }
}

/// Whether `p` is the workspace folder `root` or lies below it.
pub open spec fn in_workspace(root: Option<Seq<char>>, p: Seq<char>) -> bool {
    match root {
        Some(r) => same_path(p, r) || path_has_prefix(p, r),
        None => false,
    }
}

/// Whether `path` lies in the workspace whose folder is `root`.
pub fn path_in_workspace(root: Option<&str>, path: &str) -> (r: bool)
    ensures
        r == in_workspace(text_opt(root), path@),
{
    match root {
        Some(x) => is_same_or_descendant(x, path),
        None => false,
    }
}

/// The refusal shown for a name that cannot be used.
pub open spec fn invalid_name_message() -> Seq<char> {
    "Enter a valid name (without path separators)"@
}

/// `text` followed by the name of `p`.
fn prefixed_name(text: &str, p: &str) -> (r: String)
    ensures
        r@ == text@ + shown_name(p@),
{
    let mut cs = chars_of(text);
    let name = display_name(p);
    push_all(&mut cs, chars_of(name.as_str()).as_slice());
    string_of(cs.as_slice())
}

/// The name of `p` followed by `text`.
fn name_suffixed(p: &str, text: &str) -> (r: String)
    ensures
        r@ == shown_name(p@) + text@,
{
    let name = display_name(p);
    let mut cs = chars_of(name.as_str());
    push_all(&mut cs, chars_of(text).as_slice());
    string_of(cs.as_slice())
}

/// What a new entry is.
#[derive(Clone, Copy, Debug, PartialEq, Eq, Structural)]
pub enum CreatingKind {
    File,
    Folder,
}

/// Where a new entry goes: the folder asked for, or else the selected
/// entry when it is a folder and otherwise its parent (the entry itself
/// when it has none), or else the workspace folder.
pub open spec fn creation_folder_of(
    parent: Option<Seq<char>>,
    selected: Option<Seq<char>>,
    selected_is_dir: bool,
    root: Option<Seq<char>>,
) -> Option<Seq<char>> {
    match parent {
        Some(p) => Some(p),
        None => match selected {
            Some(s) => if selected_is_dir {
                Some(s)
            } else {
                match path_parent(s) {
                    Some(q) => Some(q),
                    None => Some(s),
                }
            },
            None => root,
        },
    }
}

/// Where a new entry goes; `selected_is_dir` tells whether the selected
/// entry is a folder.
pub fn creation_folder(
    parent: Option<&str>,
    selected: Option<&str>,
    selected_is_dir: bool,
    root: Option<&str>,
) -> (r: Option<String>)
    ensures
        text_opt_string(r) == creation_folder_of(text_opt(parent), text_opt(selected), selected_is_dir, text_opt(root)),
{
    match parent {
        Some(p) => Some(p.to_string()),
        None => match selected {
            Some(s) => if selected_is_dir {
                Some(s.to_string())
            } else {
                match parent_of(s) {
                    Some(q) => Some(q),
                    None => Some(s.to_string()),
                }
            },
            None => match root {
                Some(x) => Some(x.to_string()),
                None => None,
            },
        },
    }
}

/// The value of an optional string.
pub open spec fn text_opt_string(o: Option<String>) -> Option<Seq<char>> {
    match o {
        Some(s) => Some(s@),
        None => None,
    }
}

/// How naming a new entry starts.
#[derive(Clone, Debug)]
pub enum CreationStart {
    /// No folder to create in: a new untitled file opens instead.
    NewFile,
    /// Nothing starts; the status line says why.
    Refused(String),
    /// The name of the new entry is asked for, in the folder.
    Begin,
}

/// How naming a new entry of `kind` in `folder` starts; `folder_is_dir`
/// tells whether the folder is one on disk.
pub fn creation_start(kind: CreatingKind, folder: Option<&str>, folder_is_dir: bool, root: Option<&str>) -> (r: CreationStart)
    ensures
        folder is None && kind == CreatingKind::File ==> r is NewFile,
        folder is None && kind == CreatingKind::Folder ==> (r matches CreationStart::Refused(m) && m@
            == "Open a folder before creating a directory"@),
        folder matches Some(d) && (!folder_is_dir || !in_workspace(text_opt(root), d@)) ==> (r matches CreationStart::Refused(
            m,
        ) && m@ == "The selected destination folder is unavailable"@),
        folder matches Some(d) && folder_is_dir && in_workspace(text_opt(root), d@) ==> r is Begin,
{
    match folder {
        None => match kind {
            CreatingKind::File => CreationStart::NewFile,
            CreatingKind::Folder => CreationStart::Refused("Open a folder before creating a directory".to_string()),
        },
        Some(d) => if !folder_is_dir || !path_in_workspace(root, d) {
            CreationStart::Refused("The selected destination folder is unavailable".to_string())
        } else {
            CreationStart::Begin
        },
    }
}

/// The path a new entry named `raw_name` takes in `dir`: the name without
/// surrounding whitespace, joined to the folder.
pub fn entry_target(dir: &str, raw_name: &str) -> (r: String)
    ensures
        r@ == path_joined(dir@, trim(raw_name@)),
{
    let t = trim_chars(chars_of(raw_name).as_slice());
    let name = string_of(t.as_slice());
    path_join(dir, name.as_str())
}

/// Why a new entry named `raw_name` at `target` is refused, if it is.
pub open spec fn new_entry_refusal(
    root: Option<Seq<char>>,
    raw_name: Seq<char>,
    target: Seq<char>,
    target_exists: bool,
) -> Option<Seq<char>> {
    if !valid_name(trim(raw_name)) || !in_workspace(root, target) {
        Some(invalid_name_message())
    } else if target_exists {
        Some(shown_name(target) + " already exists"@)
    } else {
        None
    }
}

/// The check before a new entry named `raw_name` is made at `target`:
/// the refusal to show, or `None` when it may be made.
pub fn check_new_entry(root: Option<&str>, raw_name: &str, target: &str, target_exists: bool) -> (r: Option<String>)
    ensures
        text_opt_string(r) == new_entry_refusal(text_opt(root), raw_name@, target@, target_exists),
{
    let t = trim_chars(chars_of(raw_name).as_slice());
    let name = string_of(t.as_slice());
    if !valid_entry_name(name.as_str()) || !path_in_workspace(root, target) {
        return Some("Enter a valid name (without path separators)".to_string());
    }
    if target_exists {
        return Some(name_suffixed(target, " already exists"));
    }
    None
}

/// The status line after a new entry was made at `target`.
pub fn created_status(kind: CreatingKind, target: &str) -> (r: String)
    ensures
        r@ == match kind {
            CreatingKind::File => "Created "@ + shown_name(target@),
            CreatingKind::Folder => "Created folder "@ + shown_name(target@),
        },
{
    match kind {
        CreatingKind::File => prefixed_name("Created ", target),
        CreatingKind::Folder => prefixed_name("Created folder ", target),
    }
}

/// Where `path` goes when it is renamed to `raw_name`: the new name, without
/// surrounding whitespace, in the same folder; `None` for a path without
/// a parent.
pub fn rename_target(path: &str, raw_name: &str) -> (r: Option<String>)
    ensures
        text_opt_string(r) == match path_parent(path@) {
            Some(q) => Some(path_joined(q, trim(raw_name@))),
            None => None,
        },
{
    match parent_of(path) {
        Some(q) => Some(entry_target(q.as_str(), raw_name)),
        None => None,
    }
}

/// What a rename comes to.
#[derive(Clone, Debug)]
pub enum RenameCheck {
    /// Nothing is renamed; the status line says why.
    Refused(String),
    /// The new name is the old one: the entry is only selected.
    Unchanged,
    Proceed,
}

/// The check before `path` is renamed to `destination`, named `raw_name`.
pub fn check_rename(root: Option<&str>, path: &str, raw_name: &str, destination: &str, destination_exists: bool) -> (r: RenameCheck)
    ensures
        !valid_name(trim(raw_name@)) || !in_workspace(text_opt(root), destination@) ==> (r matches RenameCheck::Refused(m)
            && m@ == invalid_name_message()),
        valid_name(trim(raw_name@)) && in_workspace(text_opt(root), destination@) && same_path(destination@, path@)
            ==> r is Unchanged,
        valid_name(trim(raw_name@)) && in_workspace(text_opt(root), destination@) && !same_path(destination@, path@)
            && destination_exists ==> (r matches RenameCheck::Refused(m) && m@ == shown_name(destination@)
            + " already exists"@),
        valid_name(trim(raw_name@)) && in_workspace(text_opt(root), destination@) && !same_path(destination@, path@)
            && !destination_exists ==> r is Proceed,
{
    let t = trim_chars(chars_of(raw_name).as_slice());
    let name = string_of(t.as_slice());
    if !valid_entry_name(name.as_str()) || !path_in_workspace(root, destination) {
        return RenameCheck::Refused("Enter a valid name (without path separators)".to_string());
    }
    if paths_equal(destination, path) {
        return RenameCheck::Unchanged;
    }
    if destination_exists {
        return RenameCheck::Refused(name_suffixed(destination, " already exists"));
    }
    RenameCheck::Proceed
}

/// Whether two paths have the same parent (both none, or the same path).
pub open spec fn same_parent_of(a: Seq<char>, b: Seq<char>) -> bool {
    match (path_parent(a), path_parent(b)) {
        (Some(x), Some(y)) => same_path(x, y),
        (None, None) => true,
        _ => false,
    }
}

/// Whether `a` and `b` lie in the same folder; a rename within one folder
/// is followed in the tree at once.
pub fn same_parent(a: &str, b: &str) -> (r: bool)
    ensures
        r == same_parent_of(a@, b@),
{
    match (parent_of(a), parent_of(b)) {
        (Some(x), Some(y)) => paths_equal(x.as_str(), y.as_str()),
        (None, None) => true,
        _ => false,
    }
}

/// The status line after a rename to `destination`.
pub fn renamed_status(destination: &str) -> (r: String)
    ensures
        r@ == "Renamed to "@ + shown_name(destination@),
{
    prefixed_name("Renamed to ", destination)
}

/// Where a move or a paste goes next.
#[derive(Clone, Debug)]
pub enum TransferStep {
    /// Nothing happens; the status line says why.
    Refused(String),
    /// Nothing happens, and nothing is said.
    Stop,
    /// The entry would go to this path.
    To(String),
}

/// The message for a move whose source or folder cannot be used.
pub open spec fn move_unavailable_message() -> Seq<char> {
    "The drag source or destination is unavailable"@
}

/// The first checks of a move of `source` into the folder `dir`, and the
/// path it would take there. `dir_is_dir` and `source_exists` are what
/// the disk says.
pub fn move_destination(root: Option<&str>, source: &str, dir: &str, dir_is_dir: bool, source_exists: bool) -> (r: TransferStep)
    ensures
        !in_workspace(text_opt(root), source@) || !in_workspace(text_opt(root), dir@) || !dir_is_dir || !source_exists
            ==> (r matches TransferStep::Refused(m) && m@ == move_unavailable_message()),
        in_workspace(text_opt(root), source@) && in_workspace(text_opt(root), dir@) && dir_is_dir && source_exists
            ==> {
            if same_path(dir@, source@) || path_has_prefix(dir@, source@) {
                r matches TransferStep::Refused(m) && m@ == "A folder cannot be moved into itself"@
            } else {
                match path_file_name(source@) {
                    Some(n) => r matches TransferStep::To(d) && d@ == path_joined(dir@, n),
                    None => r is Stop,
                }
            }
        },
{
    if !path_in_workspace(root, source) || !path_in_workspace(root, dir) || !dir_is_dir || !source_exists {
        return TransferStep::Refused("The drag source or destination is unavailable".to_string());
    }
    if is_same_or_descendant(source, dir) {
        return TransferStep::Refused("A folder cannot be moved into itself".to_string());
    }
    match file_name_of(source) {
        Some(n) => TransferStep::To(path_join(dir, n.as_str())),
        None => TransferStep::Stop,
    }
}

/// The last check of a move of `source` to `destination`: the refusal to
/// show, or `None` when the move may happen.
pub fn check_move_target(source: &str, destination: &str, destination_exists: bool) -> (r: Option<String>)
    ensures
        text_opt_string(r) == if same_path(destination@, source@) {
            Some("The item is already in that folder"@)
        } else if destination_exists {
            Some(shown_name(destination@) + " already exists there"@)
        } else {
            None
        },
{
    if paths_equal(destination, source) {
        return Some("The item is already in that folder".to_string());
    }
    if destination_exists {
        return Some(name_suffixed(destination, " already exists there"));
    }
    None
}

/// The status line after a move to `destination`.
pub fn moved_status(destination: &str) -> (r: String)
    ensures
        r@ == "Moved "@ + shown_name(destination@),
{
    prefixed_name("Moved ", destination)
}

/// An entry copied or cut in the explorer.
#[derive(Clone, Debug)]
pub struct ExplorerClipboard {
    pub path: String,
    pub cut: bool,
}

/// Copies (or cuts) the selected entry, when there is one; gives the
/// clipboard and the status line.
pub fn to_clipboard(selected: Option<&str>, cut: bool) -> (r: Option<(ExplorerClipboard, &'static str)>)
    ensures
        selected is None ==> r is None,
        selected matches Some(p) ==> (r matches Some((c, m)) && c.path@ == p@ && c.cut == cut && m@ == if cut {
            "Cut explorer item"@
        } else {
            "Copied explorer item"@
        }),
{
    match selected {
        Some(p) => Some(
            (
                ExplorerClipboard { path: p.to_string(), cut },
                if cut { "Cut explorer item" } else { "Copied explorer item" },
            ),
        ),
        None => None,
    }
}

/// Where a paste goes: the selected entry when it is a folder, else its
/// parent, else the workspace folder.
pub open spec fn paste_folder_of(selected: Option<Seq<char>>, selected_is_dir: bool, root: Option<Seq<char>>) -> Option<
    Seq<char>,
> {
    match selected {
        Some(s) => if selected_is_dir {
            Some(s)
        } else {
            match path_parent(s) {
                Some(q) => Some(q),
                None => root,
            }
        },
        None => root,
    }
}

/// The folder a paste goes to; `selected_is_dir` tells whether the
/// selected entry is a folder.
pub fn paste_folder(selected: Option<&str>, selected_is_dir: bool, root: Option<&str>) -> (r: Option<String>)
    ensures
        text_opt_string(r) == paste_folder_of(text_opt(selected), selected_is_dir, text_opt(root)),
{
    let from_root = match root {
        Some(x) => Some(x.to_string()),
        None => None,
    };
    match selected {
        Some(s) => if selected_is_dir {
            Some(s.to_string())
        } else {
            match parent_of(s) {
                Some(q) => Some(q),
                None => from_root,
            }
        },
        None => from_root,
    }
}

/// The first checks of pasting a copy of `item` into `dir`, and the path
/// the copy would take. `item_exists` is what the disk says.
pub fn paste_destination(root: Option<&str>, item: &str, dir: &str, item_exists: bool) -> (r: TransferStep)
    ensures
        !in_workspace(text_opt(root), item@) || !item_exists ==> (r matches TransferStep::Refused(m) && m@
            == "Cannot paste: the copied item is no longer available"@),
        in_workspace(text_opt(root), item@) && item_exists ==> match path_file_name(item@) {
            Some(n) => r matches TransferStep::To(d) && d@ == path_joined(dir@, n),
            None => r is Stop,
        },
{
    if !path_in_workspace(root, item) || !item_exists {
        return TransferStep::Refused("Cannot paste: the copied item is no longer available".to_string());
    }
    match file_name_of(item) {
        Some(n) => TransferStep::To(path_join(dir, n.as_str())),
        None => TransferStep::Stop,
    }
}

/// The last check of pasting a copy of `item` into `dir`: refused when the
/// copy's path is taken or the folder is the item or lies in it.
pub fn check_paste_target(item: &str, dir: &str, destination_exists: bool) -> (r: Option<String>)
    ensures
        text_opt_string(r) == if destination_exists || same_path(dir@, item@) || path_has_prefix(dir@, item@) {
            Some("Cannot paste: the destination already contains that item"@)
        } else {
            None
        },
{
    if destination_exists || is_same_or_descendant(item, dir) {
        return Some("Cannot paste: the destination already contains that item".to_string());
    }
    None
}

/// The selection after `deleted` is deleted: its parent when the selection
/// was at or below it, else unchanged.
pub fn selection_after_delete(selected: Option<&str>, deleted: &str) -> (r: Option<String>)
    ensures
        text_opt_string(r) == match text_opt(selected) {
            Some(s) => if same_path(s, deleted@) || path_has_prefix(s, deleted@) {
                path_parent(deleted@)
            } else {
                Some(s)
            },
            None => None,
        },
{
    match selected {
        Some(s) => if is_same_or_descendant(deleted, s) {
            parent_of(deleted)
        } else {
            Some(s.to_string())
        },
        None => None,
    }
}

/// The status line after `path` was deleted.
pub fn deleted_status(path: &str) -> (r: String)
    ensures
        r@ == "Deleted "@ + shown_name(path@),
{
    prefixed_name("Deleted ", path)
}

/// A path as written below the workspace folder `root`, or whole when it
/// lies elsewhere.
pub fn relative_path(root: Option<&str>, path: &str) -> (r: String)
    ensures
        r@ == match text_opt(root) {
            Some(x) => if path_has_prefix(path@, x) {
                path_suffix(path@, x)
            } else {
                path@
            },
            None => path@,
        },
{
    match root {
        Some(x) => match path_strip_prefix(path, x) {
            Some(rest) => rest,
            None => path.to_string(),
        },
        None => path.to_string(),
    }
}

/// The status line after a path was copied.
pub fn copied_path_status(path: &str) -> (r: String)
    ensures
        r@ == "Copied path: "@ + path@,
{
    let mut cs = chars_of("Copied path: ");
    let shown = display_of(path);
    push_all(&mut cs, chars_of(shown.as_str()).as_slice());
    string_of(cs.as_slice())
}

/// The status line after a relative path was copied.
pub fn copied_relative_path_status(rel: &str) -> (r: String)
    ensures
        r@ == "Copied relative path: "@ + rel@,
{
    let mut cs = chars_of("Copied relative path: ");
    let shown = display_of(rel);
    push_all(&mut cs, chars_of(shown.as_str()).as_slice());
    string_of(cs.as_slice())
}

} // verus!
