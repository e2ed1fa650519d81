//! Editor commands that carry an argument.

use vstd::prelude::*;

verus! {

/// Switch to the tab at `index`.
#[derive(Clone, Copy, Debug, Default, PartialEq, Eq)]
pub struct SwitchTab {
    pub index: usize,
}

/// Close the tab at `index`.
#[derive(Clone, Copy, Debug, Default, PartialEq, Eq)]
pub struct CloseTabAt {
    pub index: usize,
}

/// Apply the theme at position `ix` of the theme list.
#[derive(Clone, Copy, Debug, Default, PartialEq, Eq)]
pub struct SelectTheme {
    pub ix: usize,
}

/// Create a file in `parent`, or in the selected folder.
#[derive(Clone, Debug, PartialEq, Eq)]
pub struct ExplorerNewFile {
    pub parent: Option<String>,
}

/// Create a folder in `parent`, or in the selected folder.
#[derive(Clone, Debug, PartialEq, Eq)]
pub struct ExplorerNewFolder {
    pub parent: Option<String>,
}

/// Show `path` in the system file manager.
#[derive(Clone, Debug, PartialEq, Eq)]
pub struct ExplorerRevealInFinder {
    pub path: String,
}

/// Copy the absolute `path` to the clipboard.
#[derive(Clone, Debug, PartialEq, Eq)]
pub struct ExplorerCopyPath {
    pub path: String,
}

/// Copy `path`, relative to the workspace root, to the clipboard.
#[derive(Clone, Debug, PartialEq, Eq)]
pub struct ExplorerCopyRelativePath {
    pub path: String,
}

/// Rename the entry at `path`.
#[derive(Clone, Debug, PartialEq, Eq)]
pub struct ExplorerRename {
    pub path: String,
}

/// Delete the entry at `path`.
#[derive(Clone, Debug, PartialEq, Eq)]
pub struct ExplorerDelete {
    pub path: String,
}

/// Cut the selected explorer entry.
#[derive(Clone, Copy, Debug, PartialEq, Eq)]
pub struct ExplorerCut;

/// Copy the selected explorer entry.
#[derive(Clone, Copy, Debug, PartialEq, Eq)]
pub struct ExplorerCopy;

/// Paste the cut or copied entry into the selected folder.
#[derive(Clone, Copy, Debug, PartialEq, Eq)]
pub struct ExplorerPaste;

/// Stage the changes of `path`.
#[derive(Clone, Debug, PartialEq, Eq)]
pub struct GitStageFile {
    pub path: String,
}

/// Unstage the changes of `path`.
#[derive(Clone, Debug, PartialEq, Eq)]
pub struct GitUnstageFile {
    pub path: String,
}

/// Discard the changes of `path`.
#[derive(Clone, Debug, PartialEq, Eq)]
pub struct GitDiscardFile {
    pub path: String,
}

/// Open the diff of `path`.
#[derive(Clone, Debug, PartialEq, Eq)]
pub struct GitOpenDiff {
    pub path: String,
}

/// Open the file at `path`.
#[derive(Clone, Debug, PartialEq, Eq)]
pub struct GitOpenFile {
    pub path: String,
}

/// Switch to the terminal tab at `index`.
#[derive(Clone, Copy, Debug, Default, PartialEq, Eq)]
pub struct SwitchTerminalTab {
    pub index: usize,
}

} // verus!
