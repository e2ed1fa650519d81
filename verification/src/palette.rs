//! The command palette's commands: what each entry of the palette asks
//! the workspace to do.

use crate::goto::{after_colon, goto_target, goto_target_of, query_line_part, GotoTarget};
use crate::picker::{palette, PickerKind};
use crate::text::text_is;
use crate::workspace::Activity;
use vstd::prelude::*;

verus! {

/// The color themes the palette offers.
#[derive(Clone, Copy, Debug, PartialEq, Eq, Structural)]
pub enum ThemeChoice {
    GithubDark,
    AyuDark,
    AyuMirage,
    AyuLight,
    GruvboxDark,
}

impl ThemeChoice {
    /// The name of the theme.
    pub fn name(self) -> (r: &'static str)
        ensures
            r@ == match self {
                ThemeChoice::GithubDark => "GitHub Dark"@,
                ThemeChoice::AyuDark => "Ayu Dark"@,
                ThemeChoice::AyuMirage => "Ayu Mirage"@,
                ThemeChoice::AyuLight => "Ayu Light"@,
                ThemeChoice::GruvboxDark => "Gruvbox Dark"@,
            },
    {
        match self {
            ThemeChoice::GithubDark => "GitHub Dark",
            ThemeChoice::AyuDark => "Ayu Dark",
            ThemeChoice::AyuMirage => "Ayu Mirage",
            ThemeChoice::AyuLight => "Ayu Light",
            ThemeChoice::GruvboxDark => "Gruvbox Dark",
        }
    }
}

/// What a palette entry asks for.
#[derive(Clone, Copy, Debug, PartialEq, Eq, Structural)]
pub enum PaletteCommand {
    NewFile,
    OpenFile,
    OpenFolder,
    Save,
    QuickOpen,
    GotoLine,
    CloseTab,
    NextTab,
    PrevTab,
    ToggleTerminal,
    NewTerminal,
    CloseTerminal,
    ClearTerminal,
    ToggleSidebar,
    ShowActivity(Activity),
    OpenSettings,
    Theme(ThemeChoice),
    Format,
    FontIncrease,
    FontDecrease,
    FontReset,
    CopyDiagnostic,
    GitRefresh,
    GitStageAll,
    GitUnstageAll,
    GitDiscardAll,
    GitCommit,
    About,
    Quit,
}

/// The command a palette entry's id names.
pub open spec fn palette_command_of(id: Seq<char>) -> Option<PaletteCommand> {
    if id == "file.new"@ {
        Some(PaletteCommand::NewFile)
    } else if id == "file.open"@ {
        Some(PaletteCommand::OpenFile)
    } else if id == "file.open_folder"@ {
        Some(PaletteCommand::OpenFolder)
    } else if id == "file.save"@ {
        Some(PaletteCommand::Save)
    } else if id == "file.quick_open"@ {
        Some(PaletteCommand::QuickOpen)
    } else if id == "view.goto_line"@ {
        Some(PaletteCommand::GotoLine)
    } else if id == "tab.close"@ {
        Some(PaletteCommand::CloseTab)
    } else if id == "tab.next"@ {
        Some(PaletteCommand::NextTab)
    } else if id == "tab.prev"@ {
        Some(PaletteCommand::PrevTab)
    } else if id == "terminal.toggle"@ {
        Some(PaletteCommand::ToggleTerminal)
    } else if id == "terminal.new"@ {
        Some(PaletteCommand::NewTerminal)
    } else if id == "terminal.close"@ {
        Some(PaletteCommand::CloseTerminal)
    } else if id == "terminal.clear"@ {
        Some(PaletteCommand::ClearTerminal)
    } else if id == "sidebar.toggle"@ {
        Some(PaletteCommand::ToggleSidebar)
    } else if id == "view.explorer"@ {
        Some(PaletteCommand::ShowActivity(Activity::Explorer))
    } else if id == "view.search"@ {
        Some(PaletteCommand::ShowActivity(Activity::Search))
    } else if id == "view.git"@ {
        Some(PaletteCommand::ShowActivity(Activity::Git))
    } else if id == "view.extensions"@ {
        Some(PaletteCommand::ShowActivity(Activity::Extensions))
    } else if id == "preferences.settings"@ {
        Some(PaletteCommand::OpenSettings)
    } else if id == "theme.github_dark"@ {
        Some(PaletteCommand::Theme(ThemeChoice::GithubDark))
    } else if id == "theme.ayu_dark"@ {
        Some(PaletteCommand::Theme(ThemeChoice::AyuDark))
    } else if id == "theme.ayu_mirage"@ {
        Some(PaletteCommand::Theme(ThemeChoice::AyuMirage))
    } else if id == "theme.ayu_light"@ {
        Some(PaletteCommand::Theme(ThemeChoice::AyuLight))
    } else if id == "theme.gruvbox_dark"@ {
        Some(PaletteCommand::Theme(ThemeChoice::GruvboxDark))
    } else if id == "editor.format"@ {
        Some(PaletteCommand::Format)
    } else if id == "editor.font_increase"@ {
        Some(PaletteCommand::FontIncrease)
    } else if id == "editor.font_decrease"@ {
        Some(PaletteCommand::FontDecrease)
    } else if id == "editor.font_reset"@ {
        Some(PaletteCommand::FontReset)
    } else if id == "editor.copy_diagnostic"@ {
        Some(PaletteCommand::CopyDiagnostic)
    } else if id == "git.refresh"@ {
        Some(PaletteCommand::GitRefresh)
    } else if id == "git.stage_all"@ {
        Some(PaletteCommand::GitStageAll)
    } else if id == "git.unstage_all"@ {
        Some(PaletteCommand::GitUnstageAll)
    } else if id == "git.discard_all"@ {
        Some(PaletteCommand::GitDiscardAll)
    } else if id == "git.commit"@ {
        Some(PaletteCommand::GitCommit)
    } else if id == "help.about"@ {
        Some(PaletteCommand::About)
    } else if id == "app.quit"@ {
        Some(PaletteCommand::Quit)
    } else {
        None
    }
}

/// The command that the palette entry `id` runs; `None` for an unknown id,
/// which runs nothing.
#[verifier::rlimit(50)]
pub fn palette_command(id: &str) -> (r: Option<PaletteCommand>)
    ensures
        r == palette_command_of(id@),
{
    if text_is(id, "file.new") {
        Some(PaletteCommand::NewFile)
    } else if text_is(id, "file.open") {
        Some(PaletteCommand::OpenFile)
    } else if text_is(id, "file.open_folder") {
        Some(PaletteCommand::OpenFolder)
    } else if text_is(id, "file.save") {
        Some(PaletteCommand::Save)
    } else if text_is(id, "file.quick_open") {
        Some(PaletteCommand::QuickOpen)
    } else if text_is(id, "view.goto_line") {
        Some(PaletteCommand::GotoLine)
    } else if text_is(id, "tab.close") {
        Some(PaletteCommand::CloseTab)
    } else if text_is(id, "tab.next") {
        Some(PaletteCommand::NextTab)
    } else if text_is(id, "tab.prev") {
        Some(PaletteCommand::PrevTab)
    } else if text_is(id, "terminal.toggle") {
        Some(PaletteCommand::ToggleTerminal)
    } else if text_is(id, "terminal.new") {
        Some(PaletteCommand::NewTerminal)
    } else if text_is(id, "terminal.close") {
        Some(PaletteCommand::CloseTerminal)
    } else if text_is(id, "terminal.clear") {
        Some(PaletteCommand::ClearTerminal)
    } else if text_is(id, "sidebar.toggle") {
        Some(PaletteCommand::ToggleSidebar)
    } else if text_is(id, "view.explorer") {
        Some(PaletteCommand::ShowActivity(Activity::Explorer))
    } else if text_is(id, "view.search") {
        Some(PaletteCommand::ShowActivity(Activity::Search))
    } else if text_is(id, "view.git") {
        Some(PaletteCommand::ShowActivity(Activity::Git))
    } else if text_is(id, "view.extensions") {
        Some(PaletteCommand::ShowActivity(Activity::Extensions))
    } else if text_is(id, "preferences.settings") {
        Some(PaletteCommand::OpenSettings)
    } else if text_is(id, "theme.github_dark") {
        Some(PaletteCommand::Theme(ThemeChoice::GithubDark))
    } else if text_is(id, "theme.ayu_dark") {
        Some(PaletteCommand::Theme(ThemeChoice::AyuDark))
    } else if text_is(id, "theme.ayu_mirage") {
        Some(PaletteCommand::Theme(ThemeChoice::AyuMirage))
    } else if text_is(id, "theme.ayu_light") {
        Some(PaletteCommand::Theme(ThemeChoice::AyuLight))
    } else if text_is(id, "theme.gruvbox_dark") {
        Some(PaletteCommand::Theme(ThemeChoice::GruvboxDark))
    } else if text_is(id, "editor.format") {
        Some(PaletteCommand::Format)
    } else if text_is(id, "editor.font_increase") {
        Some(PaletteCommand::FontIncrease)
    } else if text_is(id, "editor.font_decrease") {
        Some(PaletteCommand::FontDecrease)
    } else if text_is(id, "editor.font_reset") {
        Some(PaletteCommand::FontReset)
    } else if text_is(id, "editor.copy_diagnostic") {
        Some(PaletteCommand::CopyDiagnostic)
    } else if text_is(id, "git.refresh") {
        Some(PaletteCommand::GitRefresh)
    } else if text_is(id, "git.stage_all") {
        Some(PaletteCommand::GitStageAll)
    } else if text_is(id, "git.unstage_all") {
        Some(PaletteCommand::GitUnstageAll)
    } else if text_is(id, "git.discard_all") {
        Some(PaletteCommand::GitDiscardAll)
    } else if text_is(id, "git.commit") {
        Some(PaletteCommand::GitCommit)
    } else if text_is(id, "help.about") {
        Some(PaletteCommand::About)
    } else if text_is(id, "app.quit") {
        Some(PaletteCommand::Quit)
    } else {
        None
    }
}

/// Every entry the command palette lists runs a command.
#[verifier::rlimit(50)]
pub proof fn lemma_palette_entries_run(i: int)
    requires
        0 <= i < palette().len(),
    ensures
        palette_command_of(palette()[i].id) is Some,
{
    let p = palette();
    assert(p.len() == 36);
}

/// What confirming a picker does.
#[derive(Clone, Debug)]
pub enum PickerConfirm {
    /// Nothing is chosen.
    Nothing,
    /// The chosen file opens, and the cursor goes to the line the query
    /// names after a `:`, when it names one.
    OpenFile(String, Option<GotoTarget>),
    /// The chosen command runs (nothing for an unknown one).
    Run(Option<PaletteCommand>),
    /// The cursor goes to the line and column typed, when they read as such.
    GoTo(Option<GotoTarget>),
}

/// Confirms a picker of `kind`, whose chosen entry has the id `selected`
/// (none when nothing is listed) and whose query is `query`.
pub fn picker_confirm(kind: PickerKind, selected: Option<&str>, query: &str) -> (r: PickerConfirm)
    ensures
        kind == PickerKind::FileFinder ==> match selected {
            Some(id) => r matches PickerConfirm::OpenFile(p, g) && p@ == id@ && g == match after_colon(query@) {
                Some(rest) => goto_target_of(rest),
                None => None,
            },
            None => r is Nothing,
        },
        kind == PickerKind::CommandPalette ==> match selected {
            Some(id) => r == PickerConfirm::Run(palette_command_of(id@)),
            None => r is Nothing,
        },
        kind == PickerKind::GoToLine ==> r == PickerConfirm::GoTo(goto_target_of(query@)),
{
    match kind {
        PickerKind::FileFinder => match selected {
            Some(id) => {
                let g = match query_line_part(query) {
                    Some(rest) => goto_target(rest.as_str()),
                    None => None,
                };
                PickerConfirm::OpenFile(id.to_string(), g)
            },
            None => PickerConfirm::Nothing,
        },
        PickerKind::CommandPalette => match selected {
            Some(id) => PickerConfirm::Run(palette_command(id)),
            None => PickerConfirm::Nothing,
        },
        PickerKind::GoToLine => PickerConfirm::GoTo(goto_target(query)),
    }
}

} // verus!
