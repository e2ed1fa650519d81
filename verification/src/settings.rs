//! Persistent settings: the auto-save modes, the defaults, and where
//! `settings.json` lives:
//! - Windows: `%APPDATA%\ezicode`
//! - macOS: `~/Library/Application Support/ezicode`
//! - Linux and the BSDs: `$XDG_CONFIG_HOME/ezicode` or `~/.config/ezicode`
//!
//! A folder left by the editor's former name, `html2gpui`, is used in place
//! of the `ezicode` one as long as only the former exists.

use crate::paths::{path_join, path_joined};
use crate::text::{chars_of, same_chars};
use vstd::prelude::*;

verus! {

/// When a dirty file is saved without being asked to.
#[derive(Clone, Copy, Debug, PartialEq, Eq, Structural)]
pub enum AutoSaveMode {
    Off,
    AfterDelay,
    OnFocusChange,
}

impl Default for AutoSaveMode {
    fn default() -> (r: Self)
        ensures
            r == AutoSaveMode::Off,
    {
        AutoSaveMode::Off
    }
}

/// The names that stand for each mode in `settings.json`.
pub open spec fn mode_named(name: Seq<char>) -> Option<AutoSaveMode> {
    if name == "off"@ || name == "OFF"@ || name == "false"@ || name == "none"@ || name == "disabled"@ {
        Some(AutoSaveMode::Off)
    } else if name == "afterDelay"@ || name == "after_delay"@ || name == "on"@ || name == "ON"@
        || name == "true"@ || name == "delay"@ || name == "auto"@ || name == "enabled"@ {
        Some(AutoSaveMode::AfterDelay)
    } else if name == "onFocusChange"@ || name == "on_focus_change"@ || name == "focusChange"@
        || name == "focus"@ {
        Some(AutoSaveMode::OnFocusChange)
    } else {
        None
    }
}

/// The name a mode is written as.
pub open spec fn mode_name(m: AutoSaveMode) -> Seq<char> {
    match m {
        AutoSaveMode::Off => "off"@,
        AutoSaveMode::AfterDelay => "afterDelay"@,
        AutoSaveMode::OnFocusChange => "onFocusChange"@,
    }
}

/// Reading back the name a mode is written as gives the mode.
pub proof fn lemma_mode_name_round_trip(m: AutoSaveMode)
    ensures
        mode_named(mode_name(m)) == Some(m),
{
    reveal_strlit("off");
    reveal_strlit("OFF");
    reveal_strlit("false");
    reveal_strlit("none");
    reveal_strlit("disabled");
    reveal_strlit("afterDelay");
    reveal_strlit("after_delay");
    reveal_strlit("on");
    reveal_strlit("ON");
    reveal_strlit("true");
    reveal_strlit("delay");
    reveal_strlit("auto");
    reveal_strlit("enabled");
    reveal_strlit("onFocusChange");
    assert("off"@.len() == 3 && "OFF"@.len() == 3 && "false"@.len() == 5 && "none"@.len() == 4 && "disabled"@.len() == 8);
    assert("afterDelay"@.len() == 10 && "after_delay"@.len() == 11 && "on"@.len() == 2 && "ON"@.len() == 2);
    assert("true"@.len() == 4 && "delay"@.len() == 5 && "auto"@.len() == 4 && "enabled"@.len() == 7);
    assert("onFocusChange"@.len() == 13);
}

/// Whether the text is `lit`.
fn is(cs: &Vec<char>, lit: &str) -> (r: bool)
    ensures
        r == (cs@ == lit@),
{
    same_chars(cs.as_slice(), chars_of(lit).as_slice())
}

impl AutoSaveMode {
    /// What the mode does, as the settings page explains it.
    pub fn description(&self) -> (r: &'static str)
        ensures
            r@ == match *self {
                AutoSaveMode::Off => "A dirty file is never automatically saved (Ctrl+S to save)."@,
                AutoSaveMode::AfterDelay => "A dirty file is automatically saved after the configured delay."@,
                AutoSaveMode::OnFocusChange => "A dirty file is automatically saved when switching tabs or editor focus."@,
            },
    {
        match self {
            AutoSaveMode::Off => "A dirty file is never automatically saved (Ctrl+S to save).",
            AutoSaveMode::AfterDelay => "A dirty file is automatically saved after the configured delay.",
            AutoSaveMode::OnFocusChange => "A dirty file is automatically saved when switching tabs or editor focus.",
        }
    }

    /// The name written to `settings.json`.
    pub fn name(&self) -> (r: &'static str)
        ensures
            r@ == mode_name(*self),
    {
        match self {
            AutoSaveMode::Off => "off",
            AutoSaveMode::AfterDelay => "afterDelay",
            AutoSaveMode::OnFocusChange => "onFocusChange",
        }
    }

    /// The mode a name in `settings.json` stands for, or `None` for a name
    /// that stands for none.
    pub fn from_name(name: &str) -> (r: Option<AutoSaveMode>)
        ensures
            r == mode_named(name@),
    {
        let cs = chars_of(name);
        if is(&cs, "off") || is(&cs, "OFF") || is(&cs, "false") || is(&cs, "none") || is(&cs, "disabled") {
            Some(AutoSaveMode::Off)
        } else if is(&cs, "afterDelay") || is(&cs, "after_delay") || is(&cs, "on") || is(&cs, "ON")
            || is(&cs, "true") || is(&cs, "delay") || is(&cs, "auto") || is(&cs, "enabled") {
            Some(AutoSaveMode::AfterDelay)
        } else if is(&cs, "onFocusChange") || is(&cs, "on_focus_change") || is(&cs, "focusChange")
            || is(&cs, "focus") {
            Some(AutoSaveMode::OnFocusChange)
        } else {
            None
        }
    }
}

/// The theme of a fresh install.
pub fn default_theme() -> (r: String)
    ensures
        r@ == "One Dark Pro"@,
{
    "One Dark Pro".to_string()
}

/// Auto-save of a fresh install: off.
pub fn default_auto_save() -> (r: AutoSaveMode)
    ensures
        r == AutoSaveMode::Off,
{
    AutoSaveMode::Off
}

/// The auto-save delay of a fresh install, in milliseconds.
pub fn default_auto_save_delay() -> (r: u64)
    ensures
        r == 1000,
{
    1000
}

/// The tab size of a fresh install.
pub fn default_tab_size() -> (r: usize)
    ensures
        r == 4,
{
    4
}

/// The platform families whose config folders differ.
#[derive(Clone, Copy, Debug, PartialEq, Eq, Structural)]
pub enum ConfigPlatform {
    Windows,
    MacOs,
    Unix,
}

/// The environment that decides the config folder.
pub struct ConfigEnv {
    pub platform: ConfigPlatform,
    /// `APPDATA`.
    pub appdata: Option<String>,
    /// `USERPROFILE`.
    pub userprofile: Option<String>,
    /// `XDG_CONFIG_HOME`.
    pub xdg_config_home: Option<String>,
    /// `HOME`.
    pub home: Option<String>,
}

/// `base` joined with each of `parts` in turn.
pub open spec fn joined_all(base: Seq<char>, parts: Seq<Seq<char>>) -> Seq<char>
    decreases parts.len(),
{
    if parts.len() == 0 {
        base
    } else {
        path_joined(joined_all(base, parts.drop_last()), parts.last())
    }
}

/// The config folder under `base` and its former-name twin.
pub open spec fn pair_under(base: Seq<char>, parts: Seq<Seq<char>>) -> (Seq<char>, Seq<char>) {
    (
        path_joined(joined_all(base, parts), "ezicode"@),
        path_joined(joined_all(base, parts), "html2gpui"@),
    )
}

/// The `(ezicode, html2gpui)` config folders the environment points at, or
/// `None` when it gives no base folder.
pub open spec fn spec_config_candidates(env: ConfigEnv) -> Option<(Seq<char>, Seq<char>)> {
    match env.platform {
        ConfigPlatform::Windows => if env.appdata is Some {
            Some(pair_under(env.appdata->0@, seq![]))
        } else if env.userprofile is Some {
            Some(pair_under(env.userprofile->0@, seq!["AppData"@, "Roaming"@]))
        } else {
            None
        },
        ConfigPlatform::MacOs => if env.home is Some {
            Some(pair_under(env.home->0@, seq!["Library"@, "Application Support"@]))
        } else {
            None
        },
        ConfigPlatform::Unix => if env.xdg_config_home is Some {
            Some(pair_under(env.xdg_config_home->0@, seq![]))
        } else if env.home is Some {
            Some(pair_under(env.home->0@, seq![".config"@]))
        } else {
            None
        },
    }
}

/// The config folder and its former-name twin under `base/parts...`.
fn pair_in(base: &str, parts: &[&str]) -> (r: (String, String))
    requires
        parts@.len() <= 2,
    ensures
        (r.0@, r.1@) == pair_under(base@, parts@.map_values(|p: &str| p@)),
{
    let ghost ps = parts@.map_values(|p: &str| p@);
    let mut dir = base.to_string();
    let mut i: usize = 0;
    while i < parts.len()
        invariant
            0 <= i <= parts@.len(),
            ps == parts@.map_values(|p: &str| p@),
            dir@ == joined_all(base@, ps.take(i as int)),
        decreases parts@.len() - i,
    {
        assert(ps.take(i + 1).drop_last() =~= ps.take(i as int));
        dir = path_join(dir.as_str(), parts[i]);
        i = i + 1;
    }
    assert(ps.take(i as int) =~= ps);
    (path_join(dir.as_str(), "ezicode"), path_join(dir.as_str(), "html2gpui"))
}

/// The `(ezicode, html2gpui)` config folders the environment points at.
pub fn config_dir_candidates(env: &ConfigEnv) -> (r: Option<(String, String)>)
    ensures
        match r {
            Some(p) => spec_config_candidates(*env) == Some((p.0@, p.1@)),
            None => spec_config_candidates(*env) is None,
        },
{
    match env.platform {
        ConfigPlatform::Windows => {
            if let Some(a) = &env.appdata {
                let parts: [&str; 0] = [];
                let r = pair_in(a.as_str(), &parts);
                assert(parts@.map_values(|p: &str| p@) =~= seq![]);
                Some(r)
            } else if let Some(u) = &env.userprofile {
                let parts = ["AppData", "Roaming"];
                let r = pair_in(u.as_str(), &parts);
                assert(parts@.map_values(|p: &str| p@) =~= seq!["AppData"@, "Roaming"@]);
                Some(r)
            } else {
                None
            }
        },
        ConfigPlatform::MacOs => {
            if let Some(h) = &env.home {
                let parts = ["Library", "Application Support"];
                let r = pair_in(h.as_str(), &parts);
                assert(parts@.map_values(|p: &str| p@) =~= seq!["Library"@, "Application Support"@]);
                Some(r)
            } else {
                None
            }
        },
        ConfigPlatform::Unix => {
            if let Some(x) = &env.xdg_config_home {
                let parts: [&str; 0] = [];
                let r = pair_in(x.as_str(), &parts);
                assert(parts@.map_values(|p: &str| p@) =~= seq![]);
                Some(r)
            } else if let Some(h) = &env.home {
                let parts = [".config"];
                let r = pair_in(h.as_str(), &parts);
                assert(parts@.map_values(|p: &str| p@) =~= seq![".config"@]);
                Some(r)
            } else {
                None
            }
        },
    }
}

/// The config folder: the `ezicode` candidate, unless only its former-name
/// twin exists; `./config` when the environment gives no base folder.
pub open spec fn spec_config_dir(
    candidates: Option<(Seq<char>, Seq<char>)>,
    current_exists: bool,
    legacy_exists: bool,
) -> Seq<char> {
    match candidates {
        Some((current, legacy)) => if !current_exists && legacy_exists {
            legacy
        } else {
            current
        },
        None => path_joined("."@, "config"@),
    }
}

/// The folder that holds `settings.json`, from the candidates and whether
/// each of them exists.
pub fn config_dir(candidates: Option<(String, String)>, current_exists: bool, legacy_exists: bool) -> (r: String)
    ensures
        r@ == spec_config_dir(
            match candidates {
                Some(p) => Some((p.0@, p.1@)),
                None => None,
            },
            current_exists,
            legacy_exists,
        ),
{
    match candidates {
        Some((current, legacy)) => if !current_exists && legacy_exists {
            legacy
        } else {
            current
        },
        None => path_join(".", "config"),
    }
}

/// The full path of `settings.json`.
pub fn settings_file_path(config_dir: &str) -> (r: String)
    ensures
        r@ == path_joined(config_dir@, "settings.json"@),
{
    path_join(config_dir, "settings.json")
}

/// Saving after a delay: each edit takes a new ticket, and a save that was
/// waiting runs only when no later edit took one.
#[derive(Clone, Copy, Debug, PartialEq, Eq, Structural)]
pub struct AutoSaveTimer {
    pub generation: usize,
}

/// The ticket after `g`, wrapping round.
pub open spec fn next_generation(g: usize) -> usize {
    if g == usize::MAX {
        0
    } else {
        (g + 1) as usize
    }
}

impl AutoSaveTimer {
    /// An edit under the auto-save `mode`: with saving after a delay, a new
    /// ticket for the save to wait with; otherwise nothing.
    pub fn schedule(&mut self, mode: AutoSaveMode) -> (r: Option<usize>)
        ensures
            mode == AutoSaveMode::AfterDelay ==> final(self).generation == next_generation(old(self).generation) && r
                == Some(final(self).generation),
            mode != AutoSaveMode::AfterDelay ==> *final(self) == *old(self) && r is None,
    {
        if mode != AutoSaveMode::AfterDelay {
            return None;
        }
        self.generation = self.generation.wrapping_add(1);
        Some(self.generation)
    }

    /// Whether the save waiting with `ticket` is still the latest.
    pub fn is_current(&self, ticket: usize) -> (r: bool)
        ensures
            r == (ticket == self.generation),
    {
        ticket == self.generation
    }
}

/// Whether switching tabs or focus saves the dirty tabs.
pub fn saves_on_focus_change(mode: AutoSaveMode) -> (r: bool)
    ensures
        r == (mode == AutoSaveMode::OnFocusChange),
{
    mode == AutoSaveMode::OnFocusChange
}

/// A save that waited is dropped once a later edit took a new ticket.
pub proof fn lemma_later_edit_cancels_save(g: usize)
    ensures
        next_generation(next_generation(g)) != next_generation(g),
{
}

} // verus!
