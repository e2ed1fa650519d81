//! The integrated terminals: the state of a shell process, the name a
//! shell is shown by, and the panel that holds the terminals, with the
//! status line that each change of it reports.

use crate::text::{chars_of, decimal, ends_with, has_suffix, push_all, push_decimal, string_of};
use vstd::prelude::*;

verus! {

/// Whether the shell runs, exited with a code, or could not be started.
#[derive(Clone, Copy, Debug, PartialEq, Eq, Structural)]
pub enum TerminalState {
    Running,
    Exited(i32),
    Error,
}

/// The name a shell is shown by, from its path.
pub open spec fn shell_name_of(shell: Seq<char>) -> Seq<char> {
    if has_suffix(shell, "zsh"@) {
        "zsh"@
    } else if has_suffix(shell, "fish"@) {
        "fish"@
    } else if has_suffix(shell, "nu"@) {
        "nu"@
    } else if has_suffix(shell, "sh"@) {
        "sh"@
    } else {
        "bash"@
    }
}

/// The name a shell is shown by, given the path of the shell program.
pub fn shell_name(shell: &str) -> (r: &'static str)
    ensures
        r@ == shell_name_of(shell@),
{
    let cs = chars_of(shell);
    if ends_with(cs.as_slice(), chars_of("zsh").as_slice()) {
        "zsh"
    } else if ends_with(cs.as_slice(), chars_of("fish").as_slice()) {
        "fish"
    } else if ends_with(cs.as_slice(), chars_of("nu").as_slice()) {
        "nu"
    } else if ends_with(cs.as_slice(), chars_of("sh").as_slice()) {
        "sh"
    } else {
        "bash"
    }
}

/// The label of a new terminal: its shell's name and its number.
pub fn terminal_label(shell_name: &str, id: usize) -> (r: String)
    ensures
        r@ == shell_name@ + " "@ + decimal(id as nat),
{
    let mut cs = chars_of(shell_name);
    push_all(&mut cs, chars_of(" ").as_slice());
    push_decimal(&mut cs, id as u64);
    string_of(cs.as_slice())
}

/// Records what a check of the shell process found: a terminal that no
/// longer runs stays as it is; a running one whose process (`pid`) is
/// gone, as `alive` tells, has exited. Says whether the terminal has
/// stopped running.
pub fn check_process_exit(state: &mut TerminalState, pid: Option<u32>, alive: bool) -> (r: bool)
    ensures
        *old(state) != TerminalState::Running ==> r && *final(state) == *old(state),
        *old(state) == TerminalState::Running ==> (r <==> (pid is Some && !alive)),
        *old(state) == TerminalState::Running ==> *final(state) == if r {
            TerminalState::Exited(0)
        } else {
            TerminalState::Running
        },
{
    if *state != TerminalState::Running {
        return true;
    }
    if pid.is_some() && !alive {
        *state = TerminalState::Exited(0);
        return true;
    }
    false
}

/// The terminal panel: how many terminals are open, which one is active,
/// whether the panel shows and fills the window, and the number the next
/// terminal gets.
#[derive(Clone, Copy, Debug, PartialEq, Eq, Structural)]
pub struct TerminalPanel {
    pub count: usize,
    pub active: usize,
    pub visible: bool,
    pub maximized: bool,
    pub next_id: usize,
}

/// What showing or hiding the panel asks for.
#[derive(Clone, Copy, Debug, PartialEq, Eq, Structural)]
pub enum TerminalToggle {
    /// The panel was hidden.
    Hidden,
    /// The panel shows, and has no terminal yet: one is to be created.
    CreateNew,
    /// The panel shows its active terminal.
    Shown,
}

/// "Terminal <n> active".
pub open spec fn active_status(n: nat) -> Seq<char> {
    "Terminal "@ + decimal(n) + " active"@
}

/// "Terminal <n> closed — <m> terminal(s) remain".
pub open spec fn closed_status(n: nat, remaining: nat) -> Seq<char> {
    "Terminal "@ + decimal(n) + " closed — "@ + decimal(remaining) + " terminal(s) remain"@
}

/// The active terminal after the one at `index` of `count` closed, when
/// others remain.
pub open spec fn terminal_after_close(count: int, active: int, index: int) -> int {
    if active >= count - 1 {
        count - 2
    } else if index < active {
        active - 1
    } else {
        active
    }
}

fn status_with_number(before: &str, n: usize, after: &str) -> (r: String)
    ensures
        r@ == before@ + decimal(n as nat) + after@,
{
    let mut cs = chars_of(before);
    push_decimal(&mut cs, n as u64);
    push_all(&mut cs, chars_of(after).as_slice());
    string_of(cs.as_slice())
}

impl TerminalPanel {
    /// No terminals, the panel hidden; the first terminal gets number one.
    pub fn new() -> (r: Self)
        ensures
            r == (TerminalPanel { count: 0, active: 0, visible: false, maximized: false, next_id: 1 }),
    {
        TerminalPanel { count: 0, active: 0, visible: false, maximized: false, next_id: 1 }
    }

    /// The active index names a terminal, or there are none and it is zero.
    pub open spec fn wf(self) -> bool {
        self.active < self.count || (self.count == 0 && self.active == 0)
    }

    /// Hides the panel, which also stops it filling the window.
    pub fn hide_panel(&mut self) -> (r: &'static str)
        ensures
            *final(self) == (TerminalPanel { visible: false, maximized: false, ..*old(self) }),
            r@ == "Terminal hidden"@,
    {
        self.visible = false;
        self.maximized = false;
        "Terminal hidden"
    }

    /// Hides a shown panel; shows a hidden one, asking for a first terminal
    /// when there is none.
    pub fn toggle(&mut self) -> (r: TerminalToggle)
        ensures
            old(self).visible ==> r == TerminalToggle::Hidden && *final(self) == (TerminalPanel {
                visible: false,
                maximized: false,
                ..*old(self)
            }),
            !old(self).visible ==> *final(self) == (TerminalPanel { visible: true, ..*old(self) }) && r == if old(
                self,
            ).count == 0 {
                TerminalToggle::CreateNew
            } else {
                TerminalToggle::Shown
            },
    {
        if self.visible {
            self.hide_panel();
            return TerminalToggle::Hidden;
        }
        self.visible = true;
        if self.count == 0 {
            TerminalToggle::CreateNew
        } else {
            TerminalToggle::Shown
        }
    }

    /// Adds a terminal and makes it active and shown. Gives its number and
    /// the status line.
    pub fn add_terminal(&mut self) -> (r: (usize, String))
        requires
            old(self).count < usize::MAX,
            old(self).next_id < usize::MAX,
        ensures
            r.0 == old(self).next_id,
            *final(self) == (TerminalPanel {
                count: (old(self).count + 1) as usize,
                active: old(self).count,
                visible: true,
                next_id: (old(self).next_id + 1) as usize,
                ..*old(self)
            }),
            r.1@ == "Terminal "@ + decimal((old(self).count + 1) as nat) + " created"@,
    {
        let id = self.next_id;
        self.next_id = self.next_id + 1;
        self.count = self.count + 1;
        self.active = self.count - 1;
        self.visible = true;
        (id, status_with_number("Terminal ", self.active + 1, " created"))
    }

    /// Makes the terminal at `index` active, when there is one; gives the
    /// status line then.
    pub fn activate(&mut self, index: usize) -> (r: Option<String>)
        ensures
            index < old(self).count ==> *final(self) == (TerminalPanel { active: index, ..*old(self) }) && (r matches Some(s) && s@ == active_status((index + 1) as nat)),
            index >= old(self).count ==> *final(self) == *old(self) && r is None,
    {
        if index >= self.count {
            return None;
        }
        self.active = index;
        Some(status_with_number("Terminal ", index + 1, " active"))
    }

    /// Makes the panel fill the window or not; a hidden panel shows, filling
    /// the window.
    pub fn toggle_maximized(&mut self)
        ensures
            !old(self).visible ==> *final(self) == (TerminalPanel { visible: true, maximized: true, ..*old(self) }),
            old(self).visible ==> *final(self) == (TerminalPanel { maximized: !old(self).maximized, ..*old(self) }),
    {
        if !self.visible {
            self.visible = true;
            self.maximized = true;
        } else {
            self.maximized = !self.maximized;
        }
    }

    /// Closes the terminal at `index`, when there is one; the panel hides
    /// when none remain. Gives the status line then.
    pub fn close(&mut self, index: usize) -> (r: Option<String>)
        ensures
            index >= old(self).count ==> *final(self) == *old(self) && r is None,
            index < old(self).count && old(self).count == 1 ==> *final(self) == (TerminalPanel {
                count: 0,
                active: 0,
                visible: false,
                ..*old(self)
            }) && (r matches Some(s) && s@ == "Terminal closed"@),
            index < old(self).count && old(self).count > 1 ==> *final(self) == (TerminalPanel {
                count: (old(self).count - 1) as usize,
                active: terminal_after_close(old(self).count as int, old(self).active as int, index as int) as usize,
                ..*old(self)
            }) && (r matches Some(s) && s@ == closed_status((index + 1) as nat, (old(self).count - 1) as nat)),
    {
        if index >= self.count {
            return None;
        }
        self.count = self.count - 1;
        if self.count == 0 {
            self.active = 0;
            self.visible = false;
            return Some("Terminal closed".to_string());
        }
        if self.active >= self.count {
            self.active = self.count - 1;
        } else if index < self.active {
            self.active = self.active - 1;
        }
        let mut cs = chars_of("Terminal ");
        push_decimal(&mut cs, (index + 1) as u64);
        push_all(&mut cs, chars_of(" closed — ").as_slice());
        push_decimal(&mut cs, self.count as u64);
        push_all(&mut cs, chars_of(" terminal(s) remain").as_slice());
        Some(string_of(cs.as_slice()))
    }

    /// Closes the active terminal, when there is one.
    pub fn close_active(&mut self) -> (r: Option<String>)
        ensures
            old(self).count == 0 ==> *final(self) == *old(self) && r is None,
            old(self).count > 0 && old(self).count == 1 && old(self).active < old(self).count ==> final(self).count == 0,
            old(self).count > 0 && old(self).active < old(self).count ==> final(self).count == old(self).count - 1,
    {
        if self.count == 0 {
            return None;
        }
        let a = self.active;
        self.close(a)
    }

    /// With more than one terminal, makes the next one active, wrapping
    /// round; gives the status line then.
    pub fn next(&mut self) -> (r: Option<String>)
        requires
            old(self).wf(),
        ensures
            old(self).count <= 1 ==> *final(self) == *old(self) && r is None,
            old(self).count > 1 ==> *final(self) == (TerminalPanel {
                active: ((old(self).active + 1) % (old(self).count as int)) as usize,
                ..*old(self)
            }) && (r matches Some(s) && s@ == active_status((final(self).active + 1) as nat)),
    {
        let n = self.count;
        if n <= 1 {
            return None;
        }
        let a = self.active;
        self.active = if a + 1 < n { a + 1 } else { 0 };
        assert(self.active == (a + 1) % (n as int)) by {
            if a + 1 < n {
                assert((a + 1) % (n as int) == a + 1) by (nonlinear_arith)
                    requires a + 1 < n;
            } else {
                assert((a + 1) % (n as int) == 0) by (nonlinear_arith)
                    requires a + 1 == n, n > 1;
            }
        }
        Some(status_with_number("Terminal ", self.active + 1, " active"))
    }

    /// With more than one terminal, makes the previous one active, wrapping
    /// round; gives the status line then.
    pub fn prev(&mut self) -> (r: Option<String>)
        requires
            old(self).wf(),
        ensures
            old(self).count <= 1 ==> *final(self) == *old(self) && r is None,
            old(self).count > 1 ==> *final(self) == (TerminalPanel {
                active: ((old(self).active + old(self).count - 1) % (old(self).count as int)) as usize,
                ..*old(self)
            }) && (r matches Some(s) && s@ == active_status((final(self).active + 1) as nat)),
    {
        let n = self.count;
        if n <= 1 {
            return None;
        }
        let a = self.active;
        self.active = if a > 0 { a - 1 } else { n - 1 };
        assert(self.active == (a + n - 1) % (n as int)) by {
            if a > 0 {
                assert((a + n - 1) % (n as int) == a - 1) by (nonlinear_arith)
                    requires 0 < a < n;
            } else {
                assert((n - 1) % (n as int) == n - 1) by (nonlinear_arith)
                    requires 1 < n;
            }
        }
        Some(status_with_number("Terminal ", self.active + 1, " active"))
    }
}

/// Closing a terminal while others remain leaves the active index naming
/// one of them.
pub proof fn lemma_close_keeps_terminal_in_range(count: int, active: int, index: int)
    requires
        count > 1,
        0 <= active < count,
        0 <= index < count,
    ensures
        0 <= terminal_after_close(count, active, index) < count - 1,
{
}

/// Closing a terminal other than the active one keeps the same terminal
/// active: the one that came after the closed one moves down by one.
pub proof fn lemma_close_keeps_active_terminal(count: int, active: int, index: int)
    requires
        count > 1,
        0 <= active < count,
        0 <= index < count,
        index != active,
    ensures
        terminal_after_close(count, active, index) == if index < active { active - 1 } else { active },
{
}

/// The shell a terminal runs and its name. On Windows: Git Bash where it
/// was found (`git_bash`, its path), else `pwsh` where it was found, else
/// Windows PowerShell. Elsewhere: the `SHELL` setting (`/bin/bash` when
/// unset) and the name it is shown by.
pub fn detect_shell(windows: bool, shell_env: Option<&str>, git_bash: Option<&str>, pwsh: Option<&str>) -> (r: (
    String,
    String,
))
    ensures
        windows ==> match (git_bash, pwsh) {
            (Some(b), _) => r.0@ == b@ && r.1@ == "bash"@,
            (None, Some(p)) => r.0@ == p@ && r.1@ == "pwsh"@,
            (None, None) => r.0@ == "powershell.exe"@ && r.1@ == "powershell.exe"@,
        },
        !windows ==> r.0@ == match shell_env {
            Some(s) => s@,
            None => "/bin/bash"@,
        } && r.1@ == shell_name_of(r.0@),
{
    if windows {
        return match (git_bash, pwsh) {
            (Some(b), _) => (b.to_string(), "bash".to_string()),
            (None, Some(p)) => (p.to_string(), "pwsh".to_string()),
            (None, None) => ("powershell.exe".to_string(), "powershell.exe".to_string()),
        };
    }
    let shell = match shell_env {
        Some(s) => s.to_string(),
        None => "/bin/bash".to_string(),
    };
    let name = shell_name(shell.as_str()).to_string();
    (shell, name)
}

/// The folder a new terminal starts in: the workspace folder, else the
/// home folder.
pub fn working_dir(root: Option<&str>, home: Option<&str>) -> (r: Option<String>)
    ensures
        match r {
            Some(d) => (root matches Some(x) && d@ == x@) || (root is None && (home matches Some(h) && d@ == h@)),
            None => root is None && home is None,
        },
{
    match root {
        Some(x) => Some(x.to_string()),
        None => match home {
            Some(h) => Some(h.to_string()),
            None => None,
        },
    }
}

/// The environment a terminal's shell gets, as name and value pairs.
pub fn shell_environment() -> (r: Vec<(&'static str, &'static str)>)
    ensures
        r@.len() == 6,
        r@[0].0@ == "TERM"@ && r@[0].1@ == "xterm-256color"@,
        r@[1].0@ == "COLORTERM"@ && r@[1].1@ == "truecolor"@,
        r@[2].0@ == "TERM_PROGRAM"@ && r@[2].1@ == "zed"@,
        r@[3].0@ == "TERM_PROGRAM_VERSION"@ && r@[3].1@ == "0.1.0"@,
        r@[4].0@ == "LANG"@ && r@[4].1@ == "en_US.UTF-8"@,
        r@[5].0@ == "LC_ALL"@ && r@[5].1@ == "en_US.UTF-8"@,
{
    let mut v: Vec<(&'static str, &'static str)> = Vec::new();
    v.push(("TERM", "xterm-256color"));
    v.push(("COLORTERM", "truecolor"));
    v.push(("TERM_PROGRAM", "zed"));
    v.push(("TERM_PROGRAM_VERSION", "0.1.0"));
    v.push(("LANG", "en_US.UTF-8"));
    v.push(("LC_ALL", "en_US.UTF-8"));
    v
}

} // verus!
