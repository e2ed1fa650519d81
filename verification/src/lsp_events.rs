//! How the workspace answers what its language servers report: the status
//! line it shows, and whether a server is started again for the open
//! buffers.

use crate::text::{chars_of, push_all, string_of};
use vstd::prelude::*;

verus! {

/// What a language server reports. Diagnostics carry the file they are for;
/// the diagnostics themselves go to the problems list as they came.
#[derive(Clone, Debug, PartialEq, Eq)]
pub enum LspEvent {
    Diagnostics { path: String },
    Status { lang: String, message: String },
    /// A background install finished; the server can start.
    ServerReady { server: String },
    ServerFailed { server: String, reason: String },
    Initialized { server: String },
    /// The server process ended.
    ServerExited { server: String },
}

/// What the workspace does about one event.
#[derive(Clone, Debug, PartialEq, Eq)]
pub struct LspReaction {
    /// The new status line, if it changes.
    pub status: Option<String>,
    /// Whether the server is started for every open buffer it can analyse.
    pub restart_server: bool,
    /// Whether the view is redrawn.
    pub redraw: bool,
}

/// The status line for an event, given whether an exited server was still
/// running (an exit that was asked for shows nothing).
pub open spec fn lsp_status(e: LspEvent, was_running: bool) -> Option<Seq<char>> {
    match e {
        LspEvent::Diagnostics { .. } => None,
        LspEvent::Status { lang, message } => Some(lang@ + ": "@ + message@),
        LspEvent::ServerReady { server } => Some(server@ + " ready"@),
        LspEvent::ServerFailed { server, reason } => Some(server@ + ": "@ + reason@),
        LspEvent::Initialized { .. } => None,
        LspEvent::ServerExited { server } => if was_running {
            Some(server@ + " exited — restarting…"@)
        } else {
            None
        },
    }
}

/// `a`, then `b`, then `c`, as one text.
fn three(a: &str, b: &str, c: &str) -> (r: String)
    ensures
        r@ == a@ + b@ + c@,
{
    let mut cs = chars_of(a);
    push_all(&mut cs, chars_of(b).as_slice());
    push_all(&mut cs, chars_of(c).as_slice());
    string_of(cs.as_slice())
}

/// The workspace's answer to `event`. For `ServerExited`, `was_running`
/// tells whether the client dropped for it was running: only then is the
/// server started again.
pub fn lsp_reaction(event: &LspEvent, was_running: bool) -> (r: LspReaction)
    ensures
        match r.status {
            Some(s) => lsp_status(*event, was_running) == Some(s@),
            None => lsp_status(*event, was_running) is None,
        },
        r.restart_server == match *event {
            LspEvent::ServerReady { .. } => true,
            LspEvent::ServerExited { .. } => was_running,
            _ => false,
        },
        r.redraw == match *event {
            LspEvent::Diagnostics { .. } => false,
            LspEvent::ServerExited { .. } => was_running,
            _ => true,
        },
{
    proof {
        reveal_strlit("");
    }
    match event {
        LspEvent::Diagnostics { .. } => LspReaction { status: None, restart_server: false, redraw: false },
        LspEvent::Status { lang, message } => LspReaction {
            status: Some(three(lang.as_str(), ": ", message.as_str())),
            restart_server: false,
            redraw: true,
        },
        LspEvent::ServerReady { server } => {
            let s = three(server.as_str(), " ready", "");
            assert(s@ =~= server@ + " ready"@);
            LspReaction { status: Some(s), restart_server: true, redraw: true }
        },
        LspEvent::ServerFailed { server, reason } => LspReaction {
            status: Some(three(server.as_str(), ": ", reason.as_str())),
            restart_server: false,
            redraw: true,
        },
        LspEvent::Initialized { .. } => LspReaction { status: None, restart_server: false, redraw: true },
        LspEvent::ServerExited { server } => if was_running {
            let s = three(server.as_str(), " exited — restarting…", "");
            assert(s@ =~= server@ + " exited — restarting…"@);
            LspReaction { status: Some(s), restart_server: true, redraw: true }
        } else {
            LspReaction { status: None, restart_server: false, redraw: false }
        },
    }
}

} // verus!
