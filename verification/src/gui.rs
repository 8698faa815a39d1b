//! What a GUI window does once a workspace has been opened, cloned or
//! initialised: its title, whether it holds a workspace, whether the
//! workspace joins the recent list, and what the frontend is told.
use vstd::prelude::*;
use vstd::string::*;

use crate::messages::mutations::MutationResult;
use crate::messages::{MultilineString, RepoConfig};
use crate::text::{is_white_space, lemma_trim_start_append, lemma_trim_start_of_trimmed, opt_text, split_char, trim, trim_end, trim_start, trim_str};

verus! {

/// The state of a window after a workspace was loaded into it (or failed to
/// load).
#[derive(Clone, Debug)]
pub struct WindowState {
    /// Whether the window holds a workspace.
    pub has_workspace: bool,
    /// The window title.
    pub title: String,
    /// The workspace path to add to the recent workspaces, if any.
    pub record_recent: Option<String>,
}

/// The window state that a loaded configuration implies.
pub open spec fn window_state_ok(config: RepoConfig, s: WindowState) -> bool {
    match config {
        RepoConfig::Workspace { absolute_path, track_recent_workspaces, .. } => {
            &&& s.has_workspace
            &&& s.title@ == "GG - "@ + absolute_path.0@
            &&& (if track_recent_workspaces {
                s.record_recent matches Some(p) && p@ == absolute_path.0@
            } else {
                s.record_recent is None
            })
        },
        _ => {
            &&& !s.has_workspace
            &&& s.title@ == "GG - Gui for JJ"@
            &&& s.record_recent is None
        },
    }
}

/// Decides the window state after loading `config`.
pub fn window_state_for(config: &RepoConfig) -> (r: WindowState)
    ensures
        window_state_ok(*config, r),
{
    match config {
        RepoConfig::Workspace { absolute_path, track_recent_workspaces, .. } => {
            let mut title = String::from_str("GG - ");
            title.append(absolute_path.0.as_str());
            let record_recent = if *track_recent_workspaces {
                Some(String::from_str(absolute_path.0.as_str()))
            } else {
                None
            };
            WindowState { has_workspace: true, title, record_recent }
        },
        _ => WindowState {
            has_workspace: false,
            title: String::from_str("GG - Gui for JJ"),
            record_recent: None,
        },
    }
}

/// What the frontend is told after a repository was initialised or cloned
/// and reopened: nothing changed when another window took it, the new
/// configuration when this window did, or the error.
pub fn reopen_outcome(reopened: Result<Option<RepoConfig>, String>) -> (r: MutationResult)
    ensures
        match reopened {
            Ok(None) => r is Unchanged,
            Ok(Some(c)) => r == (MutationResult::Reconfigured { new_config: c }),
            Err(e) => (r matches MutationResult::InternalError { message }
                && message.line_views() == split_char(e@, '\n')),
        },
{
    match reopened {
        Ok(None) => MutationResult::Unchanged,
        Ok(Some(new_config)) => MutationResult::Reconfigured { new_config },
        Err(e) => MutationResult::InternalError { message: MultilineString::from_text(e.as_str()) },
    }
}

// ---------------------------------------------------------------------------
// Window titles
// ---------------------------------------------------------------------------

/// Which of the candidate titles (longest first) a window shows, given for
/// each whether it fits the title bar: the first that fits, else the last,
/// and none when there is no candidate.
pub fn fitting_title(fits: &[bool]) -> (r: Option<usize>)
    ensures
        match r {
            Some(i) => i < fits@.len() && ((fits@[i as int] && forall|j: int| 0 <= j < i ==> !fits@[j])
                || (i == fits@.len() - 1 && forall|j: int| 0 <= j < fits@.len() ==> !fits@[j])),
            None => fits@.len() == 0,
        },
{
    let mut i: usize = 0;
    while i < fits.len()
        invariant
            i <= fits@.len(),
            forall|j: int| 0 <= j < i ==> !fits@[j],
        decreases fits@.len() - i,
    {
        if fits[i] {
            return Some(i);
        }
        i = i + 1;
    }
    if fits.len() > 0 {
        Some(fits.len() - 1)
    } else {
        None
    }
}

// ---------------------------------------------------------------------------
// Forwarding to a running instance
// ---------------------------------------------------------------------------

/// The line a second launch sends to the running instance: the workspace
/// path, or nothing, ended by a newline.
pub open spec fn forward_line_spec(workspace: Option<Seq<char>>) -> Seq<char> {
    match workspace {
        Some(p) => p + seq!['\n'],
        None => seq!['\n'],
    }
}

/// Builds the line that forwards a workspace to the running instance.
pub fn forward_line(workspace: Option<&str>) -> (r: String)
    ensures
        r@ == forward_line_spec(opt_text(workspace)),
{
    let mut line = match workspace {
        Some(p) => String::from_str(p),
        None => String::new(),
    };
    line.append("\n");
    proof {
        reveal_strlit("\n");
    }
    line
}

/// The workspace a forwarded line asks to open: its trimmed text, or none
/// when that is empty.
pub open spec fn forwarded_workspace_spec(line: Seq<char>) -> Option<Seq<char>> {
    if trim(line).len() == 0 {
        None
    } else {
        Some(trim(line))
    }
}

/// Reads the workspace out of a forwarded line.
pub fn parse_forwarded_line(line: &str) -> (r: Option<String>)
    ensures
        match (r, forwarded_workspace_spec(line@)) {
            (Some(a), Some(b)) => a@ == b,
            (None, None) => true,
            _ => false,
        },
{
    let t = trim_str(line);
    if t.unicode_len() == 0 {
        None
    } else {
        Some(t)
    }
}

/// A workspace forwarded to the running instance arrives as it was sent,
/// provided its path has no white space at either end; no workspace arrives
/// as none.
pub proof fn law_forwarded_workspace_arrives(workspace: Option<Seq<char>>)
    requires
        workspace matches Some(p) ==> trim(p) == p && p.len() > 0,
    ensures
        forwarded_workspace_spec(forward_line_spec(workspace)) == workspace,
{
    match workspace {
        Some(p) => {
            let line = p + seq!['\n'];
            assert(line.drop_last() =~= p);
            assert(is_white_space(line.last()));
            assert(trim_end(line) == trim_end(p));
            lemma_trim_start_of_trimmed(p);
            lemma_trim_start_append(p, seq!['\n']);
            assert(trim(line) == trim_end(trim_start(p) + seq!['\n']));
            assert((trim_start(p) + seq!['\n']).drop_last() =~= trim_start(p));
        },
        None => {
            let line = seq!['\n'];
            assert(is_white_space(line[0]));
            assert(line.drop_first() =~= Seq::<char>::empty());
            assert(trim_start(line) == trim_start(Seq::<char>::empty()));
        },
    }
}

}
