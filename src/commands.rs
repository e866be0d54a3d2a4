//! Decisions behind the user-facing commands.
use vstd::prelude::*;
use vstd::string::*;
use crate::done_stack::{DoneStack, pop_spec, push_spec};
use crate::text::{decimal, eq_str, has_prefix, push_decimal, starts_with};

verus! {

/// The status an agent reports for its pane.
pub enum SetWindowStatusCommand {
    /// The agent is processing.
    Working,
    /// The agent needs input; clears on focus.
    Waiting,
    /// The agent finished; clears on focus.
    Done,
    /// No status.
    Clear,
}

/// What to show on the pane after a status change.
pub enum StatusChange {
    Working,
    Waiting,
    Done,
    Clear,
}

/// Applies a status change of `pane` to the done stack and says what to show.
/// Outside a multiplexer pane nothing happens.
pub fn run(cmd: SetWindowStatusCommand, pane: Option<&str>, stack: &mut DoneStack) -> (r: Option<
    StatusChange,
>)
    ensures
        match pane {
            None => r is None && final(stack)@ == old(stack)@,
            Some(p) => match cmd {
                SetWindowStatusCommand::Done => r matches Some(StatusChange::Done) && final(stack)@
                    == push_spec(old(stack)@, p@),
                SetWindowStatusCommand::Working => r matches Some(StatusChange::Working) && final(stack)@ == pop_spec(old(stack)@, p@),
                SetWindowStatusCommand::Waiting => r matches Some(StatusChange::Waiting) && final(stack)@ == pop_spec(old(stack)@, p@),
                SetWindowStatusCommand::Clear => r matches Some(StatusChange::Clear) && final(stack)@
                    == pop_spec(old(stack)@, p@),
            },
        },
{
    let p = match pane {
        Some(p) => p,
        None => {
            return None;
        },
    };
    match cmd {
        SetWindowStatusCommand::Done => {
            stack.push(p);
            Some(StatusChange::Done)
        },
        SetWindowStatusCommand::Working => {
            stack.pop(p);
            Some(StatusChange::Working)
        },
        SetWindowStatusCommand::Waiting => {
            stack.pop(p);
            Some(StatusChange::Waiting)
        },
        SetWindowStatusCommand::Clear => {
            stack.pop(p);
            Some(StatusChange::Clear)
        },
    }
}

/// How a worktree is bound to the multiplexer.
pub enum TmuxTarget {
    Window,
    Session,
}

/// The binding recorded in the worktree's metadata; window when none is recorded.
pub fn get_worktree_target(meta: Option<&str>) -> (r: TmuxTarget)
    ensures
        r == match meta {
            Some(m) => if m@ == "session"@ {
                TmuxTarget::Session
            } else {
                TmuxTarget::Window
            },
            None => TmuxTarget::Window,
        },
{
    match meta {
        Some(m) => if eq_str(m, "session") {
            TmuxTarget::Session
        } else {
            TmuxTarget::Window
        },
        None => TmuxTarget::Window,
    }
}

/// The window `close` acts on, and whether it is the current one. A named handle
/// is prefixed; without one, the current window is used if it is managed,
/// otherwise the handle of the current worktree.
pub open spec fn close_target_spec(
    name: Option<Seq<char>>,
    prefix: Seq<char>,
    resolved_handle: Seq<char>,
    current: Option<Seq<char>>,
) -> (Seq<char>, bool) {
    match name {
        Some(h) => (prefix + h, current == Some(prefix + h)),
        None => match current {
            Some(c) => if has_prefix(c, prefix) {
                (c, true)
            } else {
                (prefix + resolved_handle, false)
            },
            None => (prefix + resolved_handle, false),
        },
    }
}

pub open spec fn ov(o: Option<&str>) -> Option<Seq<char>> {
    match o {
        Some(s) => Some(s@),
        None => None,
    }
}

/// Chooses the window that `close` acts on.
pub fn resolve_close_target(
    name: Option<&str>,
    prefix: &str,
    resolved_handle: &str,
    current_window: Option<&str>,
) -> (r: (String, bool))
    ensures
        (r.0@, r.1) == close_target_spec(ov(name), prefix@, resolved_handle@, ov(current_window)),
{
    match name {
        Some(h) => {
            let mut full = String::from_str(prefix);
            full.append(h);
            let is_current = match current_window {
                Some(c) => eq_str(c, full.as_str()),
                None => false,
            };
            (full, is_current)
        },
        None => {
            if let Some(c) = current_window {
                if starts_with(c, prefix) {
                    return (String::from_str(c), true);
                }
            }
            let mut full = String::from_str(prefix);
            full.append(resolved_handle);
            (full, false)
        },
    }
}

/// The worktree handle of a managed window name.
pub fn handle_of<'a>(full_name: &'a str, prefix: &str) -> (r: Option<&'a str>)
    ensures
        match r {
            Some(h) => has_prefix(full_name@, prefix@) && full_name@ == prefix@ + h@,
            None => !has_prefix(full_name@, prefix@),
        },
{
    if !starts_with(full_name, prefix) {
        return None;
    }
    let n = full_name.unicode_len();
    let m = prefix.unicode_len();
    let h = full_name.substring_char(m, n);
    assert(full_name@ =~= prefix@ + h@);
    Some(h)
}

/// A pull request as the list view shows it.
pub struct PrSummary {
    pub number: u64,
    pub state: String,
    pub is_draft: bool,
}

/// Icon and color of a pull request state: gray for a draft, green for open,
/// purple for merged, red for closed.
pub open spec fn pr_style(state: Seq<char>, is_draft: bool) -> (Seq<char>, Seq<char>) {
    if state == "OPEN"@ && is_draft {
        ("\u{f177}"@, "\x1b[90m"@)
    } else if state == "OPEN"@ {
        ("\u{f407}"@, "\x1b[32m"@)
    } else if state == "MERGED"@ {
        ("\u{f419}"@, "\x1b[35m"@)
    } else if state == "CLOSED"@ {
        ("\u{f406}"@, "\x1b[31m"@)
    } else {
        ("\u{f407}"@, "\x1b[32m"@)
    }
}

/// The PR column of the list view.
pub fn format_pr_status(pr: Option<&PrSummary>) -> (r: String)
    ensures
        r@ == match pr {
            Some(p) => "#"@ + decimal(p.number as nat) + " "@ + pr_style(p.state@, p.is_draft).1
                + pr_style(p.state@, p.is_draft).0 + "\x1b[0m"@,
            None => "-"@,
        },
{
    match pr {
        None => String::from_str("-"),
        Some(p) => {
            let s = p.state.as_str();
            let (icon, color) = if eq_str(s, "OPEN") && p.is_draft {
                ("\u{f177}", "\x1b[90m")
            } else if eq_str(s, "OPEN") {
                ("\u{f407}", "\x1b[32m")
            } else if eq_str(s, "MERGED") {
                ("\u{f419}", "\x1b[35m")
            } else if eq_str(s, "CLOSED") {
                ("\u{f406}", "\x1b[31m")
            } else {
                ("\u{f407}", "\x1b[32m")
            };
            let mut out = String::from_str("#");
            push_decimal(&mut out, p.number);
            out.append(" ");
            out.append(color);
            out.append(icon);
            out.append("\x1b[0m");
            out
        },
    }
}

/// Sandbox management subcommands.
pub enum SandboxCommand {
    /// Authenticate with the agent inside the sandbox container.
    Auth,
    /// Build the sandbox container image.
    Build { force: bool },
    /// Delete unused VMs.
    Prune { force: bool },
    /// Run a command inside a VM sandbox (used by pane setup).
    Run { worktree: String, command: Vec<String> },
    /// Stop VMs.
    Stop { name: Option<String>, all: bool, yes: bool },
}

/// Arguments of `sandbox`.
pub struct SandboxArgs {
    pub command: SandboxCommand,
}

/// What `pathdiff::diff_paths(path, base)` yields, as displayed text.
pub uninterp spec fn relative_path_of(path: Seq<char>, base: Seq<char>) -> Option<Seq<char>>;

/// Relies on pathdiff::diff_paths: `path` relative to `base`, when it can be
/// expressed; the result depends on the two paths alone.
#[verifier::external_body]
fn relative_path(path: &str, base: &str) -> (r: Option<String>)
    ensures
        match r {
            Some(s) => relative_path_of(path@, base@) == Some(s@),
            None => relative_path_of(path@, base@) is None,
        },
{
    pathdiff::diff_paths(path, base).map(|p| p.display().to_string())
}

/// The PATH column entry for a worktree, given its path relative to the current
/// directory when there is one: `(here)` for the current directory itself.
pub open spec fn path_label_spec(relative: Option<Seq<char>>, full: Seq<char>) -> Seq<char> {
    match relative {
        Some(s) => if s.len() == 0 || s == "."@ {
            "(here)"@
        } else {
            s
        },
        None => full,
    }
}

/// Chooses the PATH column entry from a relative path.
pub fn path_label(relative: Option<&str>, full: &str) -> (r: String)
    ensures
        r@ == path_label_spec(ov(relative), full@),
{
    match relative {
        Some(s) => if s.unicode_len() == 0 || eq_str(s, ".") {
            String::from_str("(here)")
        } else {
            String::from_str(s)
        },
        None => String::from_str(full),
    }
}

/// The PATH column entry of the worktree at `path`, seen from `current_dir`.
pub fn display_path(path: &str, current_dir: &str) -> (r: String)
    ensures
        r@ == path_label_spec(relative_path_of(path@, current_dir@), path@),
{
    let rel = relative_path(path, current_dir);
    match rel {
        Some(s) => path_label(Some(s.as_str()), path),
        None => path_label(None, path),
    }
}

} // verus!
