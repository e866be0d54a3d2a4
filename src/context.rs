//! Shared context of workflow operations.
use vstd::prelude::*;
use vstd::string::*;

verus! {

/// Why a workflow cannot start.
pub enum ContextError {
    NotInRepo,
    /// The main worktree root could not be found.
    NoMainWorktree,
    /// The git common directory could not be found.
    NoCommonDir,
    /// No main branch is configured and none could be determined.
    NoMainBranch,
    /// The multiplexer server is not running.
    MuxNotRunning { backend: String },
}

/// Data gathered once before a workflow operation.
pub struct WorkflowContext {
    pub main_worktree_root: String,
    pub git_common_dir: String,
    pub main_branch: String,
    pub prefix: String,
}

impl WorkflowContext {
    /// Assembles the context from what git reports. The configured main branch
    /// wins over the repository's default branch.
    pub fn new(
        in_repo: bool,
        main_worktree_root: Option<String>,
        git_common_dir: Option<String>,
        configured_branch: Option<String>,
        default_branch: Option<String>,
        prefix: String,
    ) -> (r: Result<WorkflowContext, ContextError>)
        ensures
            !in_repo ==> r matches Err(ContextError::NotInRepo),
            in_repo && main_worktree_root is None ==> r matches Err(ContextError::NoMainWorktree),
            in_repo && main_worktree_root is Some && git_common_dir is None ==> r matches Err(
                ContextError::NoCommonDir,
            ),
            in_repo && main_worktree_root is Some && git_common_dir is Some && configured_branch is None
                && default_branch is None ==> r matches Err(ContextError::NoMainBranch),
            r matches Ok(c) ==> {
                &&& in_repo
                &&& main_worktree_root == Some(c.main_worktree_root)
                &&& git_common_dir == Some(c.git_common_dir)
                &&& c.main_branch == match configured_branch {
                    Some(b) => b,
                    None => default_branch->0,
                }
                &&& c.prefix == prefix
            },
            in_repo && main_worktree_root is Some && git_common_dir is Some && (configured_branch is Some
                || default_branch is Some) ==> r is Ok,
    {
        if !in_repo {
            return Err(ContextError::NotInRepo);
        }
        let main_worktree_root = match main_worktree_root {
            Some(r) => r,
            None => {
                return Err(ContextError::NoMainWorktree);
            },
        };
        let git_common_dir = match git_common_dir {
            Some(d) => d,
            None => {
                return Err(ContextError::NoCommonDir);
            },
        };
        let main_branch = match configured_branch {
            Some(b) => b,
            None => match default_branch {
                Some(b) => b,
                None => {
                    return Err(ContextError::NoMainBranch);
                },
            },
        };
        Ok(WorkflowContext { main_worktree_root, git_common_dir, main_branch, prefix })
    }

    /// Fails with a user-facing error unless the multiplexer is running.
    pub fn ensure_mux_running(&self, running: bool, backend: &str) -> (r: Result<(), ContextError>)
        ensures
            running ==> r is Ok,
            !running ==> (r matches Err(ContextError::MuxNotRunning { backend: b }) && b@ == backend@),
    {
        if !running {
            return Err(ContextError::MuxNotRunning { backend: String::from_str(backend) });
        }
        Ok(())
    }

    /// Same as `ensure_mux_running`.
    pub fn ensure_tmux_running(&self, running: bool, backend: &str) -> (r: Result<(), ContextError>)
        ensures
            running ==> r is Ok,
            !running ==> (r matches Err(ContextError::MuxNotRunning { backend: b }) && b@ == backend@),
    {
        self.ensure_mux_running(running, backend)
    }
}

/// The message shown when the multiplexer is not running.
pub fn mux_not_running_message(backend: &str) -> (r: String)
    ensures
        r@ == backend@ + " is not running. Please start a "@ + backend@ + " session first."@,
{
    let mut out = String::from_str(backend);
    out.append(" is not running. Please start a ");
    out.append(backend);
    out.append(" session first.");
    out
}

} // verus!
