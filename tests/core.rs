use workmux::agents::{AgentState, LivePaneInfo, PaneKey, reconcile};
use workmux::commands::{
    PrSummary, SetWindowStatusCommand, StatusChange, TmuxTarget, display_path, format_pr_status,
    get_worktree_target, handle_of, path_label, resolve_close_target, run,
};
use workmux::context::{ContextError, WorkflowContext, mux_not_running_message};
use workmux::done_stack::DoneStack;
use workmux::pane_setup::{PaneConfig, PaneSetup, SetupStep, resolve_command};
use workmux::rpc::{
    NotifyRequest, RpcAction, RpcOp, RpcRequest, RpcResponse, dispatch, immediate_answer, rejection,
    tokens_match,
};
use workmux::shell::shell_quote;
use workmux::shims::{ShimEntry, is_valid_shim_name, shim_names, shim_plan, tmp_link_name};
use workmux::zellij::SplitDirection;

fn live(ids: &[&str]) -> Vec<String> {
    ids.iter().map(|s| s.to_string()).collect()
}

#[test]
fn done_stack_push_push_rotates() {
    let mut s = DoneStack::new();
    s.push("p");
    s.push("q");
    let l = live(&["p", "q"]);
    assert_eq!(s.last_done(&l), Some("q".to_string()));
    assert_eq!(s.last_done(&l), Some("p".to_string()));
    assert_eq!(s.last_done(&l), Some("q".to_string()));
}

#[test]
fn done_stack_three_panes_cycle_front_to_back() {
    let mut s = DoneStack::new();
    s.push("p1");
    s.push("p2");
    s.push("p3");
    let l = live(&["p1", "p2", "p3"]);
    assert_eq!(s.last_done(&l), Some("p3".to_string()));
    assert_eq!(s.last_done(&l), Some("p2".to_string()));
    assert_eq!(s.last_done(&l), Some("p1".to_string()));
    assert_eq!(s.last_done(&l), Some("p3".to_string()));
}

#[test]
fn done_stack_empty_has_no_completed_agents() {
    let mut s = DoneStack::new();
    assert_eq!(s.last_done(&live(&["p"])), None);
}

#[test]
fn done_stack_push_dedups_and_pop_removes() {
    let mut s = DoneStack::new();
    s.push("a");
    s.push("b");
    s.push("a");
    assert_eq!(s.panes(), &live(&["a", "b"]));
    s.pop("a");
    assert_eq!(s.panes(), &live(&["b"]));
    s.pop("zzz");
    assert_eq!(s.panes(), &live(&["b"]));
    // Vanished panes are skipped and dropped.
    let mut t = DoneStack::from_panes(live(&["gone", "b"]));
    assert_eq!(t.last_done(&live(&["b"])), Some("b".to_string()));
    assert_eq!(t.panes(), &live(&["b"]));
}

#[test]
fn status_commands_drive_the_done_stack() {
    let mut s = DoneStack::new();
    assert!(matches!(run(SetWindowStatusCommand::Done, Some("%1"), &mut s), Some(StatusChange::Done)));
    assert_eq!(s.panes(), &live(&["%1"]));
    assert!(matches!(run(SetWindowStatusCommand::Working, Some("%1"), &mut s), Some(StatusChange::Working)));
    assert!(s.panes().is_empty());
    assert!(run(SetWindowStatusCommand::Done, None, &mut s).is_none());
    assert!(s.panes().is_empty());
}

fn request(token: &str, op: RpcOp) -> RpcRequest {
    RpcRequest { token: token.to_string(), op }
}

#[test]
fn rpc_wrong_token_is_rejected() {
    let token = "abc".repeat(21) + "d";
    let req = request("wrong", RpcOp::Notify(NotifyRequest::Sound { args: vec!["x.wav".to_string()] }));
    let action = dispatch(&req, &token, &vec![]);
    match &action {
        RpcAction::Reject { message } => {
            assert_eq!(message, "authentication failed");
            assert!(!message.contains(&token));
        }
        _ => panic!("expected a rejection"),
    }
    assert!(matches!(rejection(&action), Some(RpcResponse::Error { .. })));
}

#[test]
fn rpc_correct_token_plays_sound() {
    let token = "abc".repeat(21) + "d";
    let req = request(&token, RpcOp::Notify(NotifyRequest::Sound { args: vec!["x.wav".to_string()] }));
    match dispatch(&req, &token, &vec![]) {
        RpcAction::PlaySound { args } => assert_eq!(args, vec!["x.wav".to_string()]),
        _ => panic!("expected a sound"),
    }
}

#[test]
fn rpc_host_exec_allow_list() {
    let t = "tok";
    let req = request(t, RpcOp::HostExec { command: "just".to_string(), args: vec!["test".to_string()] });
    assert!(matches!(dispatch(&req, t, &live(&["just"])), RpcAction::RunHost { .. }));
    match dispatch(&req, t, &live(&["cargo"])) {
        RpcAction::Reject { message } => assert_eq!(message, "command not allowed: just"),
        _ => panic!("expected a rejection"),
    }
    assert!(tokens_match("abc", "abc"));
    assert!(!tokens_match("abc", "abd"));
    assert!(!tokens_match("abc", "abcd"));
}

fn agent(pane_id: &str, command: &str) -> AgentState {
    AgentState {
        pane_key: PaneKey { instance_id: "default".to_string(), pane_id: pane_id.to_string() },
        window_name: "wm:feat-a".to_string(),
        command: command.to_string(),
        worktree_path: "/repo/wt/feat-a".to_string(),
        created_ts: 10,
        updated_ts: 10,
        last_heartbeat: None,
    }
}

fn info(cmd: &str) -> LivePaneInfo {
    LivePaneInfo {
        pid: 1,
        current_command: cmd.to_string(),
        working_dir: "/".to_string(),
        title: None,
        session: None,
        window: None,
    }
}

#[test]
fn reconcile_keeps_only_live_matching_agents() {
    let records = vec![agent("%1", "codex"), agent("%2", "/usr/bin/codex"), agent("%3", "codex")];
    let panes = vec![("%1".to_string(), info("codex")), ("%2".to_string(), info("zsh"))];
    assert_eq!(reconcile(&records, &panes), vec![true, false, false]);
}

#[test]
fn heartbeat_touch_is_monotone() {
    let mut a = agent("%1", "codex");
    a.touch_heartbeat(5);
    assert_eq!(a.last_heartbeat, Some(5));
    assert_eq!(a.updated_ts, 10);
    a.touch_heartbeat(20);
    assert_eq!(a.updated_ts, 20);
}

#[test]
fn shell_quote_wraps_and_escapes() {
    assert_eq!(shell_quote("it's"), "'it'\\''s'");
    assert_eq!(shell_quote(""), "''");
}

#[test]
fn shim_name_rules() {
    let cmds = live(&["just", "/bin/evil", "", "a\\b", "cargo"]);
    assert_eq!(shim_names(&cmds), live(&["just", "cargo"]));
    assert!(is_valid_shim_name("npm"));
    assert!(!is_valid_shim_name("x/y"));
    assert_eq!(tmp_link_name("just"), ".just.tmp");
}

#[test]
fn pane_setup_empty_layout_returns_initial() {
    let s = PaneSetup::new("%5");
    assert_eq!(s.focus_pane(), "%5");
}

#[test]
fn pane_setup_happy_path() {
    assert_eq!(resolve_command("<agent>", "codex"), "codex");
    assert_eq!(resolve_command("<agent> --x <agent>", "c"), "c --x c");
    assert_eq!(resolve_command("<agen", "c"), "<agen");
    let mut s = PaneSetup::new("terminal_5");
    let first = PaneConfig { command: Some("<agent>".to_string()), focus: true, split: None, target: None };
    match s.step(0, &first) {
        Ok(SetupStep::Respawn { pane }) => assert_eq!(pane, "terminal_5"),
        _ => panic!("expected a respawn"),
    }
    s.record(0, "terminal_5".to_string(), true);
    let second = PaneConfig { command: None, focus: false, split: Some(SplitDirection::Vertical), target: Some(0) };
    match s.step(1, &second) {
        Ok(SetupStep::Split { from }) => assert_eq!(from, "terminal_5"),
        _ => panic!("expected a split"),
    }
    s.record(1, "terminal_6".to_string(), false);
    let bad = PaneConfig { command: None, focus: false, split: Some(SplitDirection::Horizontal), target: Some(7) };
    assert!(s.step(2, &bad).is_err());
    let skipped = PaneConfig { command: None, focus: true, split: None, target: None };
    assert!(matches!(s.step(2, &skipped), Ok(SetupStep::Skip)));
    assert_eq!(s.focus_pane(), "terminal_5");
}

#[test]
fn close_targets() {
    let (name, current) = resolve_close_target(Some("feat-a"), "wm:", "ignored", Some("wm:feat-a"));
    assert_eq!(name, "wm:feat-a");
    assert!(current);
    let (name, current) = resolve_close_target(None, "wm:", "feat-b", Some("wm:feat-a-2"));
    assert_eq!(name, "wm:feat-a-2");
    assert!(current);
    let (name, current) = resolve_close_target(None, "wm:", "feat-b", Some("scratch"));
    assert_eq!(name, "wm:feat-b");
    assert!(!current);
    assert_eq!(handle_of("wm:feat-a", "wm:"), Some("feat-a"));
    assert_eq!(handle_of("scratch", "wm:"), None);
    assert!(matches!(get_worktree_target(Some("session")), TmuxTarget::Session));
    assert!(matches!(get_worktree_target(None), TmuxTarget::Window));
}

#[test]
fn list_columns() {
    assert_eq!(format_pr_status(None), "-");
    let pr = PrSummary { number: 12, state: "MERGED".to_string(), is_draft: false };
    assert_eq!(format_pr_status(Some(&pr)), "#12 \x1b[35m\u{f419}\x1b[0m");
    assert_eq!(path_label(Some(""), "/a"), "(here)");
    assert_eq!(path_label(Some("."), "/a"), "(here)");
    assert_eq!(path_label(Some("../b"), "/a"), "../b");
    assert_eq!(path_label(None, "/a"), "/a");
    assert_eq!(display_path("/repo/wt/a", "/repo"), "wt/a");
    assert_eq!(display_path("/repo", "/repo"), "(here)");
    assert_eq!(display_path("/repo/x", "/repo/y"), "../x");
}

#[test]
fn workflow_context_assembly() {
    let ctx = WorkflowContext::new(
        true,
        Some("/repo".to_string()),
        Some("/repo/.git".to_string()),
        None,
        Some("main".to_string()),
        "wm:".to_string(),
    );
    let ctx = match ctx {
        Ok(c) => c,
        Err(_) => panic!("expected a context"),
    };
    assert_eq!(ctx.main_branch, "main");
    assert!(ctx.ensure_mux_running(true, "zellij").is_ok());
    assert!(ctx.ensure_mux_running(false, "zellij").is_err());
    assert!(WorkflowContext::new(false, None, None, None, None, "wm:".to_string()).is_err());
    let configured = WorkflowContext::new(
        true,
        Some("/repo".to_string()),
        Some("/repo/.git".to_string()),
        Some("trunk".to_string()),
        None,
        "wm:".to_string(),
    );
    assert!(matches!(configured, Ok(ref c) if c.main_branch == "trunk"));
    assert_eq!(
        mux_not_running_message("zellij"),
        "zellij is not running. Please start a zellij session first."
    );
}

#[test]
fn workflow_context_errors() {
    let root = || Some("/repo".to_string());
    let common = || Some("/repo/.git".to_string());
    assert!(matches!(
        WorkflowContext::new(true, None, common(), None, Some("main".to_string()), "wm:".to_string()),
        Err(ContextError::NoMainWorktree)
    ));
    assert!(matches!(
        WorkflowContext::new(true, root(), None, None, Some("main".to_string()), "wm:".to_string()),
        Err(ContextError::NoCommonDir)
    ));
    assert!(matches!(
        WorkflowContext::new(true, root(), common(), None, None, "wm:".to_string()),
        Err(ContextError::NoMainBranch)
    ));
    let ctx = WorkflowContext::new(true, root(), common(), None, Some("main".to_string()), "wm:".to_string());
    match ctx {
        Ok(c) => match c.ensure_tmux_running(false, "zellij") {
            Err(ContextError::MuxNotRunning { backend }) => assert_eq!(backend, "zellij"),
            _ => panic!("expected the multiplexer error"),
        },
        Err(_) => panic!("expected a context"),
    }
}

#[test]
fn shim_plan_writes_in_order() {
    let plan = shim_plan(&live(&["just", "a/b"]));
    assert_eq!(plan.len(), 3);
    assert_eq!(plan[0].0, "_shim");
    assert!(matches!(plan[0].1, Some(ShimEntry::Dispatcher)));
    assert_eq!(plan[1].0, ".just.tmp");
    assert!(plan[1].1.is_none());
    assert_eq!(plan[2].0, "just");
    assert!(matches!(plan[2].1, Some(ShimEntry::Link)));
}

#[test]
fn rpc_immediate_answer_for_wrong_token() {
    let token = "0123456789abcdef".repeat(4);
    let req = request("wrong", RpcOp::HostExec { command: "just".to_string(), args: vec![] });
    let (answer, action) = immediate_answer(&req, &token, &live(&["just"]));
    match answer {
        Some(RpcResponse::Error { message }) => assert!(!message.contains(&token)),
        _ => panic!("expected an error"),
    }
    assert!(matches!(action, RpcAction::Reject { .. }));
    let ok = request(&token, RpcOp::HostExec { command: "just".to_string(), args: vec![] });
    let (answer, action) = immediate_answer(&ok, &token, &live(&["just"]));
    assert!(answer.is_none());
    assert!(matches!(action, RpcAction::RunHost { .. }));
}

#[test]
fn rpc_immediate_answer_serves_right_token() {
    let token = "0123456789abcdef".repeat(4);
    let sound = request(&token, RpcOp::Notify(NotifyRequest::Sound { args: vec!["x.wav".to_string()] }));
    let (answer, action) = immediate_answer(&sound, &token, &vec![]);
    assert!(answer.is_none());
    match action {
        RpcAction::PlaySound { args } => assert_eq!(args, vec!["x.wav".to_string()]),
        _ => panic!("expected a sound"),
    }
    let other = request(&token, RpcOp::HostExec { command: "rm".to_string(), args: vec![] });
    match immediate_answer(&other, &token, &live(&["just"])) {
        (Some(RpcResponse::Error { message }), RpcAction::Reject { .. }) => {
            assert_eq!(message, "command not allowed: rm")
        }
        _ => panic!("expected a rejection"),
    }
}
