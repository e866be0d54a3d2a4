use workmux::zellij::{
    MuxError,
    PaneInfo, PaneNavigation, TabInfo, TabTarget, ZellijBackend, extract_base_command,
    parse_pane_id, parse_tab_name_from_output, pane_id_string,
};
use workmux::agents::{AgentState, PaneKey};

#[test]
fn parse_pane_id_valid() {
    assert_eq!(parse_pane_id("terminal_0"), Some(0));
    assert_eq!(parse_pane_id("terminal_1"), Some(1));
    assert_eq!(parse_pane_id("terminal_42"), Some(42));
    assert_eq!(parse_pane_id("terminal_999"), Some(999));
}

#[test]
fn parse_pane_id_invalid_prefix() {
    assert_eq!(parse_pane_id("plugin_1"), None);
    assert_eq!(parse_pane_id("pane_1"), None);
    assert_eq!(parse_pane_id("1"), None);
    assert_eq!(parse_pane_id(""), None);
}

#[test]
fn parse_pane_id_non_numeric() {
    assert_eq!(parse_pane_id("terminal_abc"), None);
    assert_eq!(parse_pane_id("terminal_"), None);
    assert_eq!(parse_pane_id("terminal_1.5"), None);
    assert_eq!(parse_pane_id("terminal_-1"), None);
}

#[test]
fn extract_base_command_full_path() {
    assert_eq!(extract_base_command(Some("/usr/bin/bash"), None), "bash");
}

#[test]
fn extract_base_command_with_args() {
    assert_eq!(extract_base_command(Some("/usr/bin/bash --login -i"), None), "bash");
}

#[test]
fn extract_base_command_bare_name() {
    assert_eq!(extract_base_command(Some("zsh"), None), "zsh");
}

#[test]
fn extract_base_command_prefers_pane_command() {
    assert_eq!(extract_base_command(Some("fish"), Some("bash")), "fish");
}

#[test]
fn extract_base_command_falls_back_to_terminal_command() {
    assert_eq!(extract_base_command(None, Some("/bin/zsh")), "zsh");
}

#[test]
fn extract_base_command_both_none() {
    assert_eq!(extract_base_command(None, None), "");
}

#[test]
fn extract_base_command_empty_strings() {
    assert_eq!(extract_base_command(Some(""), None), "");
}

#[test]
fn parse_tab_name_standard() {
    let output = "name: Tab #1\nid: 0\nposition: 0\n";
    assert_eq!(parse_tab_name_from_output(output), Some("Tab #1".to_string()));
}

#[test]
fn parse_tab_name_custom_name() {
    let output = "name: my-worktree\nid: 3\nposition: 2\n";
    assert_eq!(parse_tab_name_from_output(output), Some("my-worktree".to_string()));
}

#[test]
fn parse_tab_name_with_spaces() {
    let output = "name: My Project Tab\nid: 1\nposition: 0\n";
    assert_eq!(parse_tab_name_from_output(output), Some("My Project Tab".to_string()));
}

#[test]
fn parse_tab_name_empty_output() {
    assert_eq!(parse_tab_name_from_output(""), None);
}

#[test]
fn parse_tab_name_no_name_field() {
    let output = "id: 0\nposition: 0\n";
    assert_eq!(parse_tab_name_from_output(output), None);
}

#[test]
fn parse_tab_name_name_field_in_middle() {
    let output = "id: 5\nname: middle-tab\nposition: 3\nactive: true\n";
    assert_eq!(parse_tab_name_from_output(output), Some("middle-tab".to_string()));
}

#[test]
fn contains_dashboard_ui_with_preview() {
    assert!(ZellijBackend::contains_dashboard_ui("Some content\nPreview:\nmore stuff"));
}

#[test]
fn contains_dashboard_ui_with_input_and_diff() {
    assert!(ZellijBackend::contains_dashboard_ui("header\n[i] input  [d] diff\nfooter"));
}

#[test]
fn contains_dashboard_ui_input_without_diff() {
    assert!(!ZellijBackend::contains_dashboard_ui("[i] input only"));
}

#[test]
fn contains_dashboard_ui_diff_without_input() {
    assert!(!ZellijBackend::contains_dashboard_ui("[d] diff only"));
}

#[test]
fn contains_dashboard_ui_normal_content() {
    assert!(!ZellijBackend::contains_dashboard_ui("$ cargo build\nCompiling workmux v0.1.0\n"));
}

#[test]
fn contains_dashboard_ui_empty() {
    assert!(!ZellijBackend::contains_dashboard_ui(""));
}

fn pane(id: u32, focused: bool, plugin: bool, tab: &str, tab_id: Option<u32>) -> PaneInfo {
    PaneInfo {
        id,
        is_plugin: plugin,
        is_focused: focused,
        terminal_command: Some("/bin/bash".to_string()),
        pane_command: None,
        pane_cwd: None,
        tab_id,
        tab_name: tab.to_string(),
        title: String::new(),
    }
}

fn tab(id: u32, name: &str) -> TabInfo {
    TabInfo { tab_id: id, position: id, name: name.to_string(), active: false }
}

fn record(pane_id: &str, command: &str, heartbeat: Option<u64>) -> AgentState {
    AgentState {
        pane_key: PaneKey { instance_id: "default".to_string(), pane_id: pane_id.to_string() },
        window_name: "wm:feat-a".to_string(),
        command: command.to_string(),
        worktree_path: "/repo/wt/feat-a".to_string(),
        created_ts: 0,
        updated_ts: 0,
        last_heartbeat: heartbeat,
    }
}

#[test]
fn pane_id_round_trip() {
    assert_eq!(pane_id_string(7), "terminal_7");
    assert_eq!(parse_pane_id(&pane_id_string(4294967295)), Some(4294967295));
    assert_eq!(parse_pane_id("terminal_4294967296"), None);
    assert_eq!(parse_pane_id("terminal_+5"), Some(5));
}

#[test]
fn heartbeat_fresh_is_alive_without_query() {
    let now = 1_000_000;
    let r = record("terminal_7", "codex", Some(now - 30));
    // No panes are listed at all: only the heartbeat can decide.
    let alive = ZellijBackend::validate_agent_alive(&r, Some(now), &vec![], None, "/");
    assert!(matches!(alive, Ok(true)));
}

#[test]
fn heartbeat_stale_is_dead() {
    let now = 1_000_000;
    let r = record("terminal_7", "codex", Some(now - 400));
    let panes = vec![pane(7, true, false, "wm:feat-a", Some(1))];
    let alive = ZellijBackend::validate_agent_alive(&r, Some(now), &panes, None, "/");
    assert!(matches!(alive, Ok(false)));
}

#[test]
fn heartbeat_in_between_checks_the_pane() {
    let now = 1_000_000;
    let mut p = pane(7, true, false, "wm:feat-a", Some(1));
    p.pane_command = Some("/usr/local/bin/codex --resume".to_string());
    let r = record("terminal_7", "codex", Some(now - 120));
    assert!(matches!(
        ZellijBackend::validate_agent_alive(&r, Some(now), &vec![p], None, "/"),
        Ok(true)
    ));
    let other = pane(7, true, false, "wm:feat-a", Some(1));
    assert!(matches!(
        ZellijBackend::validate_agent_alive(&r, Some(now), &vec![other], None, "/"),
        Ok(false)
    ));
    assert!(matches!(
        ZellijBackend::validate_agent_alive(&r, Some(now), &vec![], None, "/"),
        Ok(false)
    ));
}

#[test]
fn filter_active_windows_keeps_open_ones() {
    let windows = vec!["wm:a".to_string(), "wm:b".to_string(), "wm:c".to_string()];
    let tabs = vec![tab(0, "Tab #1"), tab(1, "wm:c"), tab(2, "wm:a")];
    let active = ZellijBackend::window_names(&tabs);
    let kept = ZellijBackend::filter_active_windows(&windows, &active);
    assert_eq!(kept, vec!["wm:a".to_string(), "wm:c".to_string()]);
    assert!(!ZellijBackend::all_windows_closed(&windows, &active));
    assert!(ZellijBackend::all_windows_closed(&vec!["wm:b".to_string()], &active));
}

#[test]
fn shell_commands_use_tab_ids() {
    let tabs = vec![tab(3, "wm:feat-a")];
    assert_eq!(
        ZellijBackend::shell_select_window_cmd(&tabs, "wm:feat-a").ok(),
        Some("zellij action go-to-tab-by-id 3 >/dev/null 2>&1".to_string())
    );
    assert_eq!(
        ZellijBackend::shell_kill_window_cmd(&tabs, "wm:feat-a").ok(),
        Some("zellij action close-tab-by-id 3 >/dev/null 2>&1".to_string())
    );
    assert!(ZellijBackend::shell_kill_window_cmd(&tabs, "wm:other").is_err());
    assert_eq!(
        ZellijBackend::window_close_script(&tabs, "wm:feat-a", 100),
        "sleep 0.100 && zellij action close-tab-by-id 3"
    );
    assert_eq!(
        ZellijBackend::window_close_script(&tabs, "it's", 2005),
        "sleep 2.005 && zellij action go-to-tab-name 'it'\\''s' && zellij action close-tab"
    );
}

#[test]
fn create_window_finds_initial_pane() {
    assert_eq!(ZellijBackend::full_window_name("wm:", "feat-a"), "wm:feat-a");
    let panes = vec![
        pane(1, false, true, "wm:feat-a", Some(4)),
        pane(5, true, false, "wm:feat-a", Some(4)),
    ];
    assert_eq!(ZellijBackend::initial_pane_id(&panes, 4).ok(), Some("terminal_5".to_string()));
    assert!(ZellijBackend::initial_pane_id(&panes, 9).is_err());
}

#[test]
fn select_pane_navigation() {
    let panes = vec![
        pane(1, false, false, "t", None),
        pane(2, false, true, "t", None),
        pane(3, true, false, "t", None),
        pane(4, false, false, "other", None),
        pane(5, false, false, "t", None),
    ];
    let nav: PaneNavigation = ZellijBackend::plan_select_pane(&panes, "t", "terminal_1").ok().unwrap();
    assert!(!nav.forward());
    assert_eq!(nav.steps(), 1);
    let nav = ZellijBackend::plan_select_pane(&panes, "t", "terminal_5").ok().unwrap();
    assert!(nav.forward());
    assert_eq!(nav.steps(), 1);
    assert!(ZellijBackend::plan_select_pane(&panes, "t", "terminal_4").is_err());
    assert!(ZellijBackend::plan_select_pane(&panes, "t", "bogus").is_err());
}

#[test]
fn respawn_script_and_keys() {
    assert_eq!(
        ZellijBackend::respawn_script("/tmp/it's", Some("codex")),
        "cd '/tmp/it'\\''s' && codex"
    );
    assert_eq!(ZellijBackend::respawn_script("/tmp", None), "cd '/tmp'");
    assert_eq!(ZellijBackend::key_code("Enter"), Some("13"));
    assert_eq!(ZellijBackend::key_code("Escape"), Some("27"));
    assert_eq!(ZellijBackend::key_code("Tab"), Some("9"));
    assert_eq!(ZellijBackend::key_code("x"), None);
    assert_eq!(ZellijBackend::bang_split("!ls", true), Some("ls"));
    assert_eq!(ZellijBackend::bang_split("!ls", false), None);
    assert_eq!(ZellijBackend::bang_split("ls", true), None);
}

#[test]
fn live_pane_info_from_listing() {
    let mut p = pane(5, true, false, "my-tab", Some(2));
    p.pane_command = Some("/usr/bin/fish".to_string());
    p.pane_cwd = Some("/home/user/project".to_string());
    p.title = "fish".to_string();
    let panes = vec![pane(1, false, true, "", None), p];
    let info = ZellijBackend::get_live_pane_info(&panes, "terminal_5", Some("s"), "/cwd")
        .ok()
        .unwrap()
        .unwrap();
    assert_eq!(info.pid, 0);
    assert_eq!(info.current_command, "fish");
    assert_eq!(info.working_dir, "/home/user/project");
    assert_eq!(info.title.as_deref(), Some("fish"));
    assert_eq!(info.window.as_deref(), Some("my-tab"));
    assert_eq!(info.session.as_deref(), Some("s"));
    let all = ZellijBackend::get_all_live_pane_info(&panes, None, "/cwd");
    assert_eq!(all.len(), 1);
    assert_eq!(all[0].0, "terminal_5");
    assert!(matches!(
        ZellijBackend::get_live_pane_info(&panes, "terminal_9", None, "/"),
        Ok(None)
    ));
}

#[test]
fn switch_target_by_agent_record() {
    let agents = vec![record("terminal_7", "codex", None)];
    let tabs = vec![tab(3, "wm:feat-a")];
    assert!(matches!(
        ZellijBackend::switch_target(&agents, &tabs, "terminal_7"),
        Ok(TabTarget::ById(3))
    ));
    assert!(ZellijBackend::switch_target(&agents, &tabs, "terminal_8").is_err());
    assert!(matches!(ZellijBackend::tab_target(&vec![], "wm:x"), TabTarget::ByName(_)));
}

#[test]
fn focused_pane_in_focused_tab() {
    let panes = vec![
        pane(1, true, false, "a", None),
        pane(2, true, false, "b", None),
    ];
    assert_eq!(workmux::zellij::find_focused_pane(&panes, Some("b")).ok(), Some(2));
    assert_eq!(workmux::zellij::find_focused_pane(&panes, None).ok(), Some(1));
    assert!(workmux::zellij::find_focused_pane(&panes, Some("c")).is_err());
}

#[test]
fn respawn_target_must_exist() {
    let panes = vec![pane(1, false, true, "t", None), pane(2, true, false, "t", None)];
    assert!(ZellijBackend::check_pane_exists(&panes, "terminal_2").is_ok());
    assert!(matches!(
        ZellijBackend::check_pane_exists(&panes, "terminal_1"),
        Err(MuxError::PaneNotFound { .. })
    ));
    assert!(matches!(
        ZellijBackend::check_pane_exists(&panes, "%1"),
        Err(MuxError::InvalidPaneId { .. })
    ));
    assert_eq!(ZellijBackend::direction_arg(&workmux::zellij::SplitDirection::Horizontal), "right");
    assert_eq!(ZellijBackend::direction_arg(&workmux::zellij::SplitDirection::Vertical), "down");
    assert_eq!(ZellijBackend::heartbeat_verdict(Some(100), Some(159)), Some(true));
    assert_eq!(ZellijBackend::heartbeat_verdict(Some(100), Some(160)), None);
    assert_eq!(ZellijBackend::heartbeat_verdict(Some(100), Some(400)), None);
    assert_eq!(ZellijBackend::heartbeat_verdict(Some(100), Some(401)), Some(false));
    assert_eq!(ZellijBackend::heartbeat_verdict(Some(500), Some(100)), Some(true));
    assert_eq!(ZellijBackend::heartbeat_verdict(None, Some(100)), None);
}

#[test]
fn fallback_liveness_by_tab_and_update_age() {
    let mut r = record("terminal_7", "codex", None);
    r.updated_ts = 1000;
    let open = vec!["wm:feat-a".to_string()];
    assert!(ZellijBackend::fallback_alive(&r, &open, 1000 + 3600));
    assert!(!ZellijBackend::fallback_alive(&r, &open, 1000 + 3601));
    assert!(!ZellijBackend::fallback_alive(&r, &vec![], 1000));
}

#[test]
fn empty_stored_command_does_not_match_other_process() {
    let now = 1_000_000;
    let mut p = pane(7, true, false, "wm:feat-a", Some(1));
    p.pane_command = Some("a".to_string());
    let r = record("terminal_7", "", None);
    assert!(matches!(
        ZellijBackend::validate_agent_alive(&r, Some(now), &vec![p], None, "/"),
        Ok(false)
    ));
}
