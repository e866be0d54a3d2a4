use workmux::lima::{
    Isolation, LimaInstance, LimaInstanceInfo, VmState, boot_args, check_vm_state, config_file_name,
    is_listed_running, ndjson_rows, stop_outcome, vm_name, wrap_for_lima,
};
use workmux::shell_escape;
use workmux::vm_admin::{
    SelectionError, StopPlan, VmSelection, format_bytes, format_duration_since, is_yes,
    parse_vm_selection, plan_stop, total_size,
};

#[test]
fn test_shell_escape_simple() {
    assert_eq!(shell_escape("hello"), "hello");
    assert_eq!(shell_escape("foo bar"), "foo bar");
}

#[test]
fn test_shell_escape_single_quotes() {
    assert_eq!(shell_escape("echo 'hello world'"), "echo '\\''hello world'\\''");
}

#[test]
fn test_shell_escape_preserves_special_chars() {
    assert_eq!(shell_escape("$HOME"), "$HOME");
    assert_eq!(shell_escape("$(cmd)"), "$(cmd)");
    assert_eq!(shell_escape("a & b"), "a & b");
}

#[test]
fn test_shell_escape_path_with_spaces() {
    assert_eq!(shell_escape("/Users/test user/my project"), "/Users/test user/my project");
}

#[test]
fn test_check_vm_state_running() {
    let info = LimaInstanceInfo {
        name: "test-vm".to_string(),
        status: "Running".to_string(),
        dir: None,
    };
    assert!(info.is_running());
}

#[test]
fn test_check_vm_state_stopped() {
    let info = LimaInstanceInfo {
        name: "test-vm".to_string(),
        status: "Stopped".to_string(),
        dir: None,
    };
    assert!(!info.is_running());
}

#[test]
fn test_wrap_format_shell_command() {
    let vm_name = "wm-abc12345";
    let working_dir = "/Users/test/project";
    let command = "codex";
    let inner_script = format!("cd '{}' && {}", shell_escape(working_dir), command);
    let shell_cmd = format!("limactl shell {} -- sh -c '{}'", vm_name, shell_escape(&inner_script));
    assert!(shell_cmd.contains("limactl shell wm-abc12345"));
    assert!(shell_cmd.contains("/Users/test/project"));
    assert!(shell_cmd.contains("codex"));
}

#[test]
fn test_wrap_format_with_spaces_in_path() {
    let vm_name = "wm-abc12345";
    let working_dir = "/Users/test user/my project";
    let command = "codex";
    let inner_script = format!("cd '{}' && {}", shell_escape(working_dir), command);
    let shell_cmd = format!("limactl shell {} -- sh -c '{}'", vm_name, shell_escape(&inner_script));
    assert!(shell_cmd.contains("/Users/test user/my project"));
    assert!(shell_cmd.contains("cd '\\''"));
}

#[test]
fn test_start_prefix_stopped_vm() {
    let vm_name = "wm-test123";
    let prefix = format!(
        "echo 'Starting Lima VM {}...' && limactl start --tty=false {} && ",
        vm_name, vm_name
    );
    assert!(prefix.contains("limactl start --tty=false wm-test123"));
    assert!(prefix.contains("echo"));
    assert!(prefix.ends_with("&& "));
}

#[test]
fn test_start_prefix_new_vm() {
    let vm_name = "wm-test123";
    let config_path = "/tmp/workmux-lima-wm-test123.yaml";
    let prefix = format!(
        "echo 'Creating Lima VM {}...' && limactl start --name {} --tty=false '{}' && ",
        vm_name,
        vm_name,
        shell_escape(config_path)
    );
    assert!(prefix.contains("limactl start --name wm-test123 --tty=false"));
    assert!(prefix.contains(config_path));
    assert!(prefix.ends_with("&& "));
}

#[test]
fn test_env_passthrough_escaping() {
    let env_var = "MY_VAR";
    let val = "hello'world";
    let flag = format!(" --setenv {}='{}'", env_var, shell_escape(&val));
    assert_eq!(flag, " --setenv MY_VAR='hello'\\''world'");
}

fn info(name: &str, status: &str) -> LimaInstanceInfo {
    LimaInstanceInfo { name: name.to_string(), status: status.to_string(), dir: None }
}

#[test]
fn wrap_for_lima_calls_the_supervisor() {
    assert_eq!(
        wrap_for_lima("echo 'hi' $HOME", "/usr/local/bin/workmux", "/repo/wt/feat-a"),
        "/usr/local/bin/workmux sandbox run /repo/wt/feat-a -- sh -lc 'echo '\\''hi'\\'' $HOME'"
    );
}

#[test]
fn vm_names_follow_isolation() {
    let a = vm_name(&Isolation::PerWorktree, "/repo/wt/a", "/repo/.git");
    let b = vm_name(&Isolation::PerWorktree, "/repo/wt/b", "/repo/.git");
    let pa = vm_name(&Isolation::PerProject, "/repo/wt/a", "/repo/.git");
    let pb = vm_name(&Isolation::PerProject, "/repo/wt/b", "/repo/.git");
    assert!(a.starts_with("wm-") && a.len() == 11);
    assert!(a[3..].chars().all(|c| c.is_ascii_hexdigit() && !c.is_ascii_uppercase()));
    assert_ne!(a, b);
    assert_eq!(pa, pb);
    // FNV-1a of the empty string is 0x811c9dc5.
    assert_eq!(vm_name(&Isolation::PerWorktree, "", ""), "wm-811c9dc5");
    // FNV-1a of "a" is 0xe40c292c.
    assert_eq!(vm_name(&Isolation::PerWorktree, "a", ""), "wm-e40c292c");
}

#[test]
fn boot_arguments_by_state() {
    assert!(boot_args(&VmState::Running, "wm-a", "/tmp/c.yaml").is_none());
    assert_eq!(
        boot_args(&VmState::Stopped, "wm-a", "/tmp/c.yaml"),
        Some(vec!["start".to_string(), "--tty=false".to_string(), "wm-a".to_string()])
    );
    assert_eq!(
        boot_args(&VmState::NotFound, "wm-a", "/tmp/c.yaml"),
        Some(vec![
            "start".to_string(),
            "--name".to_string(),
            "wm-a".to_string(),
            "--tty=false".to_string(),
            "/tmp/c.yaml".to_string(),
        ])
    );
}

#[test]
fn vm_state_from_listing() {
    let list = vec![info("wm-a", "Running"), info("wm-b", "Stopped")];
    assert!(matches!(check_vm_state(&list, "wm-a"), VmState::Running));
    assert!(matches!(check_vm_state(&list, "wm-b"), VmState::Stopped));
    assert!(matches!(check_vm_state(&list, "wm-c"), VmState::NotFound));
    assert!(is_listed_running(&list, "wm-a"));
    assert!(!is_listed_running(&list, "wm-b"));
}

#[test]
fn stop_twice_is_ok_both_times() {
    // First stop succeeds; the second finds the VM already stopped.
    assert!(stop_outcome("wm-a", true, "").is_ok());
    assert!(stop_outcome("wm-a", false, "time=... level=fatal msg=\"instance \\\"wm-a\\\" is not running\"").is_ok());
    let err = stop_outcome("wm-a", false, "permission denied");
    match err {
        Err(e) => {
            assert_eq!(e.name, "wm-a");
            assert_eq!(e.stderr, "permission denied");
        }
        Ok(()) => panic!("expected an error"),
    }
}

#[test]
fn ndjson_rows_skip_blank_lines() {
    let text = "{\"name\":\"a\"}\n   \n\n{\"name\":\"b\"}\r\n";
    let rows = ndjson_rows(text);
    assert_eq!(rows, vec!["{\"name\":\"a\"}", "{\"name\":\"b\"}"]);
    assert!(ndjson_rows("").is_empty());
}

#[test]
fn instance_names() {
    let inst = LimaInstance::new("test-vm".to_string(), "/tmp/workmux-lima-test-vm.yaml".to_string());
    assert_eq!(inst.name(), "test-vm");
    assert_eq!(config_file_name("test-vm"), "workmux-lima-test-vm.yaml");
}

#[test]
fn stop_plans() {
    let list = vec![info("wm-a", "Running"), info("other", "Running"), info("wm-b", "Stopped")];
    match plan_stop(&list, None, true) {
        Ok(StopPlan::Stop { names }) => assert_eq!(names, vec!["wm-a".to_string()]),
        _ => panic!("expected a stop plan"),
    }
    match plan_stop(&list, None, false) {
        Ok(StopPlan::Choose { names }) => assert_eq!(names, vec!["wm-a".to_string()]),
        _ => panic!("expected a choice"),
    }
    assert!(matches!(plan_stop(&list, Some("wm-b"), false), Ok(StopPlan::AlreadyStopped { .. })));
    assert!(plan_stop(&list, Some("other"), false).is_err());
    assert!(plan_stop(&list, Some("wm-z"), false).is_err());
    let stopped = vec![info("wm-b", "Stopped")];
    assert!(matches!(plan_stop(&stopped, None, true), Ok(StopPlan::NoneRunning)));
}

#[test]
fn selection_input() {
    assert!(matches!(parse_vm_selection(" ALL \n", 2), Ok(VmSelection::All)));
    assert!(matches!(parse_vm_selection("2\n", 2), Ok(VmSelection::One(1))));
    assert!(matches!(parse_vm_selection("3", 2), Err(SelectionError::OutOfRange { count: 2 })));
    assert!(matches!(parse_vm_selection("0", 2), Err(SelectionError::OutOfRange { .. })));
    assert!(matches!(parse_vm_selection("x", 2), Err(SelectionError::NotANumber)));
    assert!(is_yes(" Y\n", false));
    assert!(!is_yes("yes", false));
    assert!(is_yes("YES", true));
    assert!(!is_yes("n", true));
}

#[test]
fn byte_and_age_formatting() {
    assert_eq!(format_bytes(0), "0 B");
    assert_eq!(format_bytes(512), "512 B");
    assert_eq!(format_bytes(1024), "1.00 KB");
    assert_eq!(format_bytes(1536), "1.50 KB");
    assert_eq!(format_bytes(10 * 1024 * 1024 * 1024), "10.00 GB");
    assert_eq!(format_bytes(3 * 1024 * 1024 * 1024 * 1024 * 1024), "3072.00 TB");
    assert_eq!(format_duration_since(None), "in the future");
    assert_eq!(format_duration_since(Some(59)), "just now");
    assert_eq!(format_duration_since(Some(60)), "1 minute ago");
    assert_eq!(format_duration_since(Some(7200)), "2 hours ago");
    assert_eq!(format_duration_since(Some(86400 * 45)), "1 month ago");
    assert_eq!(format_duration_since(Some(86400 * 800)), "2 years ago");
    assert_eq!(total_size(&vec![1, 2, 3]), 6);
    assert_eq!(total_size(&vec![u64::MAX, 1]), u64::MAX);
}

fn row(name: &str, status: &str, dir: Option<&str>) -> String {
    let mut m = serde_json::Map::new();
    m.insert("name".to_string(), serde_json::Value::String(name.to_string()));
    m.insert("status".to_string(), serde_json::Value::String(status.to_string()));
    if let Some(d) = dir {
        m.insert("dir".to_string(), serde_json::Value::String(d.to_string()));
    }
    serde_json::Value::Object(m).to_string()
}

#[test]
fn serialized_listing_frames_back_into_rows() {
    let rows = vec![row("wm-a", "Running", Some("/home/u/.lima/wm-a")), row("wm-b", "Stopped", None)];
    let text = rows.join("\n") + "\n";
    let framed = ndjson_rows(&text);
    assert_eq!(framed, rows.iter().map(|r| r.as_str()).collect::<Vec<_>>());
    let parsed: Vec<serde_json::Value> = framed.iter().map(|r| serde_json::from_str(r).unwrap()).collect();
    assert_eq!(parsed[0]["name"], "wm-a");
    assert_eq!(parsed[0]["status"], "Running");
    assert_eq!(parsed[0]["dir"], "/home/u/.lima/wm-a");
    assert_eq!(parsed[1]["name"], "wm-b");
    assert!(parsed[1].get("dir").is_none());
}

#[test]
fn supervisor_remote_command() {
    let env = vec![("API_KEY".to_string(), "k".to_string())];
    let assignments = workmux::lima::guest_env(4242, "tok", &env);
    assert_eq!(
        assignments,
        vec![
            "PATH=\"$HOME/.local/bin:$PATH\"".to_string(),
            "WM_SANDBOX_GUEST=1".to_string(),
            "WM_RPC_HOST=host.lima.internal".to_string(),
            "WM_RPC_PORT=4242".to_string(),
            "WM_RPC_TOKEN=tok".to_string(),
            "API_KEY=k".to_string(),
        ]
    );
    let cmd = vec!["codex".to_string(), "--model".to_string(), "$(cat m)".to_string()];
    let two = vec!["A=1".to_string(), "B=2".to_string()];
    assert_eq!(
        workmux::lima::supervisor_command(&two, &cmd),
        "export A=1; export B=2; codex --model $(cat m)"
    );
}
