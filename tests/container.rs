use workmux::container::{ContainerParams, SandboxPaths, SandboxRuntime, gitdir_of, main_git_dir, wrap_for_container};

fn params<'a>(runtime: SandboxRuntime, image: Option<&'a str>, cwd: &'a str, env: &'a Vec<String>) -> ContainerParams<'a> {
    ContainerParams {
        runtime,
        image,
        uid: 1000,
        gid: 1000,
        worktree_root: "/tmp/project",
        pane_cwd: cwd,
        git_file: None,
        config_file: None,
        config_dir: None,
        env_vars: env,
    }
}

#[test]
fn test_wrap_basic_command() {
    let env = vec![];
    let p = params(SandboxRuntime::Docker, Some("test-image:latest"), "/tmp/project", &env);
    let result = wrap_for_container("codex", &p).ok().unwrap();
    assert!(result.starts_with("docker run --rm -it"));
    assert!(result.contains("--mount type=bind,source=/tmp/project,target=/tmp/project"));
    assert!(result.contains("--workdir /tmp/project"));
    assert!(result.contains("test-image:latest"));
    assert!(result.contains("sh -c 'codex'"));
}

#[test]
fn test_wrap_escapes_quotes() {
    let env = vec![];
    let p = params(SandboxRuntime::Docker, Some("test-image:latest"), "/tmp/project", &env);
    let result = wrap_for_container("echo 'hello'", &p).ok().unwrap();
    assert!(result.contains("sh -c 'echo '\\''hello'\\'''"));
}

#[test]
fn test_podman_runtime() {
    let env = vec![];
    let p = params(SandboxRuntime::Podman, Some("test-image:latest"), "/tmp/project", &env);
    let result = wrap_for_container("codex", &p).ok().unwrap();
    assert!(result.starts_with("podman run"));
}

#[test]
fn test_wrap_with_subdir_cwd() {
    let env = vec![];
    let p = params(SandboxRuntime::Docker, Some("test-image:latest"), "/tmp/project/backend", &env);
    let result = wrap_for_container("codex", &p).ok().unwrap();
    assert!(result.contains("--mount type=bind,source=/tmp/project,target=/tmp/project"));
    assert!(result.contains("--workdir /tmp/project/backend"));
}

#[test]
fn test_wrap_missing_image_returns_error() {
    let env = vec![];
    let p = params(SandboxRuntime::Docker, None, "/tmp/project", &env);
    let result = wrap_for_container("codex", &p);
    assert!(result.is_err());
    match result {
        Err(e) => assert!(e.message().to_string().contains("no image")),
        Ok(_) => panic!("expected an error"),
    }
}

#[test]
fn wrap_full_command_with_mounts_and_env() {
    let env = vec!["TEST_KEY".to_string()];
    let mut p = params(SandboxRuntime::Docker, Some("img"), "/tmp/project", &env);
    p.git_file = Some("gitdir: /repo/.git/worktrees/feat\n");
    p.config_file = Some("/home/u/.agent-sandbox.json");
    p.config_dir = Some("/home/u/.agent-sandbox");
    let result = wrap_for_container("codex", &p).ok().unwrap();
    assert_eq!(
        result,
        "docker run --rm -it --user 1000:1000 \
--mount type=bind,source=/tmp/project,target=/tmp/project \
--mount type=bind,source=/repo/.git,target=/repo/.git \
--workdir /tmp/project --env HOME=/tmp \
--mount type=bind,source=/home/u/.agent-sandbox.json,target=/tmp/.agent.json \
--mount type=bind,source=/home/u/.agent-sandbox,target=/tmp/.agent \
--env TEST_KEY \
--env PATH=/root/.local/bin:/usr/local/bin:/usr/bin:/bin img sh -c 'codex'"
    );
}

#[test]
fn gitdir_file_contents() {
    assert_eq!(gitdir_of("gitdir: /repo/.git/worktrees/feat\n"), Some("/repo/.git/worktrees/feat"));
    assert_eq!(gitdir_of("not a gitdir"), None);
}

#[test]
fn sandbox_paths_under_home() {
    let p = SandboxPaths::under("/home/u");
    assert_eq!(p.config_file, "/home/u/.agent-sandbox.json");
    assert_eq!(p.config_dir, "/home/u/.agent-sandbox");
    let q = SandboxPaths::under("/");
    assert_eq!(q.config_file, "/.agent-sandbox.json");
}

#[test]
fn auth_arguments() {
    let paths = SandboxPaths::under("/home/u");
    assert!(workmux::container::auth_command_args(None, "codex", &paths).is_err());
    let args = workmux::container::auth_command_args(Some("img"), "codex", &paths).ok().unwrap();
    assert_eq!(
        args,
        vec![
            "run", "-it", "--rm",
            "--mount", "type=bind,source=/home/u/.agent-sandbox.json,target=/tmp/.agent.json",
            "--mount", "type=bind,source=/home/u/.agent-sandbox,target=/tmp/.agent",
            "--env", "HOME=/tmp",
            "--env", "PATH=/root/.local/bin:/usr/local/bin:/usr/bin:/bin",
            "img", "codex",
        ]
    );
}

#[test]
fn main_git_dir_is_two_levels_above_gitdir() {
    assert_eq!(
        main_git_dir("gitdir: /path/to/main/.git/worktrees/name\n"),
        Some("/path/to/main/.git".to_string())
    );
    assert_eq!(
        main_git_dir("gitdir: /path/to/main/.git/worktrees/name/"),
        Some("/path/to/main/.git".to_string())
    );
    assert_eq!(main_git_dir("gitdir: /a/b"), Some("/".to_string()));
    assert_eq!(main_git_dir("gitdir: a/b"), Some(String::new()));
    assert_eq!(main_git_dir("gitdir: /a"), None);
    assert_eq!(workmux::container::parent_of("//"), None);
    assert_eq!(workmux::container::parent_of("a//b"), Some("a".to_string()));
    assert_eq!(main_git_dir("not a gitdir"), None);
}
