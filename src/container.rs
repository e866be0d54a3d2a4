//! Rendering the command that runs an agent inside a Docker or Podman container.
use vstd::prelude::*;
use vstd::string::*;
use crate::shell::{escape_seq, shell_escape};
use crate::text::{decimal, has_prefix, push_decimal, starts_with, trim, trim_str};

verus! {

/// The container runtime.
pub enum SandboxRuntime {
    Docker,
    Podman,
}

/// Why a sandbox command could not be rendered.
pub enum SandboxError {
    /// Sandboxing is enabled but no image is configured.
    NoImage,
}

impl SandboxError {
    /// The user-facing description.
    pub fn message(&self) -> (r: &'static str)
        ensures
            r@ == "Sandbox enabled but no image configured"@,
    {
        match self {
            SandboxError::NoImage => "Sandbox enabled but no image configured",
        }
    }
}

pub open spec fn runtime_name(r: SandboxRuntime) -> Seq<char> {
    match r {
        SandboxRuntime::Docker => "docker"@,
        SandboxRuntime::Podman => "podman"@,
    }
}

/// The runtime's executable name.
pub fn runtime_command(r: &SandboxRuntime) -> (s: &'static str)
    ensures
        s@ == runtime_name(*r),
{
    match r {
        SandboxRuntime::Docker => "docker",
        SandboxRuntime::Podman => "podman",
    }
}

/// ` --mount type=bind,source=<src>,target=<dst>`.
pub open spec fn mount(src: Seq<char>, dst: Seq<char>) -> Seq<char> {
    " --mount type=bind,source="@ + src + ",target="@ + dst
}

pub open spec fn opt_mount(src: Option<Seq<char>>, dst: Seq<char>) -> Seq<char> {
    match src {
        Some(s) => mount(s, dst),
        None => Seq::empty(),
    }
}

/// ` --env <name>` for each variable passed through.
pub open spec fn env_flags(vars: Seq<String>) -> Seq<char>
    decreases vars.len(),
{
    if vars.len() == 0 {
        Seq::empty()
    } else {
        env_flags(vars.drop_last()) + " --env "@ + vars.last()@
    }
}

/// What the rendered container command holds.
pub struct ContainerParams<'a> {
    pub runtime: SandboxRuntime,
    pub image: Option<&'a str>,
    pub uid: u32,
    pub gid: u32,
    /// Worktree root, mounted at the same path.
    pub worktree_root: &'a str,
    /// Working directory of the pane, possibly below the root.
    pub pane_cwd: &'a str,
    /// What the worktree's `.git` holds when it is a file (a linked worktree).
    pub git_file: Option<&'a str>,
    /// The sandbox credential file, if it exists.
    pub config_file: Option<&'a str>,
    /// The sandbox settings directory, if it exists.
    pub config_dir: Option<&'a str>,
    /// Passthrough variables that are set on the host.
    pub env_vars: &'a Vec<String>,
}

pub open spec fn ov(o: Option<&str>) -> Option<Seq<char>> {
    match o {
        Some(s) => Some(s@),
        None => None,
    }
}

/// The container command for `command` under `p`.
pub open spec fn container_command_spec(command: Seq<char>, p: ContainerParams, image: Seq<char>) -> Seq<char> {
    runtime_name(p.runtime) + " run --rm -it --user "@ + decimal(p.uid as nat) + ":"@ + decimal(
        p.gid as nat,
    ) + mount(p.worktree_root@, p.worktree_root@) + opt_mount(
        main_git_of(p.git_file),
        main_git_of(p.git_file)->0,
    )
        + " --workdir "@ + p.pane_cwd@ + " --env HOME=/tmp"@ + opt_mount(
        ov(p.config_file),
        "/tmp/.agent.json"@,
    ) + opt_mount(ov(p.config_dir), "/tmp/.agent"@) + env_flags(p.env_vars@)
        + " --env PATH=/root/.local/bin:/usr/local/bin:/usr/bin:/bin "@ + image + " sh -c '"@
        + escape_seq(command) + "'"@
}

fn push_mount(out: &mut String, src: &str, dst: &str)
    ensures
        final(out)@ == old(out)@ + mount(src@, dst@),
{
    out.append(" --mount type=bind,source=");
    out.append(src);
    out.append(",target=");
    out.append(dst);
    assert(final(out)@ =~= old(out)@ + mount(src@, dst@));
}

/// Renders the command that runs `command` in a container, with the worktree
/// mirror-mounted so that git and terminal paths stay valid.
pub fn wrap_for_container(command: &str, p: &ContainerParams) -> (r: Result<String, SandboxError>)
    ensures
        match p.image {
            None => r matches Err(SandboxError::NoImage),
            Some(image) => r matches Ok(s) && s@ == container_command_spec(command@, *p, image@),
        },
{
    let image = match p.image {
        Some(i) => i,
        None => {
            return Err(SandboxError::NoImage);
        },
    };
    let mut out = String::from_str(runtime_command(&p.runtime));
    out.append(" run --rm -it --user ");
    push_decimal(&mut out, p.uid as u64);
    out.append(":");
    push_decimal(&mut out, p.gid as u64);
    push_mount(&mut out, p.worktree_root, p.worktree_root);
    if let Some(content) = p.git_file {
        if let Some(g) = main_git_dir(content) {
            push_mount(&mut out, g.as_str(), g.as_str());
        }
    }
    out.append(" --workdir ");
    out.append(p.pane_cwd);
    out.append(" --env HOME=/tmp");
    if let Some(f) = p.config_file {
        push_mount(&mut out, f, "/tmp/.agent.json");
    }
    if let Some(d) = p.config_dir {
        push_mount(&mut out, d, "/tmp/.agent");
    }
    let ghost base = out@;
    let mut i: usize = 0;
    assert(p.env_vars@.subrange(0, 0) =~= Seq::<String>::empty());
    while i < p.env_vars.len()
        invariant
            i <= p.env_vars@.len(),
            out@ == base + env_flags(p.env_vars@.subrange(0, i as int)),
        decreases p.env_vars.len() - i,
    {
        out.append(" --env ");
        out.append(p.env_vars[i].as_str());
        proof {
            let s = p.env_vars@.subrange(0, i + 1);
            assert(s.drop_last() =~= p.env_vars@.subrange(0, i as int));
            assert(out@ =~= base + env_flags(s));
        }
        i = i + 1;
    }
    assert(p.env_vars@.subrange(0, p.env_vars@.len() as int) =~= p.env_vars@);
    out.append(" --env PATH=/root/.local/bin:/usr/local/bin:/usr/bin:/bin ");
    out.append(image);
    out.append(" sh -c '");
    let e = shell_escape(command);
    out.append(e.as_str());
    out.append("'");
    assert(out@ =~= container_command_spec(command@, *p, image@));
    Ok(out)
}

/// The gitdir that a linked worktree's `.git` file points to.
pub open spec fn gitdir_spec(content: Seq<char>) -> Option<Seq<char>> {
    if has_prefix(content, "gitdir: "@) {
        Some(trim(content.subrange(8, content.len() as int)))
    } else {
        None
    }
}

/// Reads the gitdir path from the contents of a worktree's `.git` file.
pub fn gitdir_of(content: &str) -> (r: Option<&str>)
    ensures
        match r {
            Some(g) => gitdir_spec(content@) == Some(g@),
            None => gitdir_spec(content@) is None,
        },
{
    proof {
        reveal_strlit("gitdir: ");
    }
    if !starts_with(content, "gitdir: ") {
        return None;
    }
    let n = content.unicode_len();
    Some(trim_str(content.substring_char(8, n)))
}

/// `name` under directory `base`, as a path join writes it.
pub open spec fn join_spec(base: Seq<char>, name: Seq<char>) -> Seq<char> {
    if base.len() == 0 || base.last() == '/' {
        base + name
    } else {
        base + "/"@ + name
    }
}

fn join(base: &str, name: &str) -> (r: String)
    ensures
        r@ == join_spec(base@, name@),
{
    let n = base.unicode_len();
    let mut out = String::from_str(base);
    if !(n == 0 || base.get_char(n - 1) == '/') {
        out.append("/");
    }
    out.append(name);
    out
}

/// Relies on home::home_dir: the current user's home directory, when one can be
/// determined (the result depends on the environment).
#[verifier::external_body]
fn home_dir_string() -> (r: Option<String>) {
    home::home_dir().map(|p| p.display().to_string())
}

/// Host paths of the sandbox's own credentials, kept apart from the host CLI's.
pub struct SandboxPaths {
    /// `~/.agent-sandbox.json`: the main config and auth file.
    pub config_file: String,
    /// `~/.agent-sandbox/`: the settings directory.
    pub config_dir: String,
}

impl SandboxPaths {
    /// The paths under the home directory `home`.
    pub fn under(home: &str) -> (r: SandboxPaths)
        ensures
            r.config_file@ == join_spec(home@, ".agent-sandbox.json"@),
            r.config_dir@ == join_spec(home@, ".agent-sandbox"@),
    {
        SandboxPaths {
            config_file: join(home, ".agent-sandbox.json"),
            config_dir: join(home, ".agent-sandbox"),
        }
    }

    /// The paths under the current user's home directory, if it is known.
    pub fn new() -> (r: Option<SandboxPaths>)
        ensures
            r matches Some(p) ==> exists|home: Seq<char>|
                p.config_file@ == join_spec(home, ".agent-sandbox.json"@) && p.config_dir@
                    == join_spec(home, ".agent-sandbox"@),
    {
        match home_dir_string() {
            Some(h) => Some(Self::under(h.as_str())),
            None => None,
        }
    }
}

/// The arguments of the interactive credential setup: the sandbox credential
/// file and directory mounted read-write where the agent looks for them.
pub open spec fn auth_args_spec(image: Seq<char>, agent: Seq<char>, config_file: Seq<char>, config_dir: Seq<char>) -> Seq<
    Seq<char>,
> {
    seq![
        "run"@,
        "-it"@,
        "--rm"@,
        "--mount"@,
        "type=bind,source="@ + config_file + ",target=/tmp/.agent.json"@,
        "--mount"@,
        "type=bind,source="@ + config_dir + ",target=/tmp/.agent"@,
        "--env"@,
        "HOME=/tmp"@,
        "--env"@,
        "PATH=/root/.local/bin:/usr/local/bin:/usr/bin:/bin"@,
        image,
        agent,
    ]
}

fn lit(s: &str) -> (r: String)
    ensures
        r@ == s@,
{
    String::from_str(s)
}

/// Arguments for the container runtime that runs the credential setup of `agent`.
pub fn auth_command_args(image: Option<&str>, agent: &str, paths: &SandboxPaths) -> (r: Result<Vec<String>, SandboxError>)
    ensures
        match image {
            None => r matches Err(SandboxError::NoImage),
            Some(i) => r matches Ok(v) && crate::text::views(v@) == auth_args_spec(
                i@,
                agent@,
                paths.config_file@,
                paths.config_dir@,
            ),
        },
{
    let image = match image {
        Some(i) => i,
        None => {
            return Err(SandboxError::NoImage);
        },
    };
    let mut file_mount = String::from_str("type=bind,source=");
    file_mount.append(paths.config_file.as_str());
    file_mount.append(",target=/tmp/.agent.json");
    let mut dir_mount = String::from_str("type=bind,source=");
    dir_mount.append(paths.config_dir.as_str());
    dir_mount.append(",target=/tmp/.agent");
    let mut v: Vec<String> = Vec::new();
    v.push(lit("run"));
    v.push(lit("-it"));
    v.push(lit("--rm"));
    v.push(lit("--mount"));
    v.push(file_mount);
    v.push(lit("--mount"));
    v.push(dir_mount);
    v.push(lit("--env"));
    v.push(lit("HOME=/tmp"));
    v.push(lit("--env"));
    v.push(lit("PATH=/root/.local/bin:/usr/local/bin:/usr/bin:/bin"));
    v.push(String::from_str(image));
    v.push(String::from_str(agent));
    assert(crate::text::views(v@) =~= auth_args_spec(image@, agent@, paths.config_file@, paths.config_dir@));
    Ok(v)
}

/// `s` without its last `/` and what follows it; `None` without a `/`.
pub open spec fn drop_segment(s: Seq<char>) -> Option<Seq<char>>
    decreases s.len(),
{
    if s.len() == 0 {
        None
    } else if s.last() == '/' {
        Some(s.drop_last())
    } else {
        drop_segment(s.drop_last())
    }
}

fn drop_segment_of(s: &str) -> (r: Option<&str>)
    ensures
        match r {
            Some(t) => drop_segment(s@) == Some(t@),
            None => drop_segment(s@) is None,
        },
{
    let n = s.unicode_len();
    let mut j: usize = n;
    assert(s@.subrange(0, n as int) =~= s@);
    while j > 0 && s.get_char(j - 1) != '/'
        invariant
            n == s@.len(),
            j <= n,
            drop_segment(s@) == drop_segment(s@.subrange(0, j as int)),
        decreases j,
    {
        assert(s@.subrange(0, j as int).drop_last() =~= s@.subrange(0, j - 1));
        j = j - 1;
    }
    if j == 0 {
        return None;
    }
    assert(s@.subrange(0, j as int).drop_last() =~= s@.subrange(0, j - 1));
    Some(s.substring_char(0, j - 1))
}

/// `s` without trailing `/` characters.
pub open spec fn trim_slashes_end(s: Seq<char>) -> Seq<char>
    decreases s.len(),
{
    if s.len() > 0 && s.last() == '/' {
        trim_slashes_end(s.drop_last())
    } else {
        s
    }
}

/// The parent directory of path `s`, as `Path::parent` gives it: trailing
/// separators are ignored, the parent of `/x` is `/`, the parent of a single
/// relative component is the empty path, and the root has none.
pub open spec fn path_parent(s: Seq<char>) -> Option<Seq<char>> {
    let t = trim_slashes_end(s);
    if t.len() == 0 {
        None
    } else {
        match drop_segment(t) {
            None => Some(Seq::empty()),
            Some(p) => if trim_slashes_end(p).len() == 0 {
                Some(seq!['/'])
            } else {
                Some(trim_slashes_end(p))
            },
        }
    }
}

fn trim_slashes_end_of(s: &str) -> (r: &str)
    ensures
        r@ == trim_slashes_end(s@),
{
    let n = s.unicode_len();
    let mut j: usize = n;
    assert(s@.subrange(0, n as int) =~= s@);
    while j > 0 && s.get_char(j - 1) == '/'
        invariant
            n == s@.len(),
            j <= n,
            trim_slashes_end(s@) == trim_slashes_end(s@.subrange(0, j as int)),
        decreases j,
    {
        assert(s@.subrange(0, j as int).drop_last() =~= s@.subrange(0, j - 1));
        j = j - 1;
    }
    s.substring_char(0, j)
}

/// Computes `path_parent`.
pub fn parent_of(s: &str) -> (r: Option<String>)
    ensures
        match r {
            Some(p) => path_parent(s@) == Some(p@),
            None => path_parent(s@) is None,
        },
{
    let t = trim_slashes_end_of(s);
    if t.unicode_len() == 0 {
        return None;
    }
    match drop_segment_of(t) {
        None => Some(String::new()),
        Some(p) => {
            let q = trim_slashes_end_of(p);
            if q.unicode_len() == 0 {
                proof {
                    reveal_strlit("/");
                }
                let root = String::from_str("/");
                assert(root@ =~= seq!['/']);
                Some(root)
            } else {
                Some(String::from_str(q))
            }
        },
    }
}

/// The main repository's `.git` directory of a linked worktree: the directory
/// two levels above the gitdir (`M/.git/worktrees/<name>` gives `M/.git`).
pub open spec fn main_git_spec(content: Seq<char>) -> Option<Seq<char>> {
    match gitdir_spec(content) {
        Some(g) => match path_parent(g) {
            Some(w) => path_parent(w),
            None => None,
        },
        None => None,
    }
}

pub open spec fn main_git_of(git_file: Option<&str>) -> Option<Seq<char>> {
    match git_file {
        Some(c) => main_git_spec(c@),
        None => None,
    }
}

/// Finds the main `.git` directory from the contents of a worktree's `.git` file.
pub fn main_git_dir(content: &str) -> (r: Option<String>)
    ensures
        match r {
            Some(g) => main_git_spec(content@) == Some(g@),
            None => main_git_spec(content@) is None,
        },
{
    let g = match gitdir_of(content) {
        Some(g) => g,
        None => {
            return None;
        },
    };
    match parent_of(g) {
        Some(w) => parent_of(w.as_str()),
        None => None,
    }
}

} // verus!
