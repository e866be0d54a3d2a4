//! Lima VM instances: state detection, command rendering and VM selection.
use vstd::prelude::*;
use vstd::string::*;
use crate::shell::{escape_seq, shell_escape};
use crate::text::{
    contains, eq_str, first_index, has_sub, is_ws, is_ws_char, lemma_first_index_at,
    lemma_first_index_none, lines, split_lines,
};

verus! {

/// Prefix of the names of the VMs this tool manages.
pub open spec fn vm_prefix() -> Seq<char> {
    seq!['w', 'm', '-']
}

/// A Lima instance as `limactl list --json` reports it.
pub struct LimaInstanceInfo {
    pub name: String,
    pub status: String,
    pub dir: Option<String>,
}

impl LimaInstanceInfo {
    /// The instance is running.
    pub fn is_running(&self) -> (r: bool)
        ensures
            r == (self.status@ == "Running"@),
    {
        eq_str(self.status.as_str(), "Running")
    }
}

/// A Lima VM instance with the config file it is created from.
pub struct LimaInstance {
    name: String,
    config_path: String,
}

impl LimaInstance {
    /// An instance named `name` whose config lives at `config_path`.
    pub fn new(name: String, config_path: String) -> (r: LimaInstance)
        ensures
            r.name_spec() == name@,
            r.config_path_spec() == config_path@,
    {
        LimaInstance { name, config_path }
    }

    pub closed spec fn name_spec(&self) -> Seq<char> {
        self.name@
    }

    pub closed spec fn config_path_spec(&self) -> Seq<char> {
        self.config_path@
    }

    /// The instance name.
    pub fn name(&self) -> (r: &str)
        ensures
            r@ == self.name_spec(),
    {
        self.name.as_str()
    }

    /// The path of the config file.
    pub fn config_path(&self) -> (r: &str)
        ensures
            r@ == self.config_path_spec(),
    {
        self.config_path.as_str()
    }
}

/// File name of the generated config of VM `vm_name`.
pub fn config_file_name(vm_name: &str) -> (r: String)
    ensures
        r@ == "workmux-lima-"@ + vm_name@ + ".yaml"@,
{
    let mut out = String::from_str("workmux-lima-");
    out.append(vm_name);
    out.append(".yaml");
    out
}

/// A line of `limactl list --json` output that holds something besides whitespace.
pub open spec fn is_row(l: Seq<char>) -> bool {
    exists|k: int| 0 <= k < l.len() && !is_ws(l[k])
}

/// The rows of newline-delimited JSON output: its lines that are not blank.
pub fn ndjson_rows(text: &str) -> (r: Vec<&str>)
    ensures
        r@.len() == lines(text@).filter(|l: Seq<char>| is_row(l)).len(),
        forall|k: int|
            0 <= k < r@.len() ==> (#[trigger] r@[k])@ == lines(text@).filter(
                |l: Seq<char>| is_row(l),
            )[k],
{
    let ls = split_lines(text);
    let ghost pred = |l: Seq<char>| is_row(l);
    let ghost all = lines(text@);
    let mut out: Vec<&str> = Vec::new();
    let mut i: usize = 0;
    proof {
        reveal(Seq::filter);
        assert(all.subrange(0, 0) =~= Seq::<Seq<char>>::empty());
    }
    while i < ls.len()
        invariant
            i <= ls@.len(),
            all == lines(text@),
            ls@.len() == all.len(),
            forall|k: int| 0 <= k < ls@.len() ==> (#[trigger] ls@[k])@ == all[k],
            pred == (|l: Seq<char>| is_row(l)),
            out@.len() == all.subrange(0, i as int).filter(pred).len(),
            forall|k: int|
                0 <= k < out@.len() ==> (#[trigger] out@[k])@ == all.subrange(0, i as int).filter(
                    pred,
                )[k],
        decreases ls.len() - i,
    {
        let ghost before = all.subrange(0, i as int);
        let ghost after = all.subrange(0, i + 1);
        proof {
            reveal(Seq::filter);
            assert(after.drop_last() =~= before);
            assert(after.last() == ls@[i as int]@);
        }
        let l = ls[i];
        let n = l.unicode_len();
        let mut j: usize = 0;
        while j < n && is_ws_char(l.get_char(j))
            invariant
                n == l@.len(),
                j <= n,
                forall|k: int| 0 <= k < j ==> is_ws(l@[k]),
            decreases n - j,
        {
            j = j + 1;
        }
        if j < n {
            out.push(l);
            assert(after.filter(pred) == before.filter(pred).push(l@));
        } else {
            assert(!is_row(l@));
        }
        i = i + 1;
    }
    assert(all.subrange(0, all.len() as int) =~= all);
    out
}

/// The state of a VM before a command is wrapped to run in it.
pub enum VmState {
    /// Already running, no boot needed.
    Running,
    /// Exists but stopped: `limactl start <name>`.
    Stopped,
    /// Does not exist: `limactl start --name <name> <config>`.
    NotFound,
}

/// Instances named `n`.
pub open spec fn named(n: Seq<char>) -> spec_fn(LimaInstanceInfo) -> bool {
    |i: LimaInstanceInfo| i.name@ == n
}

/// The first listed instance named `name`.
pub open spec fn instance_named(instances: Seq<LimaInstanceInfo>, name: Seq<char>) -> Option<int> {
    first_index(instances, named(name))
}

pub open spec fn vm_state_spec(instances: Seq<LimaInstanceInfo>, name: Seq<char>) -> VmState {
    match instance_named(instances, name) {
        Some(k) => if instances[k].status@ == "Running"@ {
            VmState::Running
        } else {
            VmState::Stopped
        },
        None => VmState::NotFound,
    }
}

/// Finds the first listed instance named `name`.
pub fn find_instance(instances: &Vec<LimaInstanceInfo>, name: &str) -> (r: Option<usize>)
    ensures
        match r {
            Some(k) => instance_named(instances@, name@) == Some(k as int) && k < instances@.len(),
            None => instance_named(instances@, name@) is None,
        },
{
    let ghost pred = named(name@);
    let mut i: usize = 0;
    while i < instances.len()
        invariant
            i <= instances@.len(),
            pred == named(name@),
            forall|j: int| 0 <= j < i ==> !pred(#[trigger] instances@[j]),
        decreases instances.len() - i,
    {
        if eq_str(instances[i].name.as_str(), name) {
            proof {
                lemma_first_index_at(instances@, pred, i as int);
            }
            return Some(i);
        }
        i = i + 1;
    }
    proof {
        lemma_first_index_none(instances@, pred);
    }
    None
}

/// The state of VM `vm_name` according to the instance list.
pub fn check_vm_state(instances: &Vec<LimaInstanceInfo>, vm_name: &str) -> (r: VmState)
    ensures
        r == vm_state_spec(instances@, vm_name@),
{
    match find_instance(instances, vm_name) {
        Some(k) => if instances[k].is_running() {
            VmState::Running
        } else {
            VmState::Stopped
        },
        None => VmState::NotFound,
    }
}

/// Whether the VM `name` is listed as running.
pub fn is_listed_running(instances: &Vec<LimaInstanceInfo>, name: &str) -> (r: bool)
    ensures
        r == exists|k: int|
            0 <= k < instances@.len() && instances@[k].name@ == name@ && instances@[k].status@
                == "Running"@,
{
    let mut i: usize = 0;
    while i < instances.len()
        invariant
            i <= instances@.len(),
            forall|k: int|
                0 <= k < i ==> !(instances@[k].name@ == name@ && instances@[k].status@
                    == "Running"@),
        decreases instances.len() - i,
    {
        if eq_str(instances[i].name.as_str(), name) && instances[i].is_running() {
            return true;
        }
        i = i + 1;
    }
    false
}

/// How VMs are shared: one per worktree, or one per project (repository).
pub enum Isolation {
    PerWorktree,
    PerProject,
}

/// FNV-1a over the character codes of `s`, a hash that stays the same across
/// runs and machines.
pub open spec fn scope_hash(s: Seq<char>) -> u32
    decreases s.len(),
{
    if s.len() == 0 {
        2166136261u32
    } else {
        (((scope_hash(s.drop_last()) ^ (s.last() as u32)) as nat * 16777619) % 4294967296) as u32
    }
}

/// The hex digit for `d < 16`.
pub open spec fn hex_char(d: nat) -> char {
    if d < 10 {
        crate::text::digit_char(d)
    } else if d == 10 {
        'a'
    } else if d == 11 {
        'b'
    } else if d == 12 {
        'c'
    } else if d == 13 {
        'd'
    } else if d == 14 {
        'e'
    } else {
        'f'
    }
}

/// The last `k` hex digits of `n`, most significant first.
pub open spec fn hex_digits(n: nat, k: nat) -> Seq<char>
    decreases k,
{
    if k == 0 {
        Seq::empty()
    } else {
        hex_digits(n / 16, (k - 1) as nat).push(hex_char(n % 16))
    }
}

fn hex_str(d: u32) -> (r: &'static str)
    requires
        d < 16,
    ensures
        r@ == seq![hex_char(d as nat)],
{
    proof {
        reveal_strlit("0");
        reveal_strlit("1");
        reveal_strlit("2");
        reveal_strlit("3");
        reveal_strlit("4");
        reveal_strlit("5");
        reveal_strlit("6");
        reveal_strlit("7");
        reveal_strlit("8");
        reveal_strlit("9");
        reveal_strlit("a");
        reveal_strlit("b");
        reveal_strlit("c");
        reveal_strlit("d");
        reveal_strlit("e");
        reveal_strlit("f");
    }
    if d == 0 {
        "0"
    } else if d == 1 {
        "1"
    } else if d == 2 {
        "2"
    } else if d == 3 {
        "3"
    } else if d == 4 {
        "4"
    } else if d == 5 {
        "5"
    } else if d == 6 {
        "6"
    } else if d == 7 {
        "7"
    } else if d == 8 {
        "8"
    } else if d == 9 {
        "9"
    } else if d == 10 {
        "a"
    } else if d == 11 {
        "b"
    } else if d == 12 {
        "c"
    } else if d == 13 {
        "d"
    } else if d == 14 {
        "e"
    } else {
        "f"
    }
}

fn push_hex(out: &mut String, n: u32, k: u32)
    ensures
        final(out)@ == old(out)@ + hex_digits(n as nat, k as nat),
    decreases k,
{
    if k > 0 {
        push_hex(out, n / 16, k - 1);
        let d = hex_str(n % 16);
        out.append(d);
        assert(final(out)@ =~= old(out)@ + hex_digits(n as nat, k as nat));
    } else {
        assert(final(out)@ =~= old(out)@ + hex_digits(n as nat, k as nat));
    }
}

/// Hashes the characters of `s`.
pub fn hash_scope(s: &str) -> (r: u32)
    ensures
        r == scope_hash(s@),
{
    let n = s.unicode_len();
    let mut h: u32 = 2166136261;
    let mut i: usize = 0;
    assert(s@.subrange(0, 0) =~= Seq::<char>::empty());
    while i < n
        invariant
            n == s@.len(),
            i <= n,
            h == scope_hash(s@.subrange(0, i as int)),
        decreases n - i,
    {
        let c = s.get_char(i);
        let x: u32 = h ^ (c as u32);
        h = ((x as u64 * 16777619) % 4294967296) as u32;
        assert(s@.subrange(0, i + 1).drop_last() =~= s@.subrange(0, i as int));
        i = i + 1;
    }
    assert(s@.subrange(0, n as int) =~= s@);
    h
}

/// The VM serving `worktree`: `wm-` and eight hex digits of the hash of the
/// worktree path, or of the repository's git common dir under per-project isolation.
pub open spec fn vm_name_spec(isolation: Isolation, worktree: Seq<char>, common_dir: Seq<char>) -> Seq<char> {
    let scope = match isolation {
        Isolation::PerWorktree => worktree,
        Isolation::PerProject => common_dir,
    };
    vm_prefix() + hex_digits(scope_hash(scope) as nat, 8)
}

/// Derives the VM name for a worktree.
pub fn vm_name(isolation: &Isolation, worktree: &str, common_dir: &str) -> (r: String)
    ensures
        r@ == vm_name_spec(*isolation, worktree@, common_dir@),
{
    let scope = match isolation {
        Isolation::PerWorktree => worktree,
        Isolation::PerProject => common_dir,
    };
    let h = hash_scope(scope);
    proof {
        reveal_strlit("wm-");
    }
    let mut out = String::from_str("wm-");
    assert(out@ =~= vm_prefix());
    push_hex(&mut out, h, 8);
    out
}

/// The wrapped form of a command for the VM sandbox: a call of this program's
/// supervisor, which boots the VM, sets up workdir and environment and runs the
/// command there.
pub open spec fn lima_wrap_spec(command: Seq<char>, self_exe: Seq<char>, worktree: Seq<char>) -> Seq<char> {
    self_exe + " sandbox run "@ + worktree + " -- sh -lc '"@ + escape_seq(command) + "'"@
}

/// Wraps `command` to run inside the VM of `worktree`, through the supervisor
/// subcommand of `self_exe`.
pub fn wrap_for_lima(command: &str, self_exe: &str, worktree: &str) -> (r: String)
    ensures
        r@ == lima_wrap_spec(command@, self_exe@, worktree@),
{
    let mut out = String::from_str(self_exe);
    out.append(" sandbox run ");
    out.append(worktree);
    out.append(" -- sh -lc '");
    let e = shell_escape(command);
    out.append(e.as_str());
    out.append("'");
    out
}

/// The `limactl` arguments that bring a VM in `state` up: none when it runs,
/// `start` for a stopped one, `start --name` with its config for a new one.
pub open spec fn boot_args_spec(state: VmState, vm_name: Seq<char>, config_path: Seq<char>) -> Option<
    Seq<Seq<char>>,
> {
    match state {
        VmState::Running => None,
        VmState::Stopped => Some(seq!["start"@, "--tty=false"@, vm_name]),
        VmState::NotFound => Some(
            seq!["start"@, "--name"@, vm_name, "--tty=false"@, config_path],
        ),
    }
}

/// Lists the `limactl` arguments that boot the VM, if it needs booting.
pub fn boot_args(state: &VmState, vm_name: &str, config_path: &str) -> (r: Option<Vec<String>>)
    ensures
        match r {
            Some(v) => boot_args_spec(*state, vm_name@, config_path@) == Some(crate::text::views(v@)),
            None => boot_args_spec(*state, vm_name@, config_path@) is None,
        },
{
    match state {
        VmState::Running => None,
        VmState::Stopped => {
            let mut v: Vec<String> = Vec::new();
            v.push(String::from_str("start"));
            v.push(String::from_str("--tty=false"));
            v.push(String::from_str(vm_name));
            assert(crate::text::views(v@) =~= seq!["start"@, "--tty=false"@, vm_name@]);
            Some(v)
        },
        VmState::NotFound => {
            let mut v: Vec<String> = Vec::new();
            v.push(String::from_str("start"));
            v.push(String::from_str("--name"));
            v.push(String::from_str(vm_name));
            v.push(String::from_str("--tty=false"));
            v.push(String::from_str(config_path));
            assert(crate::text::views(v@) =~= seq![
                "start"@,
                "--name"@,
                vm_name@,
                "--tty=false"@,
                config_path@,
            ]);
            Some(v)
        },
    }
}

/// Why stopping a VM failed.
pub struct StopError {
    pub name: String,
    pub stderr: String,
}

/// The outcome of `limactl stop <name>`: success, or a VM that was not running,
/// counts as stopped.
pub fn stop_outcome(name: &str, success: bool, stderr: &str) -> (r: Result<(), StopError>)
    ensures
        r is Ok <==> (success || has_sub(stderr@, "not running"@)),
        r matches Err(e) ==> e.name@ == name@ && e.stderr@ == stderr@,
{
    if success || contains(stderr, "not running") {
        Ok(())
    } else {
        Err(StopError { name: String::from_str(name), stderr: String::from_str(stderr) })
    }
}

fn push_joined(out: &mut String, items: &Vec<String>, head: &str, sep: &str)
    ensures
        items@.len() == 0 ==> final(out)@ == old(out)@,
        items@.len() > 0 ==> final(out)@ == old(out)@ + head@ + joined_with(
            crate::text::views(items@),
            head@,
            sep@,
        ),
{
    let ghost base = out@;
    let mut i: usize = 0;
    while i < items.len()
        invariant
            i <= items@.len(),
            i == 0 ==> out@ == base,
            i > 0 ==> out@ == base + head@ + joined_with(
                crate::text::views(items@.subrange(0, i as int)),
                head@,
                sep@,
            ),
        decreases items.len() - i,
    {
        if i == 0 {
            out.append(head);
        } else {
            out.append(sep);
        }
        out.append(items[i].as_str());
        proof {
            let w = crate::text::views(items@.subrange(0, i + 1));
            assert(w.drop_last() =~= crate::text::views(items@.subrange(0, i as int)));
            if i == 0 {
                assert(out@ =~= base + head@ + joined_with(w, head@, sep@));
            } else {
                assert(out@ =~= base + head@ + joined_with(w, head@, sep@));
            }
        }
        i = i + 1;
    }
    assert(items@.subrange(0, items@.len() as int) =~= items@);
}

/// The items joined by `sep`, each but the first preceded by `sep` and the
/// whole preceded by `head` (which the caller writes).
pub open spec fn joined_with(items: Seq<Seq<char>>, head: Seq<char>, sep: Seq<char>) -> Seq<char>
    decreases items.len(),
{
    if items.len() == 0 {
        Seq::empty()
    } else if items.len() == 1 {
        items[0]
    } else {
        joined_with(items.drop_last(), head, sep) + sep + items.last()
    }
}

/// The remote command the supervisor runs in the VM shell: the guest's
/// environment as `export` statements, then the user command. Exports keep
/// shell expansion in the user command working where the VM shell re-quotes it.
pub open spec fn supervisor_command_spec(assignments: Seq<Seq<char>>, command: Seq<Seq<char>>) -> Seq<char> {
    (if assignments.len() == 0 {
        Seq::empty()
    } else {
        "export "@ + joined_with(assignments, "export "@, "; export "@)
    }) + "; "@ + (if command.len() == 0 {
        Seq::empty()
    } else {
        joined_with(command, Seq::empty(), " "@)
    })
}

/// Renders the remote command of the supervisor.
pub fn supervisor_command(assignments: &Vec<String>, command: &Vec<String>) -> (r: String)
    ensures
        r@ == supervisor_command_spec(crate::text::views(assignments@), crate::text::views(command@)),
{
    proof {
        reveal_strlit("");
    }
    assert(""@ =~= Seq::<char>::empty());
    let mut out = String::new();
    push_joined(&mut out, assignments, "export ", "; export ");
    out.append("; ");
    push_joined(&mut out, command, "", " ");
    assert(out@ =~= supervisor_command_spec(crate::text::views(assignments@), crate::text::views(command@)));
    out
}

/// The guest environment of a supervised agent: its own bin directory on PATH,
/// the guest marker, how to reach the host RPC server, then each passed-through
/// variable.
pub open spec fn guest_env_spec(port: u16, token: Seq<char>, env: Seq<(String, String)>) -> Seq<Seq<char>> {
    seq![
        "PATH=\"$HOME/.local/bin:$PATH\""@,
        "WM_SANDBOX_GUEST=1"@,
        "WM_RPC_HOST=host.lima.internal"@,
        "WM_RPC_PORT="@ + crate::text::decimal(port as nat),
        "WM_RPC_TOKEN="@ + token,
    ] + env.map_values(|e: (String, String)| e.0@ + "="@ + e.1@)
}

/// Lists the guest environment assignments.
pub fn guest_env(port: u16, token: &str, env: &Vec<(String, String)>) -> (r: Vec<String>)
    ensures
        crate::text::views(r@) == guest_env_spec(port, token@, env@),
{
    let mut out: Vec<String> = Vec::new();
    out.push(String::from_str("PATH=\"$HOME/.local/bin:$PATH\""));
    out.push(String::from_str("WM_SANDBOX_GUEST=1"));
    out.push(String::from_str("WM_RPC_HOST=host.lima.internal"));
    let mut p = String::from_str("WM_RPC_PORT=");
    crate::text::push_decimal(&mut p, port as u64);
    out.push(p);
    let mut t = String::from_str("WM_RPC_TOKEN=");
    t.append(token);
    out.push(t);
    let ghost head = crate::text::views(out@);
    let mut i: usize = 0;
    while i < env.len()
        invariant
            i <= env@.len(),
            out@.len() == 5 + i,
            crate::text::views(out@) == head + env@.subrange(0, i as int).map_values(
                |e: (String, String)| e.0@ + "="@ + e.1@,
            ),
        decreases env.len() - i,
    {
        let mut a = env[i].0.clone();
        a.append("=");
        a.append(env[i].1.as_str());
        let ghost prev = crate::text::views(out@);
        let ghost av = a@;
        out.push(a);
        assert(crate::text::views(out@) =~= prev.push(av));
        proof {
            let f = |e: (String, String)| e.0@ + "="@ + e.1@;
            assert(env@.subrange(0, i + 1).map_values(f) =~= env@.subrange(0, i as int).map_values(
                f,
            ).push(f(env@[i as int])));
            assert(crate::text::views(out@) =~= head + env@.subrange(0, i + 1).map_values(f));
        }
        i = i + 1;
    }
    assert(env@.subrange(0, env@.len() as int) =~= env@);
    assert(crate::text::views(out@) =~= guest_env_spec(port, token@, env@));
    out
}

} // verus!
