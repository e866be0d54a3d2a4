//! Choosing which managed VMs to stop or prune, and how to describe them.
use vstd::prelude::*;
use vstd::string::*;
use crate::lima::{LimaInstanceInfo, vm_prefix};
use crate::text::{
    decimal, eq_ignore_ascii_case, first_index, lemma_first_index_none, lemma_first_index_props, eq_ignore_ascii_case_spec, has_prefix, parse_u32,
    parse_u32_spec, push_decimal, starts_with, trim, trim_str, views,
};

verus! {

/// A VM this tool manages: its name carries the `wm-` prefix.
pub open spec fn is_managed(i: LimaInstanceInfo) -> bool {
    has_prefix(i.name@, vm_prefix())
}

/// A managed VM that is running.
pub open spec fn is_managed_running(i: LimaInstanceInfo) -> bool {
    is_managed(i) && i.status@ == "Running"@
}

/// Managed instances.
pub open spec fn managed() -> spec_fn(LimaInstanceInfo) -> bool {
    |i: LimaInstanceInfo| is_managed(i)
}

/// Managed instances that are running.
pub open spec fn managed_running() -> spec_fn(LimaInstanceInfo) -> bool {
    |i: LimaInstanceInfo| is_managed_running(i)
}

/// Managed instances named `n`.
pub open spec fn managed_named(n: Seq<char>) -> spec_fn(LimaInstanceInfo) -> bool {
    |i: LimaInstanceInfo| is_managed(i) && i.name@ == n
}

pub open spec fn names_of(s: Seq<LimaInstanceInfo>) -> Seq<Seq<char>> {
    s.map_values(|i: LimaInstanceInfo| i.name@)
}

/// The instances of `instances` that satisfy `running_only ? managed and running : managed`.
pub fn select_managed(instances: &Vec<LimaInstanceInfo>, running_only: bool) -> (r: Vec<
    LimaInstanceInfo,
>)
    ensures
        r@ == instances@.filter(
            if running_only {
                managed_running()
            } else {
                managed()
            },
        ),
{
    let ghost pred = if running_only {
        managed_running()
    } else {
        managed()
    };
    let mut out: Vec<LimaInstanceInfo> = Vec::new();
    let mut i: usize = 0;
    proof {
        reveal(Seq::filter);
        assert(instances@.subrange(0, 0) =~= Seq::<LimaInstanceInfo>::empty());
        assert(out@ =~= Seq::<LimaInstanceInfo>::empty());
    }
    while i < instances.len()
        invariant
            i <= instances@.len(),
            pred == (if running_only {
                managed_running()
            } else {
                managed()
            }),
            out@ == instances@.subrange(0, i as int).filter(pred),
        decreases instances.len() - i,
    {
        let ghost before = instances@.subrange(0, i as int);
        let ghost after = instances@.subrange(0, i + 1);
        proof {
            reveal(Seq::filter);
            assert(after.drop_last() =~= before);
        }
        let inst = &instances[i];
        let keep = starts_with(inst.name.as_str(), "wm-") && (!running_only || inst.is_running());
        proof {
            reveal_strlit("wm-");
            assert("wm-"@ =~= vm_prefix());
        }
        if keep {
            let copy = LimaInstanceInfo {
                name: inst.name.clone(),
                status: inst.status.clone(),
                dir: match &inst.dir {
                    Some(d) => Some(d.clone()),
                    None => None,
                },
            };
            assert(copy == *inst);
            out.push(copy);
            assert(out@ =~= before.filter(pred).push(*inst));
        }
        i = i + 1;
    }
    assert(instances@.subrange(0, instances@.len() as int) =~= instances@);
    out
}

/// What `sandbox stop` should do.
pub enum StopPlan {
    /// No managed VM is running.
    NoneRunning,
    /// The named VM exists but is not running.
    AlreadyStopped { name: String, status: String },
    /// Stop these VMs.
    Stop { names: Vec<String> },
    /// Let the user choose among these running VMs.
    Choose { names: Vec<String> },
}

/// Why `sandbox stop` cannot proceed.
pub enum StopSelectError {
    /// No managed VM carries this name.
    NotFound { name: String },
}

fn names(v: &Vec<LimaInstanceInfo>) -> (r: Vec<String>)
    ensures
        views(r@) == names_of(v@),
{
    let mut out: Vec<String> = Vec::new();
    let mut i: usize = 0;
    while i < v.len()
        invariant
            i <= v@.len(),
            views(out@) == names_of(v@.subrange(0, i as int)),
        decreases v.len() - i,
    {
        out.push(v[i].name.clone());
        assert(v@.subrange(0, i + 1) =~= v@.subrange(0, i as int).push(v@[i as int]));
        assert(names_of(v@.subrange(0, i + 1)) =~= names_of(v@.subrange(0, i as int)).push(
            v@[i as int].name@,
        ));
        assert(views(out@) =~= names_of(v@.subrange(0, i + 1)));
        i = i + 1;
    }
    assert(v@.subrange(0, v@.len() as int) =~= v@);
    out
}

/// Plans `sandbox stop`: every running managed VM with `all`, the named one with
/// `name`, otherwise an interactive choice among the running ones.
pub fn plan_stop(instances: &Vec<LimaInstanceInfo>, name: Option<&str>, all: bool) -> (r: Result<
    StopPlan,
    StopSelectError,
>)
    ensures
        ({
            let running = names_of(instances@.filter(managed_running()));
            if all || name is None {
                if running.len() == 0 {
                    r matches Ok(StopPlan::NoneRunning)
                } else if all {
                    r matches Ok(StopPlan::Stop { names }) && views(names@) == running
                } else {
                    r matches Ok(StopPlan::Choose { names }) && views(names@) == running
                }
            } else {
                let n = name->Some_0@;
                match first_index(instances@, managed_named(n)) {
                    None => r matches Err(StopSelectError::NotFound { name: e }) && e@ == n,
                    Some(k) => if instances@[k].status@ == "Running"@ {
                        r matches Ok(StopPlan::Stop { names }) && views(names@) == seq![n]
                    } else {
                        r matches Ok(StopPlan::AlreadyStopped { name: a, status }) && a@ == n
                            && status@ == instances@[k].status@
                    },
                }
            }
        }),
{
    if all || name.is_none() {
        let running = select_managed(instances, true);
        let running_names = names(&running);
        if running_names.len() == 0 {
            return Ok(StopPlan::NoneRunning);
        }
        if all {
            return Ok(StopPlan::Stop { names: running_names });
        }
        return Ok(StopPlan::Choose { names: running_names });
    }
    let n = match name {
        Some(n) => n,
        None => "",
    };
    let ghost p1 = crate::lima::named(n@);
    let ghost p2 = managed_named(n@);
    proof {
        reveal_strlit("wm-");
        assert("wm-"@ =~= vm_prefix());
    }
    if !starts_with(n, "wm-") {
        proof {
            assert forall|j: int| 0 <= j < instances@.len() implies !p2(#[trigger] instances@[j]) by {}
            lemma_first_index_none(instances@, p2);
        }
        return Err(StopSelectError::NotFound { name: String::from_str(n) });
    }
    assert(p1 =~= p2);
    match crate::lima::find_instance(instances, n) {
        None => Err(StopSelectError::NotFound { name: String::from_str(n) }),
        Some(k) => {
            proof {
                lemma_first_index_props(instances@, p1);
            }
            let managed = instances;
            if managed[k].is_running() {
                let mut v: Vec<String> = Vec::new();
                v.push(String::from_str(n));
                assert(views(v@) =~= seq![n@]);
                Ok(StopPlan::Stop { names: v })
            } else {
                Ok(StopPlan::AlreadyStopped { name: String::from_str(n), status: managed[k].status.clone() })
            }
        },
    }
}

/// A choice among listed VMs.
pub enum VmSelection {
    All,
    /// Zero-based index into the list.
    One(usize),
}

/// Why a typed choice was refused.
pub enum SelectionError {
    /// Neither `all` nor a number.
    NotANumber,
    /// A number outside `1..=count`.
    OutOfRange { count: usize },
}

/// The choice typed at the prompt: `all` in any case, or a 1-based number.
pub open spec fn selection_spec(input: Seq<char>, count: usize) -> Result<VmSelection, SelectionError> {
    let t = trim(input);
    if eq_ignore_ascii_case_spec(t, "all"@) {
        Ok(VmSelection::All)
    } else {
        match parse_u32_spec(t) {
            None => Err(SelectionError::NotANumber),
            Some(n) => if 1 <= n <= count {
                Ok(VmSelection::One((n - 1) as usize))
            } else {
                Err(SelectionError::OutOfRange { count })
            },
        }
    }
}

/// Reads the choice typed at the prompt listing `count` VMs.
pub fn parse_vm_selection(input: &str, count: usize) -> (r: Result<VmSelection, SelectionError>)
    ensures
        r == selection_spec(input@, count),
{
    let t = trim_str(input);
    if eq_ignore_ascii_case(t, "all") {
        return Ok(VmSelection::All);
    }
    match parse_u32(t) {
        None => Err(SelectionError::NotANumber),
        Some(n) => if 1 <= n as usize && n as usize <= count {
            Ok(VmSelection::One((n - 1) as usize))
        } else {
            Err(SelectionError::OutOfRange { count })
        },
    }
}

/// A confirmation prompt was answered yes: `y`, or `yes` where `accept_word` is set,
/// in any case and with surrounding whitespace.
pub fn is_yes(input: &str, accept_word: bool) -> (r: bool)
    ensures
        r == (eq_ignore_ascii_case_spec(trim(input@), "y"@) || (accept_word
            && eq_ignore_ascii_case_spec(trim(input@), "yes"@))),
{
    let t = trim_str(input);
    eq_ignore_ascii_case(t, "y") || (accept_word && eq_ignore_ascii_case(t, "yes"))
}

/// Sum of `sizes`, saturating at the largest `u64`.
pub open spec fn total_spec(sizes: Seq<u64>) -> nat
    decreases sizes.len(),
{
    if sizes.len() == 0 {
        0
    } else {
        total_spec(sizes.drop_last()) + sizes.last() as nat
    }
}

/// Total of `sizes`, saturating at `u64::MAX`.
pub fn total_size(sizes: &Vec<u64>) -> (r: u64)
    ensures
        r == if total_spec(sizes@) > u64::MAX {
            u64::MAX as nat
        } else {
            total_spec(sizes@)
        },
{
    let mut t: u64 = 0;
    let mut i: usize = 0;
    let mut saturated = false;
    while i < sizes.len()
        invariant
            i <= sizes@.len(),
            !saturated ==> t == total_spec(sizes@.subrange(0, i as int)),
            saturated ==> t == u64::MAX && total_spec(sizes@.subrange(0, i as int)) > u64::MAX,
        decreases sizes.len() - i,
    {
        assert(sizes@.subrange(0, i + 1).drop_last() =~= sizes@.subrange(0, i as int));
        if !saturated {
            if t > u64::MAX - sizes[i] {
                t = u64::MAX;
                saturated = true;
            } else {
                t = t + sizes[i];
            }
        }
        i = i + 1;
    }
    assert(sizes@.subrange(0, sizes@.len() as int) =~= sizes@);
    t
}

/// `1024^k`.
pub open spec fn kib_pow(k: nat) -> nat
    decreases k,
{
    if k == 0 {
        1
    } else {
        1024 * kib_pow((k - 1) as nat)
    }
}

/// Unit index for `bytes`: the largest `k <= 4` with `1024^k <= bytes`.
pub open spec fn unit_index(bytes: nat) -> nat {
    if bytes >= kib_pow(4) {
        4
    } else if bytes >= kib_pow(3) {
        3
    } else if bytes >= kib_pow(2) {
        2
    } else if bytes >= kib_pow(1) {
        1
    } else {
        0
    }
}

pub open spec fn unit_name(k: nat) -> Seq<char> {
    if k == 0 {
        "B"@
    } else if k == 1 {
        "KB"@
    } else if k == 2 {
        "MB"@
    } else if k == 3 {
        "GB"@
    } else {
        "TB"@
    }
}

/// `bytes / 1024^k` in hundredths, rounded to nearest with ties to even.
pub open spec fn hundredths(bytes: nat, k: nat) -> nat {
    let d = kib_pow(k);
    let q = bytes * 100 / d;
    let rem = bytes * 100 % d;
    if rem * 2 > d || (rem * 2 == d && q % 2 == 1) {
        q + 1
    } else {
        q
    }
}

/// Two-digit rendering of `n < 100`.
pub open spec fn two_digits(n: nat) -> Seq<char> {
    if n < 10 {
        "0"@ + decimal(n)
    } else {
        decimal(n)
    }
}

/// Human-readable size: whole bytes below 1 KB, else two decimals in the largest unit up to TB.
pub open spec fn format_bytes_spec(bytes: nat) -> Seq<char> {
    if bytes == 0 {
        "0 B"@
    } else if unit_index(bytes) == 0 {
        decimal(bytes) + " B"@
    } else {
        let h = hundredths(bytes, unit_index(bytes));
        decimal(h / 100) + "."@ + two_digits(h % 100) + " "@ + unit_name(unit_index(bytes))
    }
}

/// Formats a byte count for display.
pub fn format_bytes(bytes: u64) -> (r: String)
    ensures
        r@ == format_bytes_spec(bytes as nat),
{
    if bytes == 0 {
        return String::from_str("0 B");
    }
    proof {
        reveal_with_fuel(kib_pow, 5);
    }
    assert(kib_pow(4) == 1099511627776);
    let (k, d): (u64, u64) = if bytes >= 1099511627776 {
        (4, 1099511627776)
    } else if bytes >= 1073741824 {
        (3, 1073741824)
    } else if bytes >= 1048576 {
        (2, 1048576)
    } else if bytes >= 1024 {
        (1, 1024)
    } else {
        (0, 1)
    };
    assert(k as nat == unit_index(bytes as nat));
    assert(d as nat == kib_pow(k as nat));
    let mut out = String::new();
    if k == 0 {
        push_decimal(&mut out, bytes);
        out.append(" B");
        return out;
    }
    let scaled: u128 = bytes as u128 * 100;
    let q: u128 = scaled / d as u128;
    let rem: u128 = scaled % d as u128;
    let h: u128 = if rem * 2 > d as u128 || (rem * 2 == d as u128 && q % 2 == 1) {
        q + 1
    } else {
        q
    };
    assert(h as nat == hundredths(bytes as nat, k as nat));
    assert(h <= 100 * 18446744073709551615u128) by {
        assert(q <= scaled) by (nonlinear_arith)
            requires
                q == scaled / d as u128,
                d >= 1,
        ;
    }
    let whole: u64 = (h / 100) as u64;
    let frac: u64 = (h % 100) as u64;
    push_decimal(&mut out, whole);
    out.append(".");
    if frac < 10 {
        out.append("0");
    }
    push_decimal(&mut out, frac);
    out.append(" ");
    let unit = if k == 1 {
        "KB"
    } else if k == 2 {
        "MB"
    } else if k == 3 {
        "GB"
    } else {
        "TB"
    };
    out.append(unit);
    assert(out@ =~= format_bytes_spec(bytes as nat));
    out
}

/// `n` followed by `unit`, pluralised unless `n` is one, then ` ago`.
pub open spec fn ago(n: nat, unit: Seq<char>) -> Seq<char> {
    decimal(n) + " "@ + unit + (if n == 1 {
        ""@
    } else {
        "s"@
    }) + " ago"@
}

/// How long ago something happened, from the seconds elapsed since
/// (`None` when it lies in the future).
pub open spec fn age_spec(elapsed: Option<u64>) -> Seq<char> {
    match elapsed {
        None => "in the future"@,
        Some(s) => {
            let minutes = s as nat / 60;
            let hours = minutes / 60;
            let days = hours / 24;
            let months = days / 30;
            if s < 60 {
                "just now"@
            } else if minutes < 60 {
                ago(minutes, "minute"@)
            } else if hours < 24 {
                ago(hours, "hour"@)
            } else if days < 30 {
                ago(days, "day"@)
            } else if months < 12 {
                ago(months, "month"@)
            } else {
                ago(months / 12, "year"@)
            }
        },
    }
}

fn push_ago(out: &mut String, n: u64, unit: &str)
    ensures
        final(out)@ == old(out)@ + ago(n as nat, unit@),
{
    push_decimal(out, n);
    out.append(" ");
    out.append(unit);
    if n != 1 {
        out.append("s");
    } else {
        out.append("");
    }
    out.append(" ago");
    assert(final(out)@ =~= old(out)@ + ago(n as nat, unit@));
}

/// Formats an age for display.
pub fn format_duration_since(elapsed: Option<u64>) -> (r: String)
    ensures
        r@ == age_spec(elapsed),
{
    let s = match elapsed {
        None => {
            return String::from_str("in the future");
        },
        Some(s) => s,
    };
    if s < 60 {
        return String::from_str("just now");
    }
    let mut out = String::new();
    let minutes = s / 60;
    if minutes < 60 {
        push_ago(&mut out, minutes, "minute");
        return out;
    }
    let hours = minutes / 60;
    if hours < 24 {
        push_ago(&mut out, hours, "hour");
        return out;
    }
    let days = hours / 24;
    if days < 30 {
        push_ago(&mut out, days, "day");
        return out;
    }
    let months = days / 30;
    if months < 12 {
        push_ago(&mut out, months, "month");
        return out;
    }
    push_ago(&mut out, months / 12, "year");
    out
}

} // verus!
