//! Host-exec shims: a directory of links that route guest commands to the host.
use vstd::prelude::*;
use vstd::string::*;
use crate::text::{contains, has_sub, views};

verus! {

/// An entry of the shim directory.
pub enum ShimEntry {
    /// The dispatcher script that every link points to.
    Dispatcher,
    /// A link to the dispatcher.
    Link,
}

/// The shim directory: entry names to entries.
pub type ShimDir = Map<Seq<char>, ShimEntry>;

/// One filesystem write: set an entry, or remove it (`None`).
pub type ShimWrite = (Seq<char>, Option<ShimEntry>);

/// A usable command name: non-empty, without `/` or `\`.
pub open spec fn valid_shim_name(c: Seq<char>) -> bool {
    c.len() > 0 && !has_sub(c, "/"@) && !has_sub(c, "\\"@)
}

pub open spec fn dispatcher_name() -> Seq<char> {
    "_shim"@
}

/// The temporary link name used to replace `c` atomically.
pub open spec fn tmp_name(c: Seq<char>) -> Seq<char> {
    "."@ + c + ".tmp"@
}

/// The writes that creating the shim directory for `cmds` performs, in order:
/// the dispatcher, then for each valid name a link made under a temporary name
/// and renamed into place.
pub open spec fn shim_writes(cmds: Seq<Seq<char>>) -> Seq<ShimWrite>
    decreases cmds.len(),
{
    if cmds.len() == 0 {
        seq![(dispatcher_name(), Some(ShimEntry::Dispatcher))]
    } else {
        let w = shim_writes(cmds.drop_last());
        let c = cmds.last();
        if valid_shim_name(c) {
            w + seq![(tmp_name(c), None), (c, Some(ShimEntry::Link))]
        } else {
            w
        }
    }
}

pub open spec fn write(d: ShimDir, w: ShimWrite) -> ShimDir {
    match w.1 {
        Some(e) => d.insert(w.0, e),
        None => d.remove(w.0),
    }
}

pub open spec fn apply_writes(d: ShimDir, ws: Seq<ShimWrite>) -> ShimDir
    decreases ws.len(),
{
    if ws.len() == 0 {
        d
    } else {
        write(apply_writes(d, ws.drop_last()), ws.last())
    }
}

/// The directory after creating the shims for `cmds` in `d`.
pub open spec fn shim_dir_after(d: ShimDir, cmds: Seq<Seq<char>>) -> ShimDir {
    apply_writes(d, shim_writes(cmds))
}

/// The last write to `k`, if any.
pub open spec fn last_write(ws: Seq<ShimWrite>, k: Seq<char>) -> Option<Option<ShimEntry>>
    decreases ws.len(),
{
    if ws.len() == 0 {
        None
    } else if ws.last().0 == k {
        Some(ws.last().1)
    } else {
        last_write(ws.drop_last(), k)
    }
}

proof fn lemma_apply_writes_at(d: ShimDir, ws: Seq<ShimWrite>, k: Seq<char>)
    ensures
        apply_writes(d, ws).contains_key(k) == match last_write(ws, k) {
            None => d.contains_key(k),
            Some(w) => w is Some,
        },
        apply_writes(d, ws).contains_key(k) ==> apply_writes(d, ws)[k] == match last_write(ws, k) {
            None => d[k],
            Some(w) => w->0,
        },
    decreases ws.len(),
{
    if ws.len() > 0 {
        lemma_apply_writes_at(d, ws.drop_last(), k);
    }
}

proof fn lemma_apply_writes_idempotent(d: ShimDir, ws: Seq<ShimWrite>)
    ensures
        apply_writes(apply_writes(d, ws), ws) == apply_writes(d, ws),
{
    let once = apply_writes(d, ws);
    let twice = apply_writes(once, ws);
    assert forall|k: Seq<char>| #[trigger] twice.contains_key(k) == once.contains_key(k) by {
        lemma_apply_writes_at(d, ws, k);
        lemma_apply_writes_at(once, ws, k);
    }
    assert forall|k: Seq<char>| #[trigger] twice.contains_key(k) implies twice[k] == once[k] by {
        lemma_apply_writes_at(d, ws, k);
        lemma_apply_writes_at(once, ws, k);
    }
    assert(twice =~= once);
}

/// Creating the shim directory a second time with the same commands leaves it
/// exactly as the first time did.
pub proof fn lemma_shim_directory_idempotent(d: ShimDir, cmds: Seq<Seq<char>>)
    ensures
        shim_dir_after(shim_dir_after(d, cmds), cmds) == shim_dir_after(d, cmds),
{
    lemma_apply_writes_idempotent(d, shim_writes(cmds));
}

/// Decides `valid_shim_name`.
pub fn is_valid_shim_name(c: &str) -> (r: bool)
    ensures
        r == valid_shim_name(c@),
{
    c.unicode_len() > 0 && !contains(c, "/") && !contains(c, "\\")
}

/// The names to link, in order: the valid ones among `cmds`.
pub fn shim_names(cmds: &Vec<String>) -> (r: Vec<String>)
    ensures
        views(r@) == views(cmds@).filter(|c: Seq<char>| valid_shim_name(c)),
{
    let ghost pred = |c: Seq<char>| valid_shim_name(c);
    let mut out: Vec<String> = Vec::new();
    let mut i: usize = 0;
    proof {
        reveal(Seq::filter);
        assert(views(cmds@).subrange(0, 0) =~= Seq::<Seq<char>>::empty());
        assert(views(out@) =~= Seq::<Seq<char>>::empty());
    }
    while i < cmds.len()
        invariant
            i <= cmds@.len(),
            pred == (|c: Seq<char>| valid_shim_name(c)),
            views(out@) == views(cmds@).subrange(0, i as int).filter(pred),
        decreases cmds.len() - i,
    {
        let ghost before = views(cmds@).subrange(0, i as int);
        let ghost after = views(cmds@).subrange(0, i + 1);
        proof {
            reveal(Seq::filter);
            assert(after.drop_last() =~= before);
            assert(after.last() == cmds@[i as int]@);
        }
        if is_valid_shim_name(cmds[i].as_str()) {
            out.push(cmds[i].clone());
            assert(views(out@) =~= before.filter(pred).push(cmds@[i as int]@));
        }
        i = i + 1;
    }
    assert(views(cmds@).subrange(0, cmds@.len() as int) =~= views(cmds@));
    out
}

/// The temporary link name for `c`.
pub fn tmp_link_name(c: &str) -> (r: String)
    ensures
        r@ == tmp_name(c@),
{
    let mut out = String::from_str(".");
    out.append(c);
    out.append(".tmp");
    out
}

/// The dispatcher script: runs the host-exec subcommand named after the link.
pub fn dispatcher_script() -> (r: &'static str)
    ensures
        r@ == "#!/bin/sh\nexec workmux host-exec \"$(basename \"$0\")\" \"$@\"\n"@,
{
    "#!/bin/sh\nexec workmux host-exec \"$(basename \"$0\")\" \"$@\"\n"
}

/// The writes a plan describes.
pub open spec fn plan_view(plan: Seq<(String, Option<ShimEntry>)>) -> Seq<ShimWrite> {
    plan.map_values(|w: (String, Option<ShimEntry>)| (w.0@, w.1))
}

/// The writes that create the shim directory for `cmds`, in the order to perform
/// them: the dispatcher, then for each valid name the removal of its temporary
/// link and the link itself (made under the temporary name, then renamed).
pub fn shim_plan(cmds: &Vec<String>) -> (r: Vec<(String, Option<ShimEntry>)>)
    ensures
        plan_view(r@) == shim_writes(views(cmds@)),
{
    let mut out: Vec<(String, Option<ShimEntry>)> = Vec::new();
    out.push((String::from_str("_shim"), Some(ShimEntry::Dispatcher)));
    proof {
        reveal_strlit("_shim");
    }
    assert(views(cmds@).subrange(0, 0) =~= Seq::<Seq<char>>::empty());
    assert(plan_view(out@) =~= shim_writes(views(cmds@).subrange(0, 0)));
    let mut i: usize = 0;
    while i < cmds.len()
        invariant
            i <= cmds@.len(),
            plan_view(out@) == shim_writes(views(cmds@).subrange(0, i as int)),
        decreases cmds.len() - i,
    {
        let ghost prefix = views(cmds@).subrange(0, i + 1);
        assert(prefix.drop_last() =~= views(cmds@).subrange(0, i as int));
        assert(prefix.last() == cmds@[i as int]@);
        if is_valid_shim_name(cmds[i].as_str()) {
            let ghost before = plan_view(out@);
            out.push((tmp_link_name(cmds[i].as_str()), None));
            out.push((cmds[i].clone(), Some(ShimEntry::Link)));
            assert(plan_view(out@) =~= before + seq![
                (tmp_name(cmds@[i as int]@), None),
                (cmds@[i as int]@, Some(ShimEntry::Link)),
            ]);
        }
        i = i + 1;
    }
    assert(views(cmds@).subrange(0, cmds@.len() as int) =~= views(cmds@));
    out
}

} // verus!
