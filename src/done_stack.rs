//! The stack of panes that most recently reported "done".
use vstd::prelude::*;
use crate::text::{eq_str, name_in, views};

verus! {

/// Pane ids, most recently done first.
pub struct DoneStack {
    items: Vec<String>,
}

impl View for DoneStack {
    type V = Seq<Seq<char>>;

    closed spec fn view(&self) -> Seq<Seq<char>> {
        views(self.items@)
    }
}

/// Entries other than `p`.
pub open spec fn differs_from(p: Seq<char>) -> spec_fn(Seq<char>) -> bool {
    |x: Seq<char>| x != p
}

/// Entries whose panes are among `live`.
pub open spec fn among(live: Seq<Seq<char>>) -> spec_fn(Seq<char>) -> bool {
    |x: Seq<char>| live.contains(x)
}

/// The stack after `p` reports done: `p` moved (or added) to the front.
pub open spec fn push_spec(s: Seq<Seq<char>>, p: Seq<char>) -> Seq<Seq<char>> {
    seq![p] + s.filter(differs_from(p))
}

/// The stack after `p` stops being done.
pub open spec fn pop_spec(s: Seq<Seq<char>>, p: Seq<char>) -> Seq<Seq<char>> {
    s.filter(differs_from(p))
}

/// The entries whose panes still exist.
pub open spec fn live_entries(s: Seq<Seq<char>>, live: Seq<Seq<char>>) -> Seq<Seq<char>> {
    s.filter(among(live))
}

/// What `last_done` returns, and the stack it leaves: entries of vanished panes
/// are dropped, then the front entry is returned and moved to the back.
pub open spec fn last_done_spec(s: Seq<Seq<char>>, live: Seq<Seq<char>>) -> (Option<Seq<char>>, Seq<Seq<char>>) {
    let l = live_entries(s, live);
    if l.len() == 0 {
        (None, l)
    } else {
        (Some(l[0]), l.drop_first().push(l[0]))
    }
}

/// Copies the entries of `v` that differ from `p` (when `keep_live` is false) or
/// that are among `live` (when it is true).
fn retain(v: &Vec<String>, p: &str, live: &Vec<String>, keep_live: bool) -> (r: Vec<String>)
    ensures
        views(r@) == if keep_live {
            live_entries(views(v@), views(live@))
        } else {
            pop_spec(views(v@), p@)
        },
{
    let ghost pred = if keep_live {
        among(views(live@))
    } else {
        differs_from(p@)
    };
    let mut out: Vec<String> = Vec::new();
    let mut i: usize = 0;
    proof {
        reveal(Seq::filter);
        assert(views(v@).subrange(0, 0) =~= Seq::<Seq<char>>::empty());
        assert(views(out@) =~= Seq::<Seq<char>>::empty());
    }
    while i < v.len()
        invariant
            i <= v@.len(),
            pred == (if keep_live {
                among(views(live@))
            } else {
                differs_from(p@)
            }),
            views(out@) == views(v@).subrange(0, i as int).filter(pred),
        decreases v.len() - i,
    {
        let ghost before = views(v@).subrange(0, i as int);
        let ghost after = views(v@).subrange(0, i + 1);
        proof {
            reveal(Seq::filter);
            assert(after.drop_last() =~= before);
            assert(after.last() == v@[i as int]@);
        }
        let keep = if keep_live {
            name_in(live, v[i].as_str())
        } else {
            !eq_str(v[i].as_str(), p)
        };
        if keep {
            out.push(v[i].clone());
            assert(views(out@) =~= before.filter(pred).push(v@[i as int]@));
        }
        i = i + 1;
    }
    assert(views(v@).subrange(0, v@.len() as int) =~= views(v@));
    out
}

impl DoneStack {
    /// An empty stack.
    pub fn new() -> (r: DoneStack)
        ensures
            r@ == Seq::<Seq<char>>::empty(),
    {
        let r = DoneStack { items: Vec::new() };
        assert(r@ =~= Seq::<Seq<char>>::empty());
        r
    }

    /// A stack holding `panes`, most recent first, as it was persisted.
    pub fn from_panes(panes: Vec<String>) -> (r: DoneStack)
        ensures
            r@ == views(panes@),
    {
        DoneStack { items: panes }
    }

    /// The entries, most recent first, for persisting.
    pub fn panes(&self) -> (r: &Vec<String>)
        ensures
            views(r@) == self@,
    {
        &self.items
    }

    /// Records that `pane` is done: it moves to the front, once.
    pub fn push(&mut self, pane: &str)
        ensures
            final(self)@ == push_spec(old(self)@, pane@),
    {
        let rest = retain(&self.items, pane, &self.items, false);
        let mut items: Vec<String> = Vec::new();
        items.push(String::from_str(pane));
        let mut i: usize = 0;
        while i < rest.len()
            invariant
                i <= rest@.len(),
                items@.len() == i + 1,
                items@[0]@ == pane@,
                forall|k: int| 0 <= k < i ==> (#[trigger] items@[k + 1])@ == rest@[k]@,
            decreases rest.len() - i,
        {
            items.push(rest[i].clone());
            i = i + 1;
        }
        assert forall|j: int| 1 <= j < items@.len() implies items@[j]@ == rest@[j - 1]@ by {
            assert(items@[(j - 1) + 1]@ == rest@[j - 1]@);
        }
        assert(views(items@) =~= seq![pane@] + views(rest@));
        self.items = items;
    }

    /// Records that `pane` is no longer done.
    pub fn pop(&mut self, pane: &str)
        ensures
            final(self)@ == pop_spec(old(self)@, pane@),
    {
        let rest = retain(&self.items, pane, &self.items, false);
        self.items = rest;
    }

    /// The most recently done pane that still exists, rotated to the back so that
    /// repeated calls cycle through the done panes; `None` when there is none.
    pub fn last_done(&mut self, live: &Vec<String>) -> (r: Option<String>)
        ensures
            opt_seq(r) == last_done_spec(old(self)@, views(live@)).0,
            final(self)@ == last_done_spec(old(self)@, views(live@)).1,
    {
        let kept = retain(&self.items, "", live, true);
        if kept.len() == 0 {
            self.items = kept;
            return None;
        }
        let front = kept[0].clone();
        let mut items: Vec<String> = Vec::new();
        let mut i: usize = 1;
        while i < kept.len()
            invariant
                1 <= i <= kept@.len(),
                items@.len() == i - 1,
                forall|k: int| 0 <= k < i - 1 ==> (#[trigger] items@[k])@ == kept@[k + 1]@,
            decreases kept.len() - i,
        {
            items.push(kept[i].clone());
            i = i + 1;
        }
        items.push(front.clone());
        assert(views(items@) =~= views(kept@).drop_first().push(views(kept@)[0]));
        self.items = items;
        Some(front)
    }
}

proof fn lemma_filter_pair<A>(x: A, y: A, pred: spec_fn(A) -> bool)
    requires
        pred(x),
        pred(y),
    ensures
        seq![x, y].filter(pred) == seq![x, y],
{
    reveal_with_fuel(Seq::filter, 3);
    assert(seq![x, y].drop_last() =~= seq![x]);
    assert(seq![x].drop_last() =~= Seq::<A>::empty());
}

proof fn lemma_filter_push<A>(a: Seq<A>, x: A, pred: spec_fn(A) -> bool)
    ensures
        a.push(x).filter(pred) == if pred(x) {
            a.filter(pred).push(x)
        } else {
            a.filter(pred)
        },
{
    reveal(Seq::filter);
    assert(a.push(x).drop_last() =~= a);
}

/// Entries of `s` other than `p` and `q` whose panes exist.
pub open spec fn others_live(s: Seq<Seq<char>>, p: Seq<char>, q: Seq<char>, live: Seq<Seq<char>>) -> Seq<Seq<char>> {
    s.filter(differs_from(p)).filter(differs_from(q)).filter(among(live))
}

proof fn lemma_push_twice_live(s: Seq<Seq<char>>, p: Seq<char>, q: Seq<char>, live: Seq<Seq<char>>)
    requires
        p != q,
        live.contains(p),
        live.contains(q),
    ensures
        live_entries(push_spec(push_spec(s, p), q), live) == seq![q, p] + others_live(s, p, q, live),
{
    let f = s.filter(differs_from(p));
    Seq::filter_distributes_over_add(seq![p], f, differs_from(q));
    lemma_filter_push(Seq::empty(), p, differs_from(q));
    assert(Seq::<Seq<char>>::empty().push(p) =~= seq![p]);
    Seq::filter_distributes_over_add(seq![q], seq![p] + f.filter(differs_from(q)), among(live));
    Seq::filter_distributes_over_add(seq![p], f.filter(differs_from(q)), among(live));
    lemma_filter_push(Seq::empty(), q, among(live));
    lemma_filter_push(Seq::empty(), p, among(live));
    assert(Seq::<Seq<char>>::empty().push(q) =~= seq![q]);
    assert(Seq::<Seq<char>>::empty().filter(among(live)) =~= Seq::<Seq<char>>::empty()) by {
        reveal(Seq::filter);
    }
    assert(Seq::<Seq<char>>::empty().filter(differs_from(q)) =~= Seq::<Seq<char>>::empty()) by {
        reveal(Seq::filter);
    }
    assert(seq![p].filter(differs_from(q)) == seq![p]);
    assert(seq![p].filter(among(live)) == seq![p]);
    assert(seq![q].filter(among(live)) == seq![q]);
    assert(push_spec(s, p) == seq![p] + f);
    assert(push_spec(push_spec(s, p), q) == seq![q] + (seq![p] + f.filter(differs_from(q))));
    assert(seq![q, p] =~= seq![q] + seq![p]);
    assert(seq![q] + (seq![p] + others_live(s, p, q, live)) =~= seq![q, p] + others_live(s, p, q, live));
}

/// After `p` and then `q` report done, repeated `last_done` calls return `q`,
/// then `p`, then `q` again, while both panes exist and no other existing pane
/// is on the stack.
pub proof fn lemma_done_rotation(s: Seq<Seq<char>>, p: Seq<char>, q: Seq<char>, live: Seq<Seq<char>>)
    requires
        p != q,
        live.contains(p),
        live.contains(q),
        others_live(s, p, q, live).len() == 0,
    ensures
        last_done_spec(push_spec(push_spec(s, p), q), live).0 == Some(q),
        last_done_spec(last_done_spec(push_spec(push_spec(s, p), q), live).1, live).0 == Some(p),
        last_done_spec(
            last_done_spec(last_done_spec(push_spec(push_spec(s, p), q), live).1, live).1,
            live,
        ).0 == Some(q),
{
    lemma_push_twice_live(s, p, q, live);
    assert(seq![q, p] + others_live(s, p, q, live) =~= seq![q, p]);
    assert(seq![q, p].drop_first().push(q) =~= seq![p, q]);
    lemma_filter_pair(p, q, among(live));
    assert(seq![p, q].drop_first().push(p) =~= seq![q, p]);
    lemma_filter_pair(q, p, among(live));
}

pub open spec fn opt_seq(o: Option<String>) -> Option<Seq<char>> {
    match o {
        Some(s) => Some(s@),
        None => None,
    }
}

} // verus!
