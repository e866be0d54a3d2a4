//! The pane-setup engine: turns a declarative pane layout into backend steps.
use vstd::prelude::*;
use vstd::string::*;
use crate::text::{has_prefix, matches_at, occurs_at, views};
use crate::zellij::SplitDirection;

verus! {

/// The placeholder for the agent binary in a pane command.
pub open spec fn agent_placeholder() -> Seq<char> {
    seq!['<', 'a', 'g', 'e', 'n', 't', '>']
}

/// `s` with every `<agent>` replaced by `agent`, scanning left to right.
pub open spec fn substitute_agent(s: Seq<char>, agent: Seq<char>) -> Seq<char>
    decreases s.len(),
{
    if s.len() == 0 {
        s
    } else if has_prefix(s, agent_placeholder()) {
        agent + substitute_agent(s.subrange(agent_placeholder().len() as int, s.len() as int), agent)
    } else {
        seq![s[0]] + substitute_agent(s.drop_first(), agent)
    }
}

proof fn lemma_substitute_plain(s: Seq<char>, agent: Seq<char>, start: int, i: int)
    requires
        0 <= start <= i < s.len(),
        !occurs_at(s, agent_placeholder(), i),
        substitute_agent(s.subrange(start, s.len() as int), agent) == s.subrange(start, i)
            + substitute_agent(s.subrange(i, s.len() as int), agent),
    ensures
        substitute_agent(s.subrange(start, s.len() as int), agent) == s.subrange(start, i + 1)
            + substitute_agent(s.subrange(i + 1, s.len() as int), agent),
{
    let t = s.subrange(i, s.len() as int);
    assert(t.drop_first() =~= s.subrange(i + 1, s.len() as int));
    if has_prefix(t, agent_placeholder()) {
        assert(s.subrange(i, i + 7) =~= t.subrange(0, 7));
        assert(occurs_at(s, agent_placeholder(), i));
    }
    assert(s.subrange(start, i) + (seq![s[i]] + substitute_agent(t.drop_first(), agent))
        =~= s.subrange(start, i + 1) + substitute_agent(s.subrange(i + 1, s.len() as int), agent));
}

/// Resolves a pane command: every `<agent>` becomes the effective agent binary.
pub fn resolve_command(cmd: &str, agent: &str) -> (r: String)
    ensures
        r@ == substitute_agent(cmd@, agent@),
{
    let placeholder = "<agent>";
    proof {
        reveal_strlit("<agent>");
    }
    assert(placeholder@ =~= agent_placeholder());
    let n = cmd.unicode_len();
    let mut out = String::new();
    let mut start: usize = 0;
    let mut i: usize = 0;
    assert(cmd@.subrange(0, n as int) =~= cmd@);
    assert(cmd@.subrange(0, 0) =~= Seq::<char>::empty());
    while i < n
        invariant
            n == cmd@.len(),
            placeholder@ == agent_placeholder(),
            start <= i <= n,
            out@ + substitute_agent(cmd@.subrange(start as int, n as int), agent@) == substitute_agent(
                cmd@,
                agent@,
            ),
            substitute_agent(cmd@.subrange(start as int, n as int), agent@) == cmd@.subrange(
                start as int,
                i as int,
            ) + substitute_agent(cmd@.subrange(i as int, n as int), agent@),
        decreases n - i,
    {
        if matches_at(cmd, placeholder, i) {
            let piece = cmd.substring_char(start, i);
            out.append(piece);
            out.append(agent);
            proof {
                let t = cmd@.subrange(i as int, n as int);
                assert(t.subrange(0, 7) =~= cmd@.subrange(i as int, i + 7));
                assert(t.subrange(7, t.len() as int) =~= cmd@.subrange(i + 7, n as int));
                assert(cmd@.subrange(i + 7, i + 7) =~= Seq::<char>::empty());
            }
            i = i + 7;
            start = i;
        } else {
            proof {
                lemma_substitute_plain(cmd@, agent@, start as int, i as int);
            }
            i = i + 1;
        }
    }
    assert(cmd@.subrange(n as int, n as int) =~= Seq::<char>::empty());
    let rest = cmd.substring_char(start, n);
    out.append(rest);
    assert(out@ =~= substitute_agent(cmd@, agent@));
    out
}

/// One pane of a declared layout.
pub struct PaneConfig {
    pub command: Option<String>,
    pub focus: bool,
    /// How to split for this pane; the first pane never splits.
    pub split: Option<SplitDirection>,
    /// Index of the already created pane to split; the last one when absent.
    pub target: Option<usize>,
}

/// Why a layout cannot be realised.
pub enum PaneSetupError {
    /// A split names a pane that does not exist (yet).
    InvalidTarget { target: usize, created: usize },
}

/// What the backend does next for a pane config.
pub enum SetupStep {
    /// Run the first pane's command in the initial pane.
    Respawn { pane: String },
    /// Split pane `from` to create this pane.
    Split { from: String },
    /// A later pane without a split is skipped.
    Skip,
}

/// Progress of a pane setup: the panes created so far (the initial one first)
/// and the pane to focus at the end.
pub struct PaneSetup {
    panes: Vec<String>,
    focus: Option<String>,
}

impl PaneSetup {
    pub closed spec fn panes_spec(&self) -> Seq<Seq<char>> {
        views(self.panes@)
    }

    pub closed spec fn focus_spec(&self) -> Option<Seq<char>> {
        match self.focus {
            Some(f) => Some(f@),
            None => None,
        }
    }

    /// A setup that starts from the pane `initial`.
    pub fn new(initial: &str) -> (r: PaneSetup)
        ensures
            r.panes_spec() == seq![initial@],
            r.focus_spec() is None,
    {
        let mut panes: Vec<String> = Vec::new();
        panes.push(String::from_str(initial));
        let r = PaneSetup { panes, focus: None };
        assert(r.panes_spec() =~= seq![initial@]);
        r
    }

    /// The step for config number `index`.
    pub fn step(&self, index: usize, config: &PaneConfig) -> (r: Result<SetupStep, PaneSetupError>)
        requires
            self.panes_spec().len() > 0,
        ensures
            index == 0 ==> (r matches Ok(SetupStep::Respawn { pane }) && pane@ == self.panes_spec()[0]),
            index > 0 && config.split is None ==> r matches Ok(SetupStep::Skip),
            index > 0 && config.split is Some ==> match config.target {
                Some(t) => if t < self.panes_spec().len() {
                    r matches Ok(SetupStep::Split { from }) && from@ == self.panes_spec()[t as int]
                } else {
                    r matches Err(PaneSetupError::InvalidTarget { target, created }) && target == t
                        && created == self.panes_spec().len()
                },
                None => r matches Ok(SetupStep::Split { from }) && from@ == self.panes_spec().last(),
            },
    {
        if index == 0 {
            return Ok(SetupStep::Respawn { pane: self.panes[0].clone() });
        }
        if config.split.is_none() {
            return Ok(SetupStep::Skip);
        }
        let n = self.panes.len();
        match config.target {
            Some(t) => if t < n {
                Ok(SetupStep::Split { from: self.panes[t].clone() })
            } else {
                Err(PaneSetupError::InvalidTarget { target: t, created: n })
            },
            None => Ok(SetupStep::Split { from: self.panes[n - 1].clone() }),
        }
    }

    /// Records the pane that config number `index` now runs in.
    pub fn record(&mut self, index: usize, pane_id: String, focus: bool)
        requires
            old(self).panes_spec().len() > 0,
        ensures
            index == 0 ==> final(self).panes_spec() == old(self).panes_spec().update(0, pane_id@),
            index > 0 ==> final(self).panes_spec() == old(self).panes_spec().push(pane_id@),
            final(self).focus_spec() == if focus && old(self).focus_spec() is None {
                Some(pane_id@)
            } else {
                old(self).focus_spec()
            },
    {
        if focus && self.focus.is_none() {
            self.focus = Some(pane_id.clone());
        }
        if index == 0 {
            self.panes.set(0, pane_id);
            assert(views(self.panes@) =~= views(old(self).panes@).update(0, pane_id@));
        } else {
            self.panes.push(pane_id);
            assert(views(self.panes@) =~= views(old(self).panes@).push(pane_id@));
        }
    }

    /// The pane to focus when setup is done: the first one marked for focus,
    /// otherwise the first pane.
    pub fn focus_pane(&self) -> (r: String)
        requires
            self.panes_spec().len() > 0,
        ensures
            r@ == match self.focus_spec() {
                Some(f) => f,
                None => self.panes_spec()[0],
            },
    {
        match &self.focus {
            Some(f) => f.clone(),
            None => self.panes[0].clone(),
        }
    }
}

/// A setup with no pane configs ends on the initial pane.
pub proof fn lemma_empty_layout_keeps_initial(s: PaneSetup, initial: Seq<char>)
    requires
        s.panes_spec() == seq![initial],
        s.focus_spec() is None,
    ensures
        (match s.focus_spec() {
            Some(f) => f,
            None => s.panes_spec()[0],
        }) == initial,
{
}

} // verus!
