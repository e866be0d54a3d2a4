//! Agent state records and their reconciliation against live panes.
use vstd::prelude::*;
use crate::text::{basename, basename_of, eq_str, first_index, lemma_first_index_at, lemma_first_index_none, lemma_first_index_props};

verus! {

/// Identifies a pane across multiplexer instances.
pub struct PaneKey {
    pub instance_id: String,
    pub pane_id: String,
}

/// A persisted agent record.
pub struct AgentState {
    pub pane_key: PaneKey,
    /// Full window name, prefix included.
    pub window_name: String,
    /// Full command line the agent was started with.
    pub command: String,
    pub worktree_path: String,
    pub created_ts: u64,
    pub updated_ts: u64,
    /// Last refresh by the dashboard, in wall-clock seconds.
    pub last_heartbeat: Option<u64>,
}

/// What a backend reports of a live pane.
pub struct LivePaneInfo {
    /// Process id, 0 when unknown.
    pub pid: u32,
    /// Base name of the running process.
    pub current_command: String,
    pub working_dir: String,
    pub title: Option<String>,
    pub session: Option<String>,
    pub window: Option<String>,
}

impl AgentState {
    /// Records a dashboard refresh at `now`; `updated_ts` never goes back.
    pub fn touch_heartbeat(&mut self, now: u64)
        ensures
            final(self).last_heartbeat == Some(now),
            final(self).updated_ts == if now > old(self).updated_ts {
                now
            } else {
                old(self).updated_ts
            },
            final(self).updated_ts >= old(self).updated_ts,
            final(self).created_ts == old(self).created_ts,
            final(self).command == old(self).command,
            final(self).pane_key == old(self).pane_key,
            final(self).window_name == old(self).window_name,
    {
        self.last_heartbeat = Some(now);
        if now > self.updated_ts {
            self.updated_ts = now;
        }
    }
}

/// Live entries for pane `pane_id`.
pub open spec fn for_pane(pane_id: Seq<char>) -> spec_fn((String, LivePaneInfo)) -> bool {
    |e: (String, LivePaneInfo)| e.0@ == pane_id
}

/// The default liveness policy: the pane is live and its running command has
/// the same base name as the stored one.
pub open spec fn alive_spec(r: AgentState, live: Seq<(String, LivePaneInfo)>) -> bool {
    match first_index(live, for_pane(r.pane_key.pane_id@)) {
        None => false,
        Some(k) => basename(live[k].1.current_command@) == basename(r.command@),
    }
}

/// Applies the default liveness policy to one record.
pub fn agent_alive(record: &AgentState, live: &Vec<(String, LivePaneInfo)>) -> (r: bool)
    ensures
        r == alive_spec(*record, live@),
{
    let ghost pred = for_pane(record.pane_key.pane_id@);
    let mut i: usize = 0;
    while i < live.len()
        invariant
            i <= live@.len(),
            pred == for_pane(record.pane_key.pane_id@),
            forall|j: int| 0 <= j < i ==> !pred(#[trigger] live@[j]),
        decreases live.len() - i,
    {
        if eq_str(live[i].0.as_str(), record.pane_key.pane_id.as_str()) {
            proof {
                lemma_first_index_at(live@, pred, i as int);
            }
            return eq_str(
                basename_of(live[i].1.current_command.as_str()),
                basename_of(record.command.as_str()),
            );
        }
        i = i + 1;
    }
    proof {
        lemma_first_index_none(live@, pred);
    }
    false
}

/// Reconciles stored records with the live panes: one flag per record, true
/// to keep it, false to delete it.
pub fn reconcile(records: &Vec<AgentState>, live: &Vec<(String, LivePaneInfo)>) -> (keep: Vec<bool>)
    ensures
        keep@.len() == records@.len(),
        forall|k: int| 0 <= k < records@.len() ==> #[trigger] keep@[k] == alive_spec(records@[k], live@),
{
    let mut keep: Vec<bool> = Vec::new();
    let mut i: usize = 0;
    while i < records.len()
        invariant
            i <= records@.len(),
            keep@.len() == i,
            forall|k: int| 0 <= k < i ==> #[trigger] keep@[k] == alive_spec(records@[k], live@),
        decreases records.len() - i,
    {
        keep.push(agent_alive(&records[i], live));
        i = i + 1;
    }
    keep
}

/// Every record that reconciliation keeps names a live pane whose running command
/// has the stored command's base name; every other record is deleted.
pub proof fn lemma_reconciled_records_live(
    records: Seq<AgentState>,
    live: Seq<(String, LivePaneInfo)>,
    keep: Seq<bool>,
)
    requires
        keep.len() == records.len(),
        forall|k: int| 0 <= k < records.len() ==> #[trigger] keep[k] == alive_spec(records[k], live),
    ensures
        forall|k: int|
            0 <= k < records.len() && #[trigger] keep[k] ==> exists|j: int|
                0 <= j < live.len() && live[j].0@ == records[k].pane_key.pane_id@ && basename(
                    live[j].1.current_command@,
                ) == basename(records[k].command@),
{
    assert forall|k: int| 0 <= k < records.len() && #[trigger] keep[k] implies exists|j: int|
        0 <= j < live.len() && live[j].0@ == records[k].pane_key.pane_id@ && basename(
            live[j].1.current_command@,
        ) == basename(records[k].command@) by {
        lemma_first_index_props(live, for_pane(records[k].pane_key.pane_id@));
        let j = first_index(live, for_pane(records[k].pane_key.pane_id@))->Some_0;
        assert(live[j].0@ == records[k].pane_key.pane_id@);
    }
}

} // verus!
