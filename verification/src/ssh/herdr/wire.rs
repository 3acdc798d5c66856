//! What Herdr reports of its workspaces, tabs and panes.

use vstd::prelude::*;

use crate::workspace;

verus! {

/// The Herdr release that this client speaks with, and the numbers of its
/// protocol and schema.
pub const HERDR_VERSION: &'static str = "0.9.0";

pub const HERDR_PROTOCOL: u64 = 22;

pub const HERDR_SCHEMA: u64 = 1;

/// The status of an agent, as Herdr reports it.
#[derive(Clone, Copy, Debug, PartialEq, Eq, Structural)]
pub enum AgentStatus {
    Idle,
    Working,
    Blocked,
    Done,
    Unknown,
}

/// The same status in the common model.
pub open spec fn common(status: AgentStatus) -> workspace::AgentStatus {
    match status {
        AgentStatus::Idle => workspace::AgentStatus::Idle,
        AgentStatus::Working => workspace::AgentStatus::Working,
        AgentStatus::Blocked => workspace::AgentStatus::Blocked,
        AgentStatus::Done => workspace::AgentStatus::Done,
        AgentStatus::Unknown => workspace::AgentStatus::Unknown,
    }
}

impl AgentStatus {
    pub fn to_common(self) -> (r: workspace::AgentStatus)
        ensures
            r == common(self),
    {
        match self {
            AgentStatus::Idle => workspace::AgentStatus::Idle,
            AgentStatus::Working => workspace::AgentStatus::Working,
            AgentStatus::Blocked => workspace::AgentStatus::Blocked,
            AgentStatus::Done => workspace::AgentStatus::Done,
            AgentStatus::Unknown => workspace::AgentStatus::Unknown,
        }
    }
}

/// The status of a workspace or a tab as a present rollup.  Unknown is a real
/// value; it differs from the absent rollup of a tmux window.
pub fn herdr_rollup_status(status: AgentStatus) -> (r: Option<workspace::AgentStatus>)
    ensures
        r == Some(common(status)),
{
    Some(status.to_common())
}

#[derive(Debug, PartialEq, Eq)]
pub struct HerdrPane {
    /// An alias that changes when the pane moves.
    pub pane_id: String,
    /// The stable identity of the pane's terminal.
    pub terminal_id: String,
    pub name: Option<String>,
    pub focused: bool,
    pub agent_name: Option<String>,
    pub agent_status: AgentStatus,
}

#[derive(Debug, PartialEq, Eq)]
pub struct HerdrGroup {
    pub tab_id: String,
    pub name: String,
    pub focused: bool,
    pub agent_status: AgentStatus,
    pub panes: Vec<HerdrPane>,
}

#[derive(Debug, PartialEq, Eq)]
pub struct Worktree {
    pub repo_key: String,
    pub is_linked_worktree: bool,
}

#[derive(Debug, PartialEq, Eq)]
pub struct HerdrWorkspace {
    pub workspace_id: String,
    pub name: String,
    pub agent_status: AgentStatus,
    pub groups: Vec<HerdrGroup>,
    pub worktree: Option<Worktree>,
}

#[derive(Debug, PartialEq, Eq)]
pub struct HerdrSessionSnapshot {
    pub version: String,
    pub protocol: u64,
    pub focused_workspace_id: Option<String>,
    pub focused_tab_id: Option<String>,
    pub focused_pane_id: Option<String>,
    pub workspaces: Vec<HerdrWorkspace>,
}

/// A pane of the snapshot has this stable terminal.
pub open spec fn has_terminal(workspaces: Seq<HerdrWorkspace>, terminal: Seq<char>) -> bool {
    exists|w: int, g: int, p: int|
        #![trigger workspaces[w].groups@[g].panes@[p]]
        0 <= w < workspaces.len() && 0 <= g < workspaces[w].groups@.len() && 0 <= p
            < workspaces[w].groups@[g].panes@.len()
            && workspaces[w].groups@[g].panes@[p].terminal_id@ == terminal
}

fn group_has_terminal(panes: &Vec<HerdrPane>, terminal: &str) -> (r: bool)
    ensures
        r == exists|p: int| 0 <= p < panes@.len() && (#[trigger] panes@[p]).terminal_id@ == terminal@,
{
    let mut p: usize = 0;
    while p < panes.len()
        invariant
            p <= panes@.len(),
            forall|k: int| 0 <= k < p ==> (#[trigger] panes@[k]).terminal_id@ != terminal@,
        decreases panes@.len() - p,
    {
        if crate::text::same_text(panes[p].terminal_id.as_str(), terminal) {
            return true;
        }
        p = p + 1;
    }
    false
}

/// Whether the snapshot still has a stable terminal, under whatever alias.
pub fn snapshot_contains_stable_terminal(
    snapshot: &HerdrSessionSnapshot,
    terminal_id: &str,
) -> (r: bool)
    ensures
        r == has_terminal(snapshot.workspaces@, terminal_id@),
{
    let ghost all = snapshot.workspaces@;
    let mut w: usize = 0;
    while w < snapshot.workspaces.len()
        invariant
            w <= snapshot.workspaces@.len(),
            all == snapshot.workspaces@,
            forall|i: int, g: int, p: int|
                #![trigger all[i].groups@[g].panes@[p]]
                0 <= i < w && 0 <= g < all[i].groups@.len() && 0 <= p
                    < all[i].groups@[g].panes@.len() ==> all[i].groups@[g].panes@[p].terminal_id@
                    != terminal_id@,
        decreases snapshot.workspaces@.len() - w,
    {
        let groups = &snapshot.workspaces[w].groups;
        let mut g: usize = 0;
        while g < groups.len()
            invariant
                w < snapshot.workspaces@.len(),
                all == snapshot.workspaces@,
                groups@ == all[w as int].groups@,
                g <= groups@.len(),
                forall|k: int, p: int|
                    #![trigger all[w as int].groups@[k].panes@[p]]
                    0 <= k < g && 0 <= p < all[w as int].groups@[k].panes@.len()
                        ==> all[w as int].groups@[k].panes@[p].terminal_id@ != terminal_id@,
            decreases groups@.len() - g,
        {
            if group_has_terminal(&groups[g].panes, terminal_id) {
                proof {
                    let p = choose|p: int|
                        0 <= p < groups@[g as int].panes@.len() && (
                        #[trigger] groups@[g as int].panes@[p]).terminal_id@ == terminal_id@;
                    assert(all[w as int].groups@[g as int].panes@[p].terminal_id@ == terminal_id@);
                }
                return true;
            }
            g = g + 1;
        }
        w = w + 1;
    }
    false
}

} // verus!
