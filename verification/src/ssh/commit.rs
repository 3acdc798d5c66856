//! Publishing what a synchronization read, in one step with the checks that
//! allow it.

use std::collections::HashMap;
use vstd::prelude::*;

use crate::tmux::snapshot;
use crate::ssh::topology;
use crate::ssh::state;
use crate::ssh::selection;
use crate::ssh::flow::FlowFailure;
use crate::ssh::selection::{
    publish_strict_zoom_ownership, strict_zoom_commit_decision, PendingZoomCleanup,
};
use crate::ssh::state::SessionState;
use crate::ssh::topology::{apply_committed_topology, apply_topology_state};
use crate::tmux::records::{PaneInfo, WindowInfo};
use crate::tmux::snapshot::PaneSnapshot;

verus! {

/// What a commit was prepared for.
#[derive(Clone, Copy, Debug, PartialEq, Eq, Structural)]
pub struct CommitGate {
    /// The connection was cancelled.
    pub cancelled: bool,
    pub generation: u64,
    pub epoch: u64,
}

/// The state is still the one that the commit was prepared for.
pub open spec fn current(state: SessionState, gate: CommitGate) -> bool {
    !gate.cancelled && state.generation == gate.generation && state.operation_epoch == gate.epoch
}

impl CommitGate {
    pub fn is_open(&self, state: &SessionState) -> (r: bool)
        ensures
            r == current(*state, *self),
    {
        !self.cancelled && state.generation == self.generation && state.operation_epoch
            == self.epoch
    }
}

/// Commits a topology, unless the state has moved on.  The read before an
/// initial selection leaves zoom ownership alone.
pub fn commit_topology(
    state: &mut SessionState,
    gate: CommitGate,
    mapping: &HashMap<u64, u64>,
    windows: &[WindowInfo],
    panes: &[PaneInfo],
    flat: &[PaneSnapshot],
    selected: u64,
    initial: bool,
) -> (r: Result<(), FlowFailure>)
    ensures
        !current(*old(state), gate) ==> r == Err::<(), FlowFailure>(FlowFailure::Stale)
            && *final(state) == *old(state),
        current(*old(state), gate) ==> {
            &&& r == Ok::<(), FlowFailure>(())
            &&& state::same_lifecycle(*final(state), *old(state))
            &&& final(state).pane_terminals@ == mapping@
            &&& final(state).selected_pane == Some(selected)
            &&& final(state).snapshot@ == topology::topology_snapshot(
                windows@,
                panes@,
                snapshot::pane_views(flat@),
                selected,
            )
            &&& state::zoom_ownership(*final(state)) == (if initial {
                state::zoom_ownership(*old(state))
            } else {
                topology::ownership_after(state::zoom_ownership(*old(state)), windows@, panes@, selected)
            })
        },
{
    if !gate.is_open(state) {
        return Err(FlowFailure::Stale);
    }
    apply_committed_topology(state, mapping, windows, panes, flat, selected, initial);
    Ok(())
}

/// Decides whether a strict recovery may commit, and with which zoom.  The
/// decision comes before any capture or topology becomes public.
pub fn strict_commit_allowed(
    state: &SessionState,
    gate: CommitGate,
    candidate: Option<PendingZoomCleanup>,
    panes: &[PaneInfo],
    selected: u64,
) -> (r: Result<Option<PendingZoomCleanup>, FlowFailure>)
    ensures
        r == (if current(*state, gate) {
            selection::strict_commit(candidate, panes@, selected)
        } else {
            Err(FlowFailure::Stale)
        }),
{
    if !gate.is_open(state) {
        return Err(FlowFailure::Stale);
    }
    strict_zoom_commit_decision(candidate, panes, selected)
}

/// Commits the topology of a strict recovery together with the zoom that was
/// allowed.
pub fn apply_strict_commit(
    state: &mut SessionState,
    mapping: &HashMap<u64, u64>,
    windows: &[WindowInfo],
    panes: &[PaneInfo],
    flat: &[PaneSnapshot],
    selected: u64,
    allowed: Option<PendingZoomCleanup>,
)
    ensures
        state::same_lifecycle(*final(state), *old(state)),
        final(state).pane_terminals@ == mapping@,
        final(state).selected_pane == Some(selected),
        final(state).snapshot@ == topology::topology_snapshot(windows@, panes@, snapshot::pane_views(flat@), selected),
        state::zoom_ownership(*final(state)) == (if allowed is Some && selection::candidate_confirmed(
            allowed->0,
            panes@,
            selected,
        ) {
            (true, Some(allowed->0.window), Some(allowed->0.pane))
        } else {
            (false, None, None)
        }),
{
    apply_topology_state(state, mapping, windows, panes, flat, selected);
    publish_strict_zoom_ownership(state, allowed, panes, selected);
}

/// A strict recovery ends up owning exactly the zoom that it was allowed to
/// commit: the one it made itself and read back.  A zoom of the desktop, for
/// which there is no candidate, stays unowned.
pub proof fn law_strict_commit_owns_what_it_proved(
    candidate: Option<PendingZoomCleanup>,
    allowed: Option<PendingZoomCleanup>,
    panes: Seq<PaneInfo>,
    selected: u64,
)
    requires
        selection::strict_commit(candidate, panes, selected) == Ok::<Option<PendingZoomCleanup>, FlowFailure>(
            allowed,
        ),
    ensures
        allowed is Some ==> candidate == allowed && selection::candidate_confirmed(
            allowed->0,
            panes,
            selected,
        ),
        candidate is None ==> allowed is None,
{
    selection::law_committed_candidate_is_confirmed(candidate, panes, selected);
}

} // verus!
