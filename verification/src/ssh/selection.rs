//! Which pane is selected, and whose zoom it is.
//!
//! A zoom that was there before belongs to the desktop.  meeterm owns a zoom
//! only where a fresh readback proved the window unzoomed before meeterm
//! zoomed it, and restores only what it owns.

use vstd::prelude::*;

use crate::ssh::state;
use crate::ssh::flow::{FlowFailure, ZoomCleanupOutcome};
use crate::ssh::state::SessionState;
use crate::tmux::hooks::ZoomRecoveryHookAllocation;
use crate::tmux::records::PaneInfo;
use crate::tmux::snapshot::{
    PaneSnapshot, PaneSnapshotView, SessionSnapshot, SessionSnapshotView, WindowSnapshot,
    WindowSnapshotView,
};

verus! {

/// A zoom that must be restored, and the hooks that guard it.
#[derive(Clone, Copy, Debug, PartialEq, Eq, Structural)]
pub struct PendingZoomCleanup {
    pub window: u64,
    pub pane: u64,
    pub hooks: Option<ZoomRecoveryHookAllocation>,
}

/// The zoom observation captured from the same fresh pane readback as an
/// initial selection.
#[derive(Clone, Copy, Debug, PartialEq, Eq, Structural)]
pub struct SelectionObservation {
    pub window_id: u64,
    pub pane_id: u64,
    pub window_zoomed: bool,
    pub previous_owned_same_window: bool,
}

/// Some pane has this id.
pub open spec fn lists(panes: Seq<PaneInfo>, id: u64) -> bool {
    exists|i: int| 0 <= i < panes.len() && (#[trigger] panes[i]).pane_id == id
}

/// Some pane is in this window.
pub open spec fn window_listed(panes: Seq<PaneInfo>, window: u64) -> bool {
    exists|i: int| 0 <= i < panes.len() && (#[trigger] panes[i]).window_id == window
}

/// Some pane of this window reports it zoomed.
pub open spec fn window_zoomed(panes: Seq<PaneInfo>, window: u64) -> bool {
    exists|i: int|
        0 <= i < panes.len() && (#[trigger] panes[i]).window_id == window && panes[i].zoomed
}

/// The first pane that is active in the active window.
pub open spec fn first_active(panes: Seq<PaneInfo>) -> Option<u64>
    decreases panes.len(),
{
    if panes.len() == 0 {
        None
    } else if panes[0].active && panes[0].window_active {
        Some(panes[0].pane_id)
    } else {
        first_active(panes.skip(1))
    }
}

/// The first pane with this id.
pub open spec fn find_pane(panes: Seq<PaneInfo>, id: u64) -> Option<PaneInfo>
    decreases panes.len(),
{
    if panes.len() == 0 {
        None
    } else if panes[0].pane_id == id {
        Some(panes[0])
    } else {
        find_pane(panes.skip(1), id)
    }
}

/// How many panes this window has.
pub open spec fn pane_count(panes: Seq<PaneInfo>, window: u64) -> nat
    decreases panes.len(),
{
    if panes.len() == 0 {
        0
    } else {
        pane_count(panes.drop_last(), window) + if panes.last().window_id == window {
            1nat
        } else {
            0nat
        }
    }
}

/// The pane that a synchronization shows.  A strict recovery accepts the
/// requested pane only; otherwise the desktop's active pane stands in for a
/// pane that is gone.
pub open spec fn sync_selection(
    panes: Seq<PaneInfo>,
    requested: Option<u64>,
    strict: bool,
) -> Result<u64, FlowFailure> {
    if requested is Some && lists(panes, requested->0) {
        Ok(requested->0)
    } else if strict {
        Err(FlowFailure::TmuxRuntimeMissing)
    } else {
        match first_active(panes) {
            Some(id) => Ok(id),
            None => Ok(panes[0].pane_id),
        }
    }
}

pub fn pane_listed(panes: &[PaneInfo], id: u64) -> (r: bool)
    ensures
        r == lists(panes@, id),
{
    let mut i: usize = 0;
    while i < panes.len()
        invariant
            i <= panes@.len(),
            forall|j: int| 0 <= j < i ==> (#[trigger] panes@[j]).pane_id != id,
        decreases panes@.len() - i,
    {
        if panes[i].pane_id == id {
            return true;
        }
        i = i + 1;
    }
    false
}

pub fn is_window_listed(panes: &[PaneInfo], window: u64) -> (r: bool)
    ensures
        r == window_listed(panes@, window),
{
    let mut i: usize = 0;
    while i < panes.len()
        invariant
            i <= panes@.len(),
            forall|j: int| 0 <= j < i ==> (#[trigger] panes@[j]).window_id != window,
        decreases panes@.len() - i,
    {
        if panes[i].window_id == window {
            return true;
        }
        i = i + 1;
    }
    false
}

pub fn is_window_zoomed(panes: &[PaneInfo], window: u64) -> (r: bool)
    ensures
        r == window_zoomed(panes@, window),
{
    let mut i: usize = 0;
    while i < panes.len()
        invariant
            i <= panes@.len(),
            forall|j: int|
                0 <= j < i ==> !((#[trigger] panes@[j]).window_id == window && panes@[j].zoomed),
        decreases panes@.len() - i,
    {
        if panes[i].window_id == window && panes[i].zoomed {
            return true;
        }
        i = i + 1;
    }
    false
}

pub fn pane_index(panes: &[PaneInfo], id: u64) -> (r: Option<usize>)
    ensures
        match r {
            Some(i) => i < panes@.len() && find_pane(panes@, id) == Some(panes@[i as int])
                && panes@[i as int].pane_id == id,
            None => find_pane(panes@, id) is None && !lists(panes@, id),
        },
{
    let mut i: usize = 0;
    assert(panes@.skip(0) == panes@);
    while i < panes.len()
        invariant
            i <= panes@.len(),
            find_pane(panes@.skip(i as int), id) == find_pane(panes@, id),
            forall|j: int| 0 <= j < i ==> (#[trigger] panes@[j]).pane_id != id,
        decreases panes@.len() - i,
    {
        assert(panes@.skip(i as int).skip(1) == panes@.skip(i + 1));
        if panes[i].pane_id == id {
            return Some(i);
        }
        i = i + 1;
    }
    assert(panes@.skip(i as int).len() == 0);
    None
}

pub fn selected_pane_for_sync(panes: &[PaneInfo], requested: Option<u64>, strict: bool) -> (r:
    Result<u64, FlowFailure>)
    requires
        strict || panes@.len() > 0,
    ensures
        r == sync_selection(panes@, requested, strict),
{
    match requested {
        Some(id) => {
            if pane_listed(panes, id) {
                return Ok(id);
            }
        },
        None => {},
    }
    if strict {
        return Err(FlowFailure::TmuxRuntimeMissing);
    }
    let mut i: usize = 0;
    assert(panes@.skip(0) == panes@);
    while i < panes.len()
        invariant
            i <= panes@.len(),
            first_active(panes@.skip(i as int)) == first_active(panes@),
            !(requested is Some && lists(panes@, requested->0)),
            !strict,
        decreases panes@.len() - i,
    {
        assert(panes@.skip(i as int).skip(1) == panes@.skip(i + 1));
        if panes[i].active && panes[i].window_active {
            return Ok(panes[i].pane_id);
        }
        i = i + 1;
    }
    assert(panes@.skip(i as int).len() == 0);
    Ok(panes[0].pane_id)
}

/// Whether a synchronization is the final readback of a strict recovery.
pub fn strict_final_readback_required(
    strict_recovery: bool,
    strict_sync_pending: bool,
    initial: bool,
) -> (r: bool)
    ensures
        r == (strict_recovery && strict_sync_pending && !initial),
{
    strict_recovery && strict_sync_pending && !initial
}

/// The observation of a pane in the readback that lists it.
pub open spec fn observed(
    pane: PaneInfo,
    panes: Seq<PaneInfo>,
    previous_owned_window: Option<u64>,
) -> SelectionObservation {
    SelectionObservation {
        window_id: pane.window_id,
        pane_id: pane.pane_id,
        window_zoomed: pane.zoomed,
        previous_owned_same_window: previous_owned_window == Some(pane.window_id)
            && window_listed(panes, pane.window_id),
    }
}

pub fn fresh_selection_observation(
    pane: &PaneInfo,
    panes: &[PaneInfo],
    previous_owned_window: Option<u64>,
) -> (r: SelectionObservation)
    ensures
        r == observed(*pane, panes@, previous_owned_window),
{
    let same = match previous_owned_window {
        Some(window) => window == pane.window_id && is_window_listed(panes, pane.window_id),
        None => false,
    };
    SelectionObservation {
        window_id: pane.window_id,
        pane_id: pane.pane_id,
        window_zoomed: pane.zoomed,
        previous_owned_same_window: same,
    }
}

/// Whether the zoom of a selection is the desktop's.  A fresh observation
/// decides where there is one, and one of another pane counts as the
/// desktop's zoom.
pub open spec fn desktop_zoomed(
    observation: Option<SelectionObservation>,
    window: u64,
    pane: u64,
    shared_zoomed: bool,
    shared_previous_same_window: bool,
) -> bool {
    match observation {
        Some(o) => if o.window_id == window && o.pane_id == pane {
            o.window_zoomed && !o.previous_owned_same_window
        } else {
            true
        },
        None => shared_zoomed && !shared_previous_same_window,
    }
}

pub fn selection_is_zoomed(
    observation: Option<SelectionObservation>,
    window: u64,
    pane: u64,
    shared_zoomed: bool,
    shared_previous_same_window: bool,
) -> (r: bool)
    ensures
        r == desktop_zoomed(observation, window, pane, shared_zoomed, shared_previous_same_window),
{
    match observation {
        Some(o) => if o.window_id == window && o.pane_id == pane {
            o.window_zoomed && !o.previous_owned_same_window
        } else {
            true
        },
        None => shared_zoomed && !shared_previous_same_window,
    }
}

/// Records the cleanup target before the remote mutation can run.
pub fn pending_zoom_cleanup_before_send(
    current: Option<PendingZoomCleanup>,
    intent: Option<PendingZoomCleanup>,
) -> (r: Option<PendingZoomCleanup>)
    ensures
        r == (if intent is Some {
            intent
        } else {
            current
        }),
{
    match intent {
        Some(_) => intent,
        None => current,
    }
}

/// Finalizes the cleanup target when the writer has answered.  A rejected
/// write leaves the recorded intent in place.
pub fn pending_zoom_cleanup_after_send(
    current: Option<PendingZoomCleanup>,
    intent: Option<PendingZoomCleanup>,
    writer_accepted: bool,
) -> (r: Option<PendingZoomCleanup>)
    ensures
        r == (if writer_accepted && intent is Some {
            intent
        } else {
            current
        }),
{
    if writer_accepted {
        pending_zoom_cleanup_before_send(current, intent)
    } else {
        current
    }
}

/// The actor's own cleanup target comes before the shared one.
pub fn select_zoom_cleanup_target(
    pending: Option<PendingZoomCleanup>,
    shared: Option<PendingZoomCleanup>,
) -> (r: Option<PendingZoomCleanup>)
    ensures
        r == (if pending is Some {
            pending
        } else {
            shared
        }),
{
    pending_zoom_cleanup_before_send(shared, pending)
}

/// The hooks that a cleanup may remove.
pub open spec fn cleanup_hooks(
    cleanup: Option<PendingZoomCleanup>,
    actor_hooks: Option<ZoomRecoveryHookAllocation>,
) -> Option<ZoomRecoveryHookAllocation> {
    match cleanup {
        Some(target) => if target.hooks is Some {
            target.hooks
        } else {
            actor_hooks
        },
        None => actor_hooks,
    }
}

pub fn zoom_cleanup_hook_allocation(
    cleanup: Option<PendingZoomCleanup>,
    actor_hooks: Option<ZoomRecoveryHookAllocation>,
) -> (r: Option<ZoomRecoveryHookAllocation>)
    ensures
        r == cleanup_hooks(cleanup, actor_hooks),
{
    match cleanup {
        Some(target) => match target.hooks {
            Some(_) => target.hooks,
            None => actor_hooks,
        },
        None => actor_hooks,
    }
}

/// What a topology read after the restore proves of the owned window.
pub open spec fn readback_outcome(
    mutation_confirmed: bool,
    after: Option<Seq<PaneInfo>>,
    window: u64,
    hooks_restored: bool,
) -> ZoomCleanupOutcome {
    if !mutation_confirmed || !hooks_restored || after is None || window_zoomed(
        after->0,
        window,
    ) {
        ZoomCleanupOutcome::UnconfirmedOrFailed
    } else if window_listed(after->0, window) {
        ZoomCleanupOutcome::RestoredConfirmed
    } else {
        ZoomCleanupOutcome::NotNeeded
    }
}

pub fn classify_zoom_cleanup_readback(
    mutation_confirmed: bool,
    after: Option<&[PaneInfo]>,
    window: u64,
    hooks_restored: bool,
) -> (r: ZoomCleanupOutcome)
    ensures
        r == readback_outcome(
            mutation_confirmed,
            match after {
                Some(panes) => Some(panes@),
                None => None,
            },
            window,
            hooks_restored,
        ),
{
    if !mutation_confirmed || !hooks_restored {
        return ZoomCleanupOutcome::UnconfirmedOrFailed;
    }
    match after {
        None => ZoomCleanupOutcome::UnconfirmedOrFailed,
        Some(panes) => if is_window_zoomed(panes, window) {
            ZoomCleanupOutcome::UnconfirmedOrFailed
        } else if is_window_listed(panes, window) {
            ZoomCleanupOutcome::RestoredConfirmed
        } else {
            ZoomCleanupOutcome::NotNeeded
        },
    }
}

/// The window of the first pane with this id.
pub open spec fn pane_window(panes: Seq<PaneSnapshot>, id: u64) -> Option<u64>
    decreases panes.len(),
{
    if panes.len() == 0 {
        None
    } else if panes[0].pane_id == id {
        Some(panes[0].window_id)
    } else {
        pane_window(panes.skip(1), id)
    }
}

pub fn window_of_pane(panes: &Vec<PaneSnapshot>, id: u64) -> (r: Option<u64>)
    ensures
        r == pane_window(panes@, id),
{
    let mut i: usize = 0;
    assert(panes@.skip(0) == panes@);
    while i < panes.len()
        invariant
            i <= panes@.len(),
            pane_window(panes@.skip(i as int), id) == pane_window(panes@, id),
        decreases panes@.len() - i,
    {
        assert(panes@.skip(i as int).skip(1) == panes@.skip(i + 1));
        if panes[i].pane_id == id {
            return Some(panes[i].window_id);
        }
        i = i + 1;
    }
    assert(panes@.skip(i as int).len() == 0);
    None
}

/// The zoom that the shared state says is ours.
pub open spec fn owned_zoom(
    state: SessionState,
    hooks: Option<ZoomRecoveryHookAllocation>,
) -> Option<PendingZoomCleanup> {
    if !state.meeterm_zoomed {
        None
    } else {
        match state.meeterm_zoomed_pane {
            None => None,
            Some(pane) => match (if state.meeterm_zoomed_window is Some {
                state.meeterm_zoomed_window
            } else {
                pane_window(state.snapshot.panes@, pane)
            }) {
                Some(window) => Some(PendingZoomCleanup { window, pane, hooks }),
                None => None,
            },
        }
    }
}

pub fn shared_zoom_cleanup_target(
    state: &SessionState,
    hooks: Option<ZoomRecoveryHookAllocation>,
) -> (r: Option<PendingZoomCleanup>)
    ensures
        r == owned_zoom(*state, hooks),
{
    if !state.meeterm_zoomed {
        return None;
    }
    let pane: u64 = match state.meeterm_zoomed_pane {
        Some(pane) => pane,
        None => {
            return None;
        },
    };
    let window = match state.meeterm_zoomed_window {
        Some(window) => Some(window),
        None => window_of_pane(&state.snapshot.panes, pane),
    };
    match window {
        Some(window) => Some(PendingZoomCleanup { window, pane, hooks }),
        None => None,
    }
}

/// The final readback shows the candidate's pane selected, in the
/// candidate's window, and zoomed.
pub open spec fn candidate_confirmed(
    candidate: PendingZoomCleanup,
    panes: Seq<PaneInfo>,
    selected: u64,
) -> bool {
    &&& candidate.pane == selected
    &&& exists|i: int|
        0 <= i < panes.len() && (#[trigger] panes[i]).pane_id == selected && panes[i].window_id
            == candidate.window && panes[i].zoomed
}

pub fn strict_zoom_candidate_matches(
    candidate: PendingZoomCleanup,
    panes: &[PaneInfo],
    selected: u64,
) -> (r: bool)
    ensures
        r == candidate_confirmed(candidate, panes@, selected),
{
    if candidate.pane != selected {
        return false;
    }
    let mut i: usize = 0;
    while i < panes.len()
        invariant
            i <= panes@.len(),
            candidate.pane == selected,
            forall|j: int|
                0 <= j < i ==> !((#[trigger] panes@[j]).pane_id == selected && panes@[j].window_id
                    == candidate.window && panes@[j].zoomed),
        decreases panes@.len() - i,
    {
        if panes[i].pane_id == selected && panes[i].window_id == candidate.window
            && panes[i].zoomed {
            return true;
        }
        i = i + 1;
    }
    false
}

/// What a strict recovery may commit of its zoom candidate: the candidate,
/// where its pane is still zoomed in its window; nothing, where there is no
/// candidate or its window has that one pane left; and a failure otherwise.
pub open spec fn strict_commit(
    candidate: Option<PendingZoomCleanup>,
    panes: Seq<PaneInfo>,
    selected: u64,
) -> Result<Option<PendingZoomCleanup>, FlowFailure> {
    match candidate {
        None => Ok(None),
        Some(c) => match find_pane(panes, selected) {
            None => Err(FlowFailure::TmuxRuntimeMissing),
            Some(pane) => if selected != c.pane || pane.window_id != c.window {
                Err(FlowFailure::TmuxRuntimeMissing)
            } else if pane.zoomed {
                Ok(candidate)
            } else if pane_count(panes, c.window) == 1 {
                Ok(None)
            } else {
                Err(FlowFailure::TmuxRuntimeMissing)
            },
        },
    }
}

pub fn strict_zoom_commit_decision(
    candidate: Option<PendingZoomCleanup>,
    panes: &[PaneInfo],
    selected: u64,
) -> (r: Result<Option<PendingZoomCleanup>, FlowFailure>)
    ensures
        r == strict_commit(candidate, panes@, selected),
{
    let c = match candidate {
        Some(c) => c,
        None => {
            return Ok(None);
        },
    };
    let at: usize = match pane_index(panes, selected) {
        Some(at) => at,
        None => {
            return Err(FlowFailure::TmuxRuntimeMissing);
        },
    };
    if selected != c.pane || panes[at].window_id != c.window {
        return Err(FlowFailure::TmuxRuntimeMissing);
    }
    if panes[at].zoomed {
        return Ok(candidate);
    }
    let mut count: usize = 0;
    let mut i: usize = 0;
    assert(panes@.take(0) == Seq::<PaneInfo>::empty());
    while i < panes.len()
        invariant
            i <= panes@.len(),
            count <= i,
            count == pane_count(panes@.take(i as int), c.window),
        decreases panes@.len() - i,
    {
        assert(panes@.take(i + 1).drop_last() == panes@.take(i as int));
        if panes[i].window_id == c.window {
            count = count + 1;
        }
        i = i + 1;
    }
    assert(panes@.take(i as int) == panes@);
    if count == 1 {
        Ok(None)
    } else {
        Err(FlowFailure::TmuxRuntimeMissing)
    }
}

/// Hands a confirmed strict candidate to the shared state; without one,
/// nothing is owned.
pub fn publish_strict_zoom_ownership(
    state: &mut SessionState,
    candidate: Option<PendingZoomCleanup>,
    panes: &[PaneInfo],
    selected: u64,
)
    ensures
        state::same_lifecycle(*final(state), *old(state)),
        final(state).snapshot == old(state).snapshot,
        final(state).pane_terminals == old(state).pane_terminals,
        final(state).selected_pane == old(state).selected_pane,
        state::zoom_ownership(*final(state)) == (if candidate is Some && candidate_confirmed(
            candidate->0,
            panes@,
            selected,
        ) {
            (true, Some(candidate->0.window), Some(candidate->0.pane))
        } else {
            (false, None, None)
        }),
{
    match candidate {
        Some(c) => {
            if strict_zoom_candidate_matches(c, panes, selected) {
                state.meeterm_zoomed = true;
                state.meeterm_zoomed_window = Some(c.window);
                state.meeterm_zoomed_pane = Some(c.pane);
                return ;
            }
        },
        None => {},
    }
    state.meeterm_zoomed = false;
    state.meeterm_zoomed_window = None;
    state.meeterm_zoomed_pane = None;
}

/// A pane, marked as selected or not.
pub open spec fn marked_pane(pane: PaneSnapshotView, selected: u64) -> PaneSnapshotView {
    PaneSnapshotView { selected: pane.pane_id == selected, ..pane }
}

pub open spec fn marked_panes(panes: Seq<PaneSnapshotView>, selected: u64) -> Seq<
    PaneSnapshotView,
> {
    Seq::new(panes.len(), |i: int| marked_pane(panes[i], selected))
}

/// A window, with its panes marked; it is selected when it holds the pane.
pub open spec fn marked_window(window: WindowSnapshotView, selected: u64) -> WindowSnapshotView {
    WindowSnapshotView {
        panes: marked_panes(window.panes, selected),
        selected: exists|i: int|
            0 <= i < window.panes.len() && (#[trigger] window.panes[i]).pane_id == selected,
        ..window
    }
}

/// A snapshot in which exactly the panes with this id are selected.
pub open spec fn marked(snapshot: SessionSnapshotView, selected: u64) -> SessionSnapshotView {
    SessionSnapshotView {
        windows: Seq::new(
            snapshot.windows.len(),
            |i: int| marked_window(snapshot.windows[i], selected),
        ),
        panes: marked_panes(snapshot.panes, selected),
        selected_pane: Some(selected),
    }
}

fn marked_copy(panes: &Vec<PaneSnapshot>, selected: u64) -> (r: Vec<PaneSnapshot>)
    ensures
        crate::tmux::snapshot::pane_views(r@) == marked_panes(
            crate::tmux::snapshot::pane_views(panes@),
            selected,
        ),
{
    let mut out: Vec<PaneSnapshot> = Vec::new();
    let mut i: usize = 0;
    while i < panes.len()
        invariant
            i <= panes@.len(),
            out@.len() == i,
            forall|j: int|
                0 <= j < i ==> (#[trigger] out@[j])@ == marked_pane(panes@[j]@, selected),
        decreases panes@.len() - i,
    {
        let mut pane = panes[i].clone();
        pane.selected = pane.pane_id == selected;
        out.push(pane);
        i = i + 1;
    }
    assert(crate::tmux::snapshot::pane_views(out@) =~= marked_panes(
        crate::tmux::snapshot::pane_views(panes@),
        selected,
    ));
    out
}

/// Marks the one pane that the mobile client selected.
pub fn mark_selected(snapshot: &mut SessionSnapshot, selected: u64)
    ensures
        final(snapshot)@ == marked(old(snapshot)@, selected),
{
    let ghost before = snapshot@;
    let mut windows: Vec<WindowSnapshot> = Vec::new();
    let mut i: usize = 0;
    while i < snapshot.windows.len()
        invariant
            i <= snapshot.windows@.len(),
            snapshot@ == before,
            windows@.len() == i,
            forall|j: int|
                0 <= j < i ==> (#[trigger] windows@[j])@ == marked_window(
                    before.windows[j],
                    selected,
                ),
        decreases snapshot.windows@.len() - i,
    {
        let window = &snapshot.windows[i];
        assert(window@ == before.windows[i as int]);
        let panes = marked_copy(&window.panes, selected);
        let holds = window_of_pane(&window.panes, selected).is_some();
        proof {
            lemma_pane_window(window.panes@, selected);
            assert(holds == exists|k: int|
                0 <= k < window@.panes.len() && (#[trigger] window@.panes[k]).pane_id == selected)
                by {
                if holds {
                    let k = choose|k: int|
                        0 <= k < window.panes@.len() && (#[trigger] window.panes@[k]).pane_id
                            == selected;
                    assert(window@.panes[k].pane_id == selected);
                }
                if exists|k: int|
                    0 <= k < window@.panes.len() && (#[trigger] window@.panes[k]).pane_id
                        == selected {
                    let k = choose|k: int|
                        0 <= k < window@.panes.len() && (#[trigger] window@.panes[k]).pane_id
                            == selected;
                    assert(window.panes@[k].pane_id == selected);
                }
            }
        }
        let copy = WindowSnapshot {
            window_id: window.window_id,
            name: window.name.clone(),
            panes,
            selected: holds,
            zoomed: window.zoomed,
        };
        assert(copy@ == marked_window(before.windows[i as int], selected));
        windows.push(copy);
        i = i + 1;
    }
    let panes = marked_copy(&snapshot.panes, selected);
    snapshot.windows = windows;
    snapshot.panes = panes;
    snapshot.selected_pane = Some(selected);
    assert(snapshot@ =~= marked(before, selected));
}

proof fn lemma_pane_window(panes: Seq<PaneSnapshot>, id: u64)
    ensures
        pane_window(panes, id) is Some <==> exists|k: int|
            0 <= k < panes.len() && (#[trigger] panes[k]).pane_id == id,
    decreases panes.len(),
{
    if panes.len() > 0 {
        lemma_pane_window(panes.skip(1), id);
        if panes[0].pane_id != id {
            if pane_window(panes.skip(1), id) is Some {
                let k = choose|k: int|
                    0 <= k < panes.skip(1).len() && (#[trigger] panes.skip(1)[k]).pane_id == id;
                assert(panes[k + 1].pane_id == id);
            }
            if exists|k: int| 0 <= k < panes.len() && (#[trigger] panes[k]).pane_id == id {
                let k = choose|k: int| 0 <= k < panes.len() && (#[trigger] panes[k]).pane_id == id;
                assert(panes.skip(1)[k - 1].pane_id == id);
            }
        }
    }
}

/// Publishes a selection.  The zoom is ours exactly when it was not the
/// desktop's.
pub fn publish_selection_state(state: &mut SessionState, window: u64, pane: u64, zoomed: bool)
    ensures
        state::same_lifecycle(*final(state), *old(state)),
        final(state).pane_terminals == old(state).pane_terminals,
        final(state).selected_pane == Some(pane),
        state::zoom_ownership(*final(state)) == (if zoomed {
            (false, None, None)
        } else {
            (true, Some(window), Some(pane))
        }),
        final(state).snapshot@ == marked(old(state).snapshot@, pane),
{
    state.selected_pane = Some(pane);
    state.meeterm_zoomed = !zoomed;
    state.meeterm_zoomed_window = if zoomed {
        None
    } else {
        Some(window)
    };
    state.meeterm_zoomed_pane = if zoomed {
        None
    } else {
        Some(pane)
    };
    mark_selected(&mut state.snapshot, pane);
}

/// A strict recovery shows the requested pane or nothing: no other pane is
/// ever substituted for it.
pub proof fn law_strict_recovery_never_substitutes(panes: Seq<PaneInfo>, requested: Option<u64>)
    ensures
        match sync_selection(panes, requested, true) {
            Ok(id) => requested == Some(id) && lists(panes, id),
            Err(e) => e == FlowFailure::TmuxRuntimeMissing && !(requested is Some && lists(
                panes,
                requested->0,
            )),
        },
{
}

/// A zoom that the desktop made is never claimed: a fresh readback that shows
/// the window zoomed, and that meeterm did not own it before, makes the
/// selection the desktop's whatever the shared state says.
pub proof fn law_desktop_zoom_is_never_claimed(
    pane: PaneInfo,
    panes: Seq<PaneInfo>,
    previous_owned_window: Option<u64>,
    shared_zoomed: bool,
    shared_previous_same_window: bool,
)
    requires
        pane.zoomed,
        previous_owned_window != Some(pane.window_id),
    ensures
        desktop_zoomed(
            Some(observed(pane, panes, previous_owned_window)),
            pane.window_id,
            pane.pane_id,
            shared_zoomed,
            shared_previous_same_window,
        ),
{
}

/// What a strict recovery commits is confirmed by the readback it was
/// decided on, so that publishing it makes exactly that zoom ours.
pub proof fn law_committed_candidate_is_confirmed(
    candidate: Option<PendingZoomCleanup>,
    panes: Seq<PaneInfo>,
    selected: u64,
)
    ensures
        strict_commit(candidate, panes, selected) matches Ok(Some(c)) ==> candidate == Some(c)
            && candidate_confirmed(c, panes, selected),
{
    if strict_commit(candidate, panes, selected) matches Ok(Some(c)) {
        lemma_find_pane(panes, selected);
    }
}

proof fn lemma_find_pane(panes: Seq<PaneInfo>, id: u64)
    ensures
        match find_pane(panes, id) {
            Some(p) => exists|i: int| 0 <= i < panes.len() && #[trigger] panes[i] == p && p.pane_id
                == id,
            None => !lists(panes, id),
        },
    decreases panes.len(),
{
    if panes.len() > 0 {
        if panes[0].pane_id == id {
            assert(panes[0] == find_pane(panes, id)->0);
        } else {
            lemma_find_pane(panes.skip(1), id);
            match find_pane(panes.skip(1), id) {
                Some(p) => {
                    let i = choose|i: int|
                        0 <= i < panes.skip(1).len() && #[trigger] panes.skip(1)[i] == p;
                    assert(panes[i + 1] == p);
                },
                None => {
                    assert forall|i: int| 0 <= i < panes.len() implies (#[trigger] panes[i]).pane_id
                        != id by {
                        if i > 0 {
                            assert(panes.skip(1)[i - 1].pane_id != id);
                        }
                    }
                },
            }
        }
    }
}

} // verus!
