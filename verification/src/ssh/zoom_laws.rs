//! Whose zoom a window has, and what proves it.

use vstd::prelude::*;

use crate::ssh::flow::{FlowFailure, ZoomCleanupOutcome};
use crate::ssh::selection;
use crate::ssh::selection::PendingZoomCleanup;
use crate::ssh::state::SessionState;
use crate::ssh::topology;
use crate::tmux::hooks::ZoomRecoveryHookAllocation;
use crate::tmux::records::{PaneInfo, WindowInfo};
use crate::tmux::snapshot::{SessionSnapshotView, WindowSnapshotView};

verus! {

/// The readback lists the window, and reports it zoomed.
pub open spec fn zoomed_at(panes: Seq<PaneInfo>, window: u64, i: int) -> bool {
    0 <= i < panes.len() && panes[i].window_id == window && panes[i].zoomed
}

/// A restore counts as confirmed only where it was acknowledged, the hooks are
/// settled, and a later readback lists the window and does not show it zoomed.
/// Where the readback shows it zoomed, nothing is confirmed.
pub proof fn law_a_restore_is_confirmed_by_its_readback(
    mutation_confirmed: bool,
    after: Option<Seq<PaneInfo>>,
    window: u64,
    hooks_restored: bool,
    i: int,
)
    ensures
        selection::readback_outcome(mutation_confirmed, after, window, hooks_restored)
            == ZoomCleanupOutcome::RestoredConfirmed ==> mutation_confirmed && hooks_restored
            && after is Some && (exists|k: int|
            0 <= k < after->0.len() && (#[trigger] after->0[k]).window_id == window) && (forall|
            k: int,
        |
            0 <= k < after->0.len() && (#[trigger] after->0[k]).window_id == window
                ==> !after->0[k].zoomed),
        after is Some && zoomed_at(after->0, window, i) ==> selection::readback_outcome(
            mutation_confirmed,
            after,
            window,
            hooks_restored,
        ) == ZoomCleanupOutcome::UnconfirmedOrFailed,
        mutation_confirmed && hooks_restored && after is Some && (forall|k: int|
            0 <= k < after->0.len() ==> (#[trigger] after->0[k]).window_id != window)
            ==> selection::readback_outcome(mutation_confirmed, after, window, hooks_restored)
            == ZoomCleanupOutcome::NotNeeded,
{
    if after is Some && zoomed_at(after->0, window, i) {
        assert(selection::window_zoomed(after->0, window));
    }
    if selection::readback_outcome(mutation_confirmed, after, window, hooks_restored)
        == ZoomCleanupOutcome::RestoredConfirmed {
        assert forall|k: int|
            0 <= k < after->0.len() && (#[trigger] after->0[k]).window_id
                == window implies !after->0[k].zoomed by {
            if after->0[k].zoomed {
                assert(selection::window_zoomed(after->0, window));
            }
        }
    }
}

/// A fresh readback that shows the target unzoomed makes a zoom ours, whatever
/// was shown before; so does one of a window that was ours.  An observation of
/// another pane never does.
pub proof fn law_a_fresh_readback_decides_whose_zoom_it_is(
    pane: PaneInfo,
    panes: Seq<PaneInfo>,
    k: int,
    owned: Option<u64>,
    shared_zoomed: bool,
    shared_same: bool,
    window: u64,
    other: u64,
)
    requires
        0 <= k < panes.len(),
        panes[k] == pane,
    ensures
        !pane.zoomed ==> !selection::desktop_zoomed(
            Some(selection::observed(pane, panes, owned)),
            pane.window_id,
            pane.pane_id,
            shared_zoomed,
            shared_same,
        ),
        owned == Some(pane.window_id) ==> !selection::desktop_zoomed(
            Some(selection::observed(pane, panes, owned)),
            pane.window_id,
            pane.pane_id,
            shared_zoomed,
            shared_same,
        ),
        window != pane.window_id || other != pane.pane_id ==> selection::desktop_zoomed(
            Some(selection::observed(pane, panes, owned)),
            window,
            other,
            shared_zoomed,
            shared_same,
        ),
{
    assert(panes[k].window_id == pane.window_id);
    assert(selection::window_listed(panes, pane.window_id));
}

/// Without a fresh readback, what was shown decides: a zoomed window is the
/// desktop's unless it was ours.
pub proof fn law_the_shown_zoom_decides_without_a_readback(
    window: u64,
    pane: u64,
    shared_zoomed: bool,
    shared_same: bool,
)
    ensures
        selection::desktop_zoomed(None, window, pane, shared_zoomed, shared_same) <==> shared_zoomed
            && !shared_same,
{
}

/// The zoom that the state says is ours is in the window that it says, else in
/// the one that shows the pane; without ownership nothing is ours.
pub proof fn law_only_an_owned_zoom_is_ours(
    state: SessionState,
    hooks: Option<ZoomRecoveryHookAllocation>,
)
    ensures
        selection::owned_zoom(state, hooks) matches Some(target) ==> {
            &&& state.meeterm_zoomed
            &&& state.meeterm_zoomed_pane == Some(target.pane)
            &&& target.hooks == hooks
            &&& state.meeterm_zoomed_window matches Some(window) ==> target.window == window
        },
        !state.meeterm_zoomed ==> selection::owned_zoom(state, hooks) is None,
        state.meeterm_zoomed && state.meeterm_zoomed_pane is Some && state.meeterm_zoomed_window
            is Some ==> selection::owned_zoom(state, hooks) is Some,
{
}

/// A strict recovery that finds its candidate zoomed in its window keeps it, and
/// fails where the selected pane is another one, stands in another window, or
/// is unzoomed beside other panes.
pub proof fn law_a_strict_recovery_commits_what_it_sees(
    c: PendingZoomCleanup,
    panes: Seq<PaneInfo>,
    selected: u64,
    k: int,
)
    requires
        0 <= k < panes.len(),
        panes[k].pane_id == selected,
        forall|j: int| 0 <= j < panes.len() && j != k ==> (#[trigger] panes[j]).pane_id != selected,
    ensures
        selected == c.pane && panes[k].window_id == c.window && panes[k].zoomed
            ==> selection::strict_commit(Some(c), panes, selected) == Ok::<
            Option<PendingZoomCleanup>,
            FlowFailure,
        >(Some(c)),
        selected != c.pane || panes[k].window_id != c.window ==> selection::strict_commit(
            Some(c),
            panes,
            selected,
        ) is Err,
        selection::strict_commit(None, panes, selected) == Ok::<
            Option<PendingZoomCleanup>,
            FlowFailure,
        >(None),
        !panes[k].zoomed && selection::strict_commit(Some(c), panes, selected) is Ok
            ==> selection::strict_commit(Some(c), panes, selected)->Ok_0 is None && forall|j: int|
            0 <= j < panes.len() && j != k ==> (#[trigger] panes[j]).window_id != c.window,
{
    lemma_found(panes, selected, k);
    if !panes[k].zoomed && selection::strict_commit(Some(c), panes, selected) is Ok {
        assert forall|j: int| 0 <= j < panes.len() && j != k implies (
        #[trigger] panes[j]).window_id != c.window by {
            if panes[j].window_id == c.window {
                lemma_two(panes, c.window, j, k);
            }
        }
    }
}

proof fn lemma_found(panes: Seq<PaneInfo>, id: u64, k: int)
    requires
        0 <= k < panes.len(),
        panes[k].pane_id == id,
        forall|j: int| 0 <= j < panes.len() && j != k ==> (#[trigger] panes[j]).pane_id != id,
    ensures
        selection::find_pane(panes, id) == Some(panes[k]),
    decreases panes.len(),
{
    if k > 0 {
        let rest = panes.skip(1);
        assert(panes[0].pane_id != id);
        assert(rest[k - 1] == panes[k]);
        assert forall|j: int| 0 <= j < rest.len() && j != k - 1 implies (
        #[trigger] rest[j]).pane_id != id by {
            assert(rest[j] == panes[j + 1]);
        }
        lemma_found(rest, id, k - 1);
    }
}

proof fn lemma_one(panes: Seq<PaneInfo>, window: u64, i: int)
    requires
        0 <= i < panes.len(),
        panes[i].window_id == window,
    ensures
        selection::pane_count(panes, window) >= 1,
    decreases panes.len(),
{
    if i < panes.len() - 1 {
        assert(panes.drop_last()[i] == panes[i]);
        lemma_one(panes.drop_last(), window, i);
    }
}

proof fn lemma_two(panes: Seq<PaneInfo>, window: u64, i: int, j: int)
    requires
        0 <= i < panes.len(),
        0 <= j < panes.len(),
        i != j,
        panes[i].window_id == window,
        panes[j].window_id == window,
    ensures
        selection::pane_count(panes, window) >= 2,
    decreases panes.len(),
{
    let front = panes.drop_last();
    let last = panes.len() - 1;
    if i == last {
        assert(front[j] == panes[j]);
        lemma_one(front, window, j);
    } else if j == last {
        assert(front[i] == panes[i]);
        lemma_one(front, window, i);
    } else {
        assert(front[i] == panes[i]);
        assert(front[j] == panes[j]);
        lemma_two(front, window, i, j);
    }
}

/// After a selection exactly the selected pane is marked, in the flat list and
/// in its window, and a window is marked where it holds the pane; nothing else
/// of the snapshot changes.
pub proof fn law_a_selection_marks_its_pane(
    snapshot: SessionSnapshotView,
    selected: u64,
    i: int,
    w: int,
)
    requires
        0 <= i < snapshot.panes.len(),
        0 <= w < snapshot.windows.len(),
    ensures
        ({
            let out = selection::marked(snapshot, selected);
            &&& out.selected_pane == Some(selected)
            &&& out.panes.len() == snapshot.panes.len()
            &&& out.windows.len() == snapshot.windows.len()
            &&& out.panes[i].selected <==> snapshot.panes[i].pane_id == selected
            &&& out.panes[i].pane_id == snapshot.panes[i].pane_id
            &&& out.panes[i].window_id == snapshot.panes[i].window_id
            &&& out.panes[i].terminal_id == snapshot.panes[i].terminal_id
            &&& out.windows[w].window_id == snapshot.windows[w].window_id
            &&& out.windows[w].name == snapshot.windows[w].name
            &&& out.windows[w].zoomed == snapshot.windows[w].zoomed
            &&& out.windows[w].panes.len() == snapshot.windows[w].panes.len()
            &&& forall|k: int|
                0 <= k < snapshot.windows[w].panes.len() ==> (#[trigger] out.windows[w].panes[k]).selected
                    == (snapshot.windows[w].panes[k].pane_id == selected)
            &&& out.windows[w].selected <==> exists|k: int|
                0 <= k < snapshot.windows[w].panes.len() && (
                #[trigger] snapshot.windows[w].panes[k]).pane_id == selected
        }),
{
}

/// A zoom stays ours only while its window is listed and zoomed; a pane of that
/// window then owns it, and it was ours before.
pub proof fn law_ownership_needs_its_zoomed_window(
    before: (bool, Option<u64>, Option<u64>),
    windows: Seq<WindowInfo>,
    panes: Seq<PaneInfo>,
    selected: u64,
)
    ensures
        topology::ownership_after(before, windows, panes, selected).0 ==> before.0 && before.1
            is Some && topology::ownership_after(before, windows, panes, selected).1 == before.1
            && (exists|i: int| #[trigger] zoomed_at(panes, before.1->0, i)) && (exists|i: int|
            0 <= i < windows.len() && (#[trigger] windows[i]).window_id == before.1->0),
        before.0 && before.1 is Some && (forall|i: int|
            !#[trigger] zoomed_at(panes, before.1->0, i)) ==> topology::ownership_after(
            before,
            windows,
            panes,
            selected,
        ) == (false, None::<u64>, None::<u64>),
{
    if before.0 && before.1 is Some {
        let window = before.1->0;
        if selection::window_zoomed(panes, window) {
            let i = choose|i: int|
                0 <= i < panes.len() && (#[trigger] panes[i]).window_id == window
                    && panes[i].zoomed;
            assert(zoomed_at(panes, window, i));
        }
    }
}

/// The owner of a zoom is a zoomed pane of its window: the one that owned it,
/// where it still is one, else the selected one, where it is one.
pub proof fn law_the_owner_is_a_zoomed_pane(
    window: u64,
    owner: Option<u64>,
    windows: Seq<WindowInfo>,
    panes: Seq<PaneInfo>,
    selected: u64,
    i: int,
    k: int,
)
    requires
        0 <= k < windows.len(),
        windows[k].window_id == window,
        zoomed_at(panes, window, i),
    ensures
        ({
            let after = topology::ownership_after(
                (true, Some(window), owner),
                windows,
                panes,
                selected,
            );
            &&& after.0
            &&& after.1 == Some(window)
            &&& owner == Some(panes[i].pane_id) ==> after.2 == owner
            &&& (owner is None || forall|j: int|
                zoomed_at(panes, window, j) ==> (#[trigger] panes[j]).pane_id != owner->0)
                && selected == panes[i].pane_id ==> after.2 == Some(selected)
        }),
{
    assert(selection::window_zoomed(panes, window));
    assert(topology::zoomed_in(panes, window, panes[i].pane_id));
    if owner is Some && topology::zoomed_in(panes, window, owner->0) {
        let j = choose|j: int|
            0 <= j < panes.len() && (#[trigger] panes[j]).window_id == window && panes[j].zoomed
                && panes[j].pane_id == owner->0;
        assert(zoomed_at(panes, window, j));
    }
}

/// A window of the snapshot is zoomed where some pane of the listing says so,
/// and it is marked where it holds the selected pane.
pub proof fn law_a_window_is_shown_as_listed(
    windows: Seq<WindowInfo>,
    panes: Seq<PaneInfo>,
    flat: Seq<crate::tmux::snapshot::PaneSnapshotView>,
    selected: u64,
    w: int,
)
    requires
        0 <= w < windows.len(),
    ensures
        ({
            let out = topology::topology_snapshot(windows, panes, flat, selected);
            &&& out.windows.len() == windows.len()
            &&& out.panes == flat
            &&& out.selected_pane == Some(selected)
            &&& out.windows[w].window_id == windows[w].window_id
            &&& out.windows[w].name == windows[w].name@
            &&& out.windows[w].zoomed <==> exists|i: int|
                #[trigger] zoomed_at(panes, windows[w].window_id, i)
            &&& out.windows[w].selected <==> exists|i: int|
                0 <= i < flat.len() && (#[trigger] flat[i]).window_id == windows[w].window_id
                    && flat[i].selected
        }),
{
    let window = windows[w].window_id;
    if selection::window_zoomed(panes, window) {
        let i = choose|i: int|
            0 <= i < panes.len() && (#[trigger] panes[i]).window_id == window && panes[i].zoomed;
        assert(zoomed_at(panes, window, i));
    }
    if exists|i: int| #[trigger] zoomed_at(panes, window, i) {
        let i = choose|i: int| #[trigger] zoomed_at(panes, window, i);
        assert(panes[i].window_id == window);
    }
}

} // verus!
