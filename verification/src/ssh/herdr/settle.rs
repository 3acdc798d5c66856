//! Committing a projected Herdr snapshot.

use std::collections::HashMap;
use vstd::prelude::*;

use crate::workspace;
use crate::tmux::snapshot;
use crate::ssh::topology;
use crate::ssh::herdr::metadata;
use crate::ssh::commit;
use crate::maps::keys_of;
use crate::ssh::commit::CommitGate;
use crate::ssh::flow::FlowFailure;
use crate::ssh::herdr::metadata::RemotePane;
use crate::ssh::herdr::project::SnapshotProjection;
use crate::ssh::state::SessionState;
use crate::text::same_text;
use crate::tmux::snapshot::{
    PaneSnapshot, PaneSnapshotView, SessionSnapshot, SessionSnapshotView, WindowSnapshot,
    WindowSnapshotView,
};

verus! {

broadcast use vstd::std_specs::hash::group_hash_axioms;

/// The selected groups of a projection, with those that were selected
/// meanwhile and still exist.
pub open spec fn merged_groups(
    projected: Map<u64, u64>,
    newer: Map<u64, u64>,
    groups: Map<u64, String>,
) -> Map<u64, u64> {
    projected.union_prefer_right(
        newer.restrict(
            newer.dom().filter(|workspace: u64| groups.contains_key(newer[workspace])),
        ),
    )
}

fn merge_groups(
    projected: &mut HashMap<u64, u64>,
    newer: &HashMap<u64, u64>,
    groups: &HashMap<u64, String>,
)
    ensures
        final(projected)@ == merged_groups(old(projected)@, newer@, groups@),
{
    let ghost start = projected@;
    let keys = keys_of(newer);
    let mut i: usize = 0;
    while i < keys.len()
        invariant
            i <= keys@.len(),
            start == old(projected)@,
            keys@.no_duplicates(),
            forall|k: u64| #[trigger] keys@.contains(k) <==> newer@.contains_key(k),
            forall|k: u64|
                #![trigger projected@.contains_key(k)]
                projected@.contains_key(k) <==> start.contains_key(k) || (keys@.take(
                    i as int,
                ).contains(k) && groups@.contains_key(newer@[k])),
            forall|k: u64|
                #![trigger projected@[k]]
                projected@.contains_key(k) ==> projected@[k] == (if keys@.take(i as int).contains(
                    k,
                ) && groups@.contains_key(newer@[k]) {
                    newer@[k]
                } else {
                    start[k]
                }),
        decreases keys@.len() - i,
    {
        let workspace: u64 = keys[i];
        let ghost front = keys@.take(i as int);
        assert(keys@.take(i + 1) == front.push(workspace));
        broadcast use vstd::seq_lib::group_seq_properties;

        assert(keys@.contains(workspace));
        let group: u64 = match newer.get(&workspace) {
            Some(group) => *group,
            None => 0,
        };
        if groups.contains_key(&group) {
            projected.insert(workspace, group);
        }
        i = i + 1;
    }
    assert(keys@.take(i as int) == keys@);
    assert(projected@ =~= merged_groups(start, newer@, groups@));
}

/// The panes, of which at most one is marked as selected.
pub open spec fn marked(panes: Seq<PaneSnapshotView>, selected: Option<u64>) -> Seq<
    PaneSnapshotView,
> {
    Seq::new(
        panes.len(),
        |i: int| PaneSnapshotView { selected: selected == Some(panes[i].pane_id), ..panes[i] },
    )
}

/// A window with its panes; it is selected where one of them is.
pub open spec fn filled(window: WindowSnapshotView, flat: Seq<PaneSnapshotView>) -> WindowSnapshotView {
    WindowSnapshotView {
        panes: topology::panes_in(flat, window.window_id),
        selected: exists|i: int|
            0 <= i < flat.len() && (#[trigger] flat[i]).window_id == window.window_id
                && flat[i].selected,
        ..window
    }
}

pub open spec fn filled_windows(
    windows: Seq<WindowSnapshotView>,
    flat: Seq<PaneSnapshotView>,
) -> Seq<WindowSnapshotView> {
    Seq::new(windows.len(), |i: int| filled(windows[i], flat))
}

fn mark_flat(panes: &Vec<PaneSnapshot>, selected: Option<u64>) -> (r: Vec<PaneSnapshot>)
    ensures
        snapshot::pane_views(r@) == marked(snapshot::pane_views(panes@), selected),
{
    let mut out: Vec<PaneSnapshot> = Vec::new();
    let mut i: usize = 0;
    while i < panes.len()
        invariant
            i <= panes@.len(),
            out@.len() == i,
            forall|k: int|
                0 <= k < i ==> (#[trigger] out@[k])@ == marked(snapshot::pane_views(panes@), selected)[k],
        decreases panes@.len() - i,
    {
        let mut pane = panes[i].clone();
        pane.selected = match selected {
            Some(chosen) => chosen == pane.pane_id,
            None => false,
        };
        out.push(pane);
        i = i + 1;
    }
    assert(snapshot::pane_views(out@) =~= marked(snapshot::pane_views(panes@), selected));
    out
}

fn fill_window(window: &WindowSnapshot, flat: &Vec<PaneSnapshot>) -> (r: WindowSnapshot)
    ensures
        r@ == filled(window@, snapshot::pane_views(flat@)),
{
    let ghost all = snapshot::pane_views(flat@);
    let mut panes: Vec<PaneSnapshot> = Vec::new();
    let mut selected = false;
    let mut i: usize = 0;
    assert(all.take(0) == Seq::<PaneSnapshotView>::empty());
    assert(snapshot::pane_views(panes@) =~= Seq::<PaneSnapshotView>::empty());
    while i < flat.len()
        invariant
            i <= flat@.len(),
            all == snapshot::pane_views(flat@),
            snapshot::pane_views(panes@) == topology::panes_in(all.take(i as int), window.window_id),
            selected == exists|k: int|
                0 <= k < i && (#[trigger] all[k]).window_id == window.window_id && all[k].selected,
        decreases flat@.len() - i,
    {
        assert(all.take(i + 1).drop_last() == all.take(i as int));
        assert(all.take(i + 1).last() == flat@[i as int]@);
        assert(all[i as int] == flat@[i as int]@);
        if flat[i].window_id == window.window_id {
            let ghost before = panes@;
            let pane = flat[i].clone();
            if pane.selected {
                selected = true;
            }
            panes.push(pane);
            assert(snapshot::pane_views(panes@) =~= snapshot::pane_views(before).push(pane@));
        }
        i = i + 1;
    }
    assert(all.take(i as int) == all);
    WindowSnapshot {
        window_id: window.window_id,
        name: window.name.clone(),
        panes,
        selected,
        zoomed: window.zoomed,
    }
}

fn fill_windows(windows: &Vec<WindowSnapshot>, flat: &Vec<PaneSnapshot>) -> (r: Vec<WindowSnapshot>)
    ensures
        snapshot::window_views(r@) == filled_windows(snapshot::window_views(windows@), snapshot::pane_views(flat@)),
{
    let mut out: Vec<WindowSnapshot> = Vec::new();
    let mut i: usize = 0;
    while i < windows.len()
        invariant
            i <= windows@.len(),
            out@.len() == i,
            forall|k: int|
                0 <= k < i ==> (#[trigger] out@[k])@ == filled(windows@[k]@, snapshot::pane_views(flat@)),
        decreases windows@.len() - i,
    {
        out.push(fill_window(&windows[i], flat));
        i = i + 1;
    }
    assert(snapshot::window_views(out@) =~= filled_windows(snapshot::window_views(windows@), snapshot::pane_views(flat@)));
    out
}

/// A pane with this stable terminal.
pub open spec fn is_terminal(panes: Map<u64, RemotePane>, handle: u64, terminal: Seq<char>) -> bool {
    panes.contains_key(handle) && panes[handle].terminal_id@ == terminal
}

/// Finds a pane by its stable terminal.
pub fn find_terminal(panes: &HashMap<u64, RemotePane>, terminal: &str) -> (r: Option<u64>)
    ensures
        match r {
            Some(handle) => is_terminal(panes@, handle, terminal@),
            None => forall|h: u64| !#[trigger] is_terminal(panes@, h, terminal@),
        },
{
    let keys = keys_of(panes);
    let mut i: usize = 0;
    while i < keys.len()
        invariant
            i <= keys@.len(),
            forall|k: u64| #[trigger] keys@.contains(k) <==> panes@.contains_key(k),
            forall|k: int| 0 <= k < i ==> !is_terminal(panes@, #[trigger] keys@[k], terminal@),
        decreases keys@.len() - i,
    {
        assert(keys@.contains(keys@[i as int]));
        match panes.get(&keys[i]) {
            Some(remote) => {
                if same_text(remote.terminal_id.as_str(), terminal) {
                    return Some(keys[i]);
                }
            },
            None => {},
        }
        i = i + 1;
    }
    assert forall|h: u64| !#[trigger] is_terminal(panes@, h, terminal@) by {
        if panes@.contains_key(h) {
            assert(keys@.contains(h));
            let k = choose|k: int| 0 <= k < keys@.len() && keys@[k] == h;
            assert(!is_terminal(panes@, keys@[k], terminal@));
        }
    }
    None
}

/// The selection of a projection once what was selected meanwhile is taken
/// into account.
pub open spec fn kept_selection(
    projection: SnapshotProjection,
    state: SessionState,
    old_selected: Option<u64>,
) -> Option<u64> {
    if state.selected_pane == old_selected {
        projection.selected
    } else if state.selected_pane is Some && projection.metadata.panes@.contains_key(
        state.selected_pane->0,
    ) {
        state.selected_pane
    } else {
        None
    }
}

/// The group selection of a projection once what was selected meanwhile is
/// taken into account, before a recovery's terminal is selected.
pub open spec fn kept_groups(
    projection: SnapshotProjection,
    state: SessionState,
    old_selected: Option<u64>,
) -> (Map<u64, u64>, Option<u64>) {
    let m = projection.metadata;
    if state.selected_pane == old_selected {
        (m.selected_groups@, m.active_group)
    } else {
        let merged = merged_groups(m.selected_groups@, state.herdr.selected_groups@, m.groups@);
        let active = if state.herdr.active_group is Some && m.groups@.contains_key(
            state.herdr.active_group->0,
        ) {
            state.herdr.active_group
        } else {
            m.active_group
        };
        let selected = kept_selection(projection, state, old_selected);
        if selected is Some {
            (
                metadata::groups_with_pane(merged, m.panes@, selected->0),
                Some(m.panes@[selected->0].group),
            )
        } else {
            (merged, active)
        }
    }
}

/// Settles a projection against the state that it is to be committed to.  A
/// selection that was committed meanwhile is kept; a recovery selects its
/// stable terminal and nothing else.
pub fn settle_projection(
    projection: SnapshotProjection,
    state: &SessionState,
    cancelled: bool,
    generation: u64,
    old_selected: Option<u64>,
    strict_terminal: Option<&str>,
) -> (r: Result<SnapshotProjection, FlowFailure>)
    ensures
        cancelled || state.generation != generation ==> r is Err && r->Err_0 == FlowFailure::Stale,
        !cancelled && state.generation == generation ==> match strict_terminal {
            Some(terminal) => match r {
                Ok(out) => {
                    &&& out.selected is Some
                    &&& is_terminal(projection.metadata.panes@, out.selected->0, terminal@)
                    &&& settled(out, projection, out.selected)
                    &&& marks_selection(out, projection)
                    &&& (out.metadata.selected_groups@, out.metadata.active_group) == (
                        metadata::groups_with_pane(
                            kept_groups(projection, *state, old_selected).0,
                            projection.metadata.panes@,
                            out.selected->0,
                        ),
                        Some(projection.metadata.panes@[out.selected->0].group),
                    )
                },
                Err(e) => e == FlowFailure::HerdrSessionMissing && forall|h: u64|
                    !#[trigger] is_terminal(projection.metadata.panes@, h, terminal@),
            },
            None => match r {
                Ok(out) => {
                    &&& settled(out, projection, kept_selection(projection, *state, old_selected))
                    &&& if state.selected_pane == old_selected {
                        out.metadata == projection.metadata
                    } else {
                        marks_selection(out, projection)
                    }
                    &&& (out.metadata.selected_groups@, out.metadata.active_group) == kept_groups(
                        projection,
                        *state,
                        old_selected,
                    )
                },
                Err(_) => false,
            },
        },
{
    if cancelled || state.generation != generation {
        return Err(FlowFailure::Stale);
    }
    let ghost first = projection;
    let SnapshotProjection { metadata, mapping, selected, flat, windows, stale } = projection;
    let mut metadata = metadata;
    let mut selected = selected;
    let moved = match (state.selected_pane, old_selected) {
        (Some(now), Some(before)) => now != before,
        (None, None) => false,
        _ => true,
    };
    let ghost groups0 = workspace::group_views(first.metadata.snapshot.groups@);
    let ghost terminals0 = workspace::terminal_views(first.metadata.snapshot.terminals@);
    if moved {
        selected = match state.selected_pane {
            Some(pane) => if metadata.panes.contains_key(&pane) {
                Some(pane)
            } else {
                None
            },
            None => None,
        };
        merge_groups(
            &mut metadata.selected_groups,
            &state.herdr.selected_groups,
            &metadata.groups,
        );
        match state.herdr.active_group {
            Some(group) => {
                if metadata.groups.contains_key(&group) {
                    metadata.active_group = Some(group);
                }
            },
            None => {},
        }
        match selected {
            Some(pane) => {
                metadata.select(pane);
            },
            None => {
                metadata.deselect_terminals();
                metadata.refresh_group_selection();
            },
        }
    }
    match strict_terminal {
        Some(terminal) => match find_terminal(&metadata.panes, terminal) {
            Some(pane) => {
                let ghost before = metadata;
                let ghost marked_before = selected;
                selected = Some(pane);
                metadata.select(pane);
                proof {
                    if moved {
                        metadata::lemma_refreshed_twice(
                            groups0,
                            before.selected_groups@,
                            metadata.selected_groups@,
                        );
                        metadata::lemma_selected_twice(terminals0, marked_before, selected);
                    }
                }
            },
            None => {
                return Err(FlowFailure::HerdrSessionMissing);
            },
        },
        None => {},
    }
    let flat = mark_flat(&flat, selected);
    let windows = fill_windows(&windows, &flat);
    Ok(SnapshotProjection { metadata, mapping, selected, flat, windows, stale })
}

/// The groups and terminals are marked by the new selection.
pub open spec fn marks_selection(out: SnapshotProjection, projection: SnapshotProjection) -> bool {
    &&& workspace::group_views(out.metadata.snapshot.groups@) == metadata::refreshed(
        workspace::group_views(projection.metadata.snapshot.groups@),
        out.metadata.selected_groups@,
    )
    &&& workspace::terminal_views(out.metadata.snapshot.terminals@) == metadata::with_selected(
        workspace::terminal_views(projection.metadata.snapshot.terminals@),
        out.selected,
    )
}

/// The projection with this selection marked in its panes and windows, and
/// with nothing else changed but the selection itself.
pub open spec fn settled(
    out: SnapshotProjection,
    projection: SnapshotProjection,
    selected: Option<u64>,
) -> bool {
    &&& out.selected == selected
    &&& metadata::same_runtime(out.metadata, projection.metadata)
    &&& out.mapping == projection.mapping
    &&& out.stale == projection.stale
    &&& snapshot::pane_views(out.flat@) == marked(snapshot::pane_views(projection.flat@), selected)
    &&& snapshot::window_views(out.windows@) == filled_windows(
        snapshot::window_views(projection.windows@),
        snapshot::pane_views(out.flat@),
    )
}

/// Makes a settled projection the state's own.
pub fn apply_projection_state(state: &mut SessionState, projection: SnapshotProjection) -> (r: Vec<
    u64,
>)
    ensures
        final(state).herdr == projection.metadata,
        final(state).pane_terminals == projection.mapping,
        final(state).selected_pane == projection.selected,
        final(state).snapshot@ == (SessionSnapshotView {
            windows: snapshot::window_views(projection.windows@),
            panes: snapshot::pane_views(projection.flat@),
            selected_pane: projection.selected,
        }),
        other_state(*final(state), *old(state)),
        r == projection.stale,
{
    let SnapshotProjection { metadata, mapping, selected, flat, windows, stale } = projection;
    state.herdr = metadata;
    state.pane_terminals = mapping;
    state.selected_pane = selected;
    state.snapshot = SessionSnapshot { windows, panes: flat, selected_pane: selected };
    stale
}

/// Everything that a projection does not replace.
pub open spec fn other_state(a: SessionState, b: SessionState) -> bool {
    &&& a.generation == b.generation
    &&& a.operation_epoch == b.operation_epoch
    &&& a.meeterm_zoomed == b.meeterm_zoomed
    &&& a.meeterm_zoomed_window == b.meeterm_zoomed_window
    &&& a.meeterm_zoomed_pane == b.meeterm_zoomed_pane
    &&& a.viewport == b.viewport
    &&& a.recovery == b.recovery
    &&& a.runtime_operations_ready == b.runtime_operations_ready
    &&& a.terminal_input_ready == b.terminal_input_ready
    &&& a.terminal_visible == b.terminal_visible
    &&& a.recovery_terminal_id == b.recovery_terminal_id
    &&& a.recovery_group_id == b.recovery_group_id
    &&& a.runtime_discovery == b.runtime_discovery
    &&& a.runtime_candidates == b.runtime_candidates
    &&& a.profile == b.profile
}

/// Commits a settled projection, unless the state has moved on.  Gives the
/// native terminals to retire.
pub fn commit_projection(
    state: &mut SessionState,
    gate: CommitGate,
    projection: SnapshotProjection,
) -> (r: Result<Vec<u64>, FlowFailure>)
    ensures
        !commit::current(*old(state), gate) ==> r == Err::<Vec<u64>, FlowFailure>(FlowFailure::Stale)
            && *final(state) == *old(state),
        commit::current(*old(state), gate) ==> {
            &&& r == Ok::<Vec<u64>, FlowFailure>(projection.stale)
            &&& final(state).herdr == projection.metadata
            &&& final(state).pane_terminals == projection.mapping
            &&& final(state).selected_pane == projection.selected
            &&& final(state).snapshot@ == (SessionSnapshotView {
                windows: snapshot::window_views(projection.windows@),
                panes: snapshot::pane_views(projection.flat@),
                selected_pane: projection.selected,
            })
            &&& other_state(*final(state), *old(state))
        },
{
    if !gate.is_open(state) {
        return Err(FlowFailure::Stale);
    }
    Ok(apply_projection_state(state, projection))
}

/// A native terminal of a projection that was never committed.
pub open spec fn unused(
    mapping: Map<u64, u64>,
    committed: Map<u64, u64>,
    owner: u64,
    handle: u64,
) -> bool {
    mapping.contains_key(handle) && mapping[handle] != owner && !committed.values().contains(
        mapping[handle],
    )
}

fn is_committed(committed: &HashMap<u64, u64>, native: u64) -> (r: bool)
    ensures
        r == committed@.values().contains(native),
{
    let keys = keys_of(committed);
    let mut i: usize = 0;
    while i < keys.len()
        invariant
            i <= keys@.len(),
            forall|k: u64| #[trigger] keys@.contains(k) <==> committed@.contains_key(k),
            forall|k: int| 0 <= k < i ==> committed@[#[trigger] keys@[k]] != native,
        decreases keys@.len() - i,
    {
        assert(keys@.contains(keys@[i as int]));
        match committed.get(&keys[i]) {
            Some(found) => {
                if *found == native {
                    assert(committed@.dom().contains(keys@[i as int]));
                    return true;
                }
            },
            None => {},
        }
        i = i + 1;
    }
    proof {
        if committed@.values().contains(native) {
            let h = choose|h: u64| committed@.dom().contains(h) && #[trigger] committed@[h] == native;
            assert(keys@.contains(h));
            let k = choose|k: int| 0 <= k < keys@.len() && keys@[k] == h;
            assert(committed@[keys@[k]] != native);
        }
    }
    false
}

/// The native terminals to destroy when a staged projection is dropped: those
/// that are neither committed nor the connection's own.  They come in no
/// particular order.
pub fn discarded_natives(
    mapping: &HashMap<u64, u64>,
    committed: &HashMap<u64, u64>,
    owner: u64,
) -> (r: Vec<u64>)
    ensures
        exists|dropped: Seq<u64>|
            #![trigger dropped.no_duplicates()]
            {
                &&& dropped.no_duplicates()
                &&& forall|h: u64|
                    #[trigger] dropped.contains(h) <==> unused(mapping@, committed@, owner, h)
                &&& r@ == Seq::new(dropped.len(), |i: int| mapping@[dropped[i]])
            },
{
    let keys = keys_of(mapping);
    let ghost mut dropped: Seq<u64> = seq![];
    let mut out: Vec<u64> = Vec::new();
    let mut i: usize = 0;
    while i < keys.len()
        invariant
            i <= keys@.len(),
            keys@.no_duplicates(),
            forall|k: u64| #[trigger] keys@.contains(k) <==> mapping@.contains_key(k),
            dropped.no_duplicates(),
            forall|h: u64|
                #[trigger] dropped.contains(h) <==> keys@.take(i as int).contains(h) && unused(
                    mapping@,
                    committed@,
                    owner,
                    h,
                ),
            out@ == Seq::new(dropped.len(), |k: int| mapping@[dropped[k]]),
        decreases keys@.len() - i,
    {
        let handle: u64 = keys[i];
        let ghost front = keys@.take(i as int);
        assert(keys@.take(i + 1) == front.push(handle));
        broadcast use vstd::seq_lib::group_seq_properties;

        assert(keys@.contains(handle));
        assert(!front.contains(handle)) by {
            if front.contains(handle) {
                let k = choose|k: int| 0 <= k < front.len() && front[k] == handle;
                assert(keys@[k] == keys@[i as int]);
            }
        }
        match mapping.get(&handle) {
            Some(native) => {
                let native: u64 = *native;
                if native != owner && !is_committed(committed, native) {
                    let ghost before = dropped;
                    proof {
                        assert(!before.contains(handle));
                        dropped = dropped.push(handle);
                    }
                    out.push(native);
                    assert(out@ =~= Seq::new(dropped.len(), |k: int| mapping@[dropped[k]]));
                }
            },
            None => {},
        }
        i = i + 1;
    }
    assert(keys@.take(i as int) == keys@);
    assert(dropped.no_duplicates());
    assert forall|h: u64| #[trigger] dropped.contains(h) <==> unused(
        mapping@,
        committed@,
        owner,
        h,
    ) by {
        if mapping@.contains_key(h) {
            assert(keys@.contains(h));
        }
    }
    out
}

} // verus!
