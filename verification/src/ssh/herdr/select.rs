//! Selecting a pane or a group of a Herdr runtime.

use vstd::prelude::*;

use crate::workspace;
use crate::tmux::snapshot;
use crate::text;
use crate::ssh::selection;
use crate::ssh::herdr::settle;
use crate::ssh::herdr::metadata;
use crate::ssh::flow::FlowFailure;
use crate::ssh::herdr::metadata::{handle_text, parse_handle, Metadata};
use crate::ssh::herdr::settle::find_terminal;
use crate::ssh::selection::mark_selected;
use crate::ssh::state::SessionState;
use crate::text::same_text;
use crate::tmux::snapshot::{
    PaneSnapshot, PaneSnapshotView, SessionSnapshot, SessionSnapshotView, WindowSnapshot,
    WindowSnapshotView,
};
use crate::workspace::{Terminal, TerminalView};

verus! {

broadcast use vstd::std_specs::hash::group_hash_axioms;

/// The metadata after a pane was selected in it.
pub open spec fn pane_selected(after: Metadata, before: Metadata, pane: u64) -> bool {
    &&& metadata::same_runtime(after, before)
    &&& after.selected_groups@ == metadata::groups_with_pane(before.selected_groups@, before.panes@, pane)
    &&& after.active_group == (if before.panes@.contains_key(pane) {
        Some(before.panes@[pane].group)
    } else {
        before.active_group
    })
    &&& workspace::terminal_views(after.snapshot.terminals@) == metadata::with_selected(
        workspace::terminal_views(before.snapshot.terminals@),
        Some(pane),
    )
    &&& workspace::group_views(after.snapshot.groups@) == metadata::refreshed(
        workspace::group_views(before.snapshot.groups@),
        after.selected_groups@,
    )
}

/// Everything but the selection, the topology's marks and input readiness.
pub open spec fn same_session(a: SessionState, b: SessionState) -> bool {
    &&& a.generation == b.generation
    &&& a.operation_epoch == b.operation_epoch
    &&& a.pane_terminals == b.pane_terminals
    &&& a.meeterm_zoomed == b.meeterm_zoomed
    &&& a.meeterm_zoomed_window == b.meeterm_zoomed_window
    &&& a.meeterm_zoomed_pane == b.meeterm_zoomed_pane
    &&& a.viewport == b.viewport
    &&& a.recovery == b.recovery
    &&& a.runtime_operations_ready == b.runtime_operations_ready
    &&& a.terminal_visible == b.terminal_visible
    &&& a.recovery_terminal_id == b.recovery_terminal_id
    &&& a.recovery_group_id == b.recovery_group_id
    &&& a.runtime_discovery == b.runtime_discovery
    &&& a.runtime_candidates == b.runtime_candidates
    &&& a.profile == b.profile
}

/// The pane is known, shown in this window and has a terminal.
pub open spec fn selectable(state: SessionState, window: u64, pane: u64) -> bool {
    &&& state.herdr.panes@.contains_key(pane)
    &&& state.herdr.panes@[pane].workspace == window
    &&& exists|i: int|
        0 <= i < state.snapshot.panes@.len() && (#[trigger] state.snapshot.panes@[i]).pane_id
            == pane && state.snapshot.panes@[i].window_id == window
    &&& state.pane_terminals@.contains_key(pane)
}

fn is_shown(panes: &Vec<PaneSnapshot>, window: u64, pane: u64) -> (r: bool)
    ensures
        r == exists|i: int|
            0 <= i < panes@.len() && (#[trigger] panes@[i]).pane_id == pane && panes@[i].window_id
                == window,
{
    let mut i: usize = 0;
    while i < panes.len()
        invariant
            i <= panes@.len(),
            forall|k: int|
                0 <= k < i ==> !((#[trigger] panes@[k]).pane_id == pane && panes@[k].window_id
                    == window),
        decreases panes@.len() - i,
    {
        if panes[i].pane_id == pane && panes[i].window_id == window {
            return true;
        }
        i = i + 1;
    }
    false
}

/// Commits the selection of a pane, and closes input until the pane's first
/// frame.
pub fn select_pane_payload(
    state: &mut SessionState,
    expected_epoch: u64,
    window_id: u64,
    pane_id: u64,
) -> (r: Result<(), FlowFailure>)
    ensures
        r == (if old(state).operation_epoch != expected_epoch {
            Err::<(), FlowFailure>(FlowFailure::Stale)
        } else if !selectable(*old(state), window_id, pane_id) {
            Err(FlowFailure::HerdrOperation)
        } else {
            Ok(())
        }),
        r is Err ==> *final(state) == *old(state),
        r is Ok ==> {
            &&& same_session(*final(state), *old(state))
            &&& final(state).selected_pane == Some(pane_id)
            &&& pane_selected(final(state).herdr, old(state).herdr, pane_id)
            &&& final(state).snapshot@ == selection::marked(old(state).snapshot@, pane_id)
            &&& !final(state).terminal_input_ready
        },
{
    if state.operation_epoch != expected_epoch {
        return Err(FlowFailure::Stale);
    }
    let own = match state.herdr.panes.get(&pane_id) {
        Some(remote) => remote.workspace == window_id,
        None => false,
    };
    if !own || !is_shown(&state.snapshot.panes, window_id, pane_id)
        || !state.pane_terminals.contains_key(&pane_id) {
        return Err(FlowFailure::HerdrOperation);
    }
    state.selected_pane = Some(pane_id);
    state.herdr.select(pane_id);
    mark_selected(&mut state.snapshot, pane_id);
    state.terminal_input_ready = false;
    Ok(())
}

/// The first terminal of a group; the first active one, where `active` asks
/// for that.
pub open spec fn first_terminal(
    terminals: Seq<TerminalView>,
    group: Seq<char>,
    active: bool,
) -> Option<TerminalView>
    decreases terminals.len(),
{
    if terminals.len() == 0 {
        None
    } else if terminals[0].group_id == group && (terminals[0].active || !active) {
        Some(terminals[0])
    } else {
        first_terminal(terminals.drop_first(), group, active)
    }
}

/// The pane to show of a group: its active terminal, else its first, else
/// none.
pub open spec fn group_pane(terminals: Seq<TerminalView>, group: u64) -> Option<u64> {
    let id = text::decimal(group as nat);
    match first_terminal(terminals, id, true) {
        Some(terminal) => metadata::handle_in(terminal.id),
        None => match first_terminal(terminals, id, false) {
            Some(terminal) => metadata::handle_in(terminal.id),
            None => None,
        },
    }
}

fn find_first(terminals: &Vec<Terminal>, group: &str, active: bool) -> (r: Option<usize>)
    ensures
        match r {
            Some(at) => at < terminals@.len() && first_terminal(
                workspace::terminal_views(terminals@),
                group@,
                active,
            ) == Some(terminals@[at as int]@),
            None => first_terminal(workspace::terminal_views(terminals@), group@, active) is None,
        },
{
    let ghost all = workspace::terminal_views(terminals@);
    let mut i: usize = 0;
    assert(all.skip(0) == all);
    while i < terminals.len()
        invariant
            i <= terminals@.len(),
            all == workspace::terminal_views(terminals@),
            first_terminal(all.skip(i as int), group@, active) == first_terminal(
                all,
                group@,
                active,
            ),
        decreases terminals@.len() - i,
    {
        assert(all.skip(i as int)[0] == terminals@[i as int]@);
        assert(all.skip(i as int).drop_first() == all.skip(i + 1));
        if same_text(terminals[i].group_id.as_str(), group) && (terminals[i].active || !active) {
            return Some(i);
        }
        i = i + 1;
    }
    None
}

fn pane_of_group(terminals: &Vec<Terminal>, group: u64) -> (r: Option<u64>)
    ensures
        r == group_pane(workspace::terminal_views(terminals@), group),
{
    let id = handle_text(group);
    match find_first(terminals, id.as_str(), true) {
        Some(at) => parse_handle(terminals[at].id.as_str()),
        None => match find_first(terminals, id.as_str(), false) {
            Some(at) => parse_handle(terminals[at].id.as_str()),
            None => None,
        },
    }
}

/// The panes, none of them marked.
pub open spec fn unmarked_panes(panes: Seq<PaneSnapshotView>) -> Seq<PaneSnapshotView> {
    Seq::new(panes.len(), |i: int| PaneSnapshotView { selected: false, ..panes[i] })
}

/// A topology in which nothing is marked as selected.
pub open spec fn unmarked(snapshot: SessionSnapshotView) -> SessionSnapshotView {
    SessionSnapshotView {
        windows: Seq::new(
            snapshot.windows.len(),
            |i: int|
                WindowSnapshotView {
                    selected: false,
                    panes: unmarked_panes(snapshot.windows[i].panes),
                    ..snapshot.windows[i]
                },
        ),
        panes: unmarked_panes(snapshot.panes),
        selected_pane: None,
    }
}

fn unmark_panes(panes: &Vec<PaneSnapshot>) -> (r: Vec<PaneSnapshot>)
    ensures
        snapshot::pane_views(r@) == unmarked_panes(snapshot::pane_views(panes@)),
{
    let mut out: Vec<PaneSnapshot> = Vec::new();
    let mut i: usize = 0;
    while i < panes.len()
        invariant
            i <= panes@.len(),
            out@.len() == i,
            forall|k: int|
                0 <= k < i ==> (#[trigger] out@[k])@ == unmarked_panes(snapshot::pane_views(panes@))[k],
        decreases panes@.len() - i,
    {
        let mut pane = panes[i].clone();
        pane.selected = false;
        out.push(pane);
        i = i + 1;
    }
    assert(snapshot::pane_views(out@) =~= unmarked_panes(snapshot::pane_views(panes@)));
    out
}

fn unmark(snapshot: &SessionSnapshot) -> (r: SessionSnapshot)
    ensures
        r@ == unmarked(snapshot@),
{
    let mut windows: Vec<WindowSnapshot> = Vec::new();
    let mut i: usize = 0;
    while i < snapshot.windows.len()
        invariant
            i <= snapshot.windows@.len(),
            windows@.len() == i,
            forall|k: int|
                0 <= k < i ==> (#[trigger] windows@[k])@ == unmarked(snapshot@).windows[k],
        decreases snapshot.windows@.len() - i,
    {
        let window = &snapshot.windows[i];
        assert(snapshot@.windows[i as int] == window@);
        windows.push(
            WindowSnapshot {
                window_id: window.window_id,
                name: window.name.clone(),
                panes: unmark_panes(&window.panes),
                selected: false,
                zoomed: window.zoomed,
            },
        );
        i = i + 1;
    }
    let r = SessionSnapshot { windows, panes: unmark_panes(&snapshot.panes), selected_pane: None };
    assert(r@.windows =~= unmarked(snapshot@).windows);
    r
}

/// The metadata after a group was selected in it, and one of its panes, if it
/// has one.
pub open spec fn group_selected(
    after: Metadata,
    before: Metadata,
    group: u64,
    pane: Option<u64>,
) -> bool {
    let terminals = workspace::terminal_views(before.snapshot.terminals@);
    let groups = workspace::group_views(before.snapshot.groups@);
    let listed = metadata::workspace_of_group(groups, group);
    let base = match listed {
        Some(workspace) => before.selected_groups@.insert(workspace, group),
        None => before.selected_groups@,
    };
    let active = match listed {
        Some(_) => Some(group),
        None => before.active_group,
    };
    &&& metadata::same_runtime(after, before)
    &&& match pane {
        Some(id) => {
            &&& after.selected_groups@ == metadata::groups_with_pane(base, before.panes@, id)
            &&& after.active_group == (if before.panes@.contains_key(id) {
                Some(before.panes@[id].group)
            } else {
                active
            })
            &&& workspace::terminal_views(after.snapshot.terminals@) == metadata::with_selected(terminals, Some(id))
            &&& workspace::group_views(after.snapshot.groups@) == metadata::refreshed(groups, after.selected_groups@)
        },
        None => match listed {
            Some(_) => {
                &&& after.selected_groups@ == base
                &&& after.active_group == active
                &&& workspace::terminal_views(after.snapshot.terminals@) == metadata::with_selected(terminals, None)
                &&& workspace::group_views(after.snapshot.groups@) == metadata::refreshed(
                    groups,
                    after.selected_groups@,
                )
            },
            None => after == before,
        },
    }
}

/// Commits the selection of a group.  Its active terminal, or its first, is
/// shown; an empty group shows none.
pub fn select_group(state: &mut SessionState, group_id: u64) -> (r: Result<(), FlowFailure>)
    ensures
        r == (if old(state).herdr.groups@.contains_key(group_id) {
            Ok::<(), FlowFailure>(())
        } else {
            Err(FlowFailure::HerdrOperation)
        }),
        r is Err ==> *final(state) == *old(state),
        r is Ok ==> {
            let pane = group_pane(workspace::terminal_views(old(state).herdr.snapshot.terminals@), group_id);
            &&& same_session(*final(state), *old(state))
            &&& final(state).terminal_input_ready == old(state).terminal_input_ready
            &&& final(state).selected_pane == pane
            &&& group_selected(final(state).herdr, old(state).herdr, group_id, pane)
            &&& final(state).snapshot@ == (match pane {
                Some(id) => selection::marked(old(state).snapshot@, id),
                None => unmarked(old(state).snapshot@),
            })
        },
{
    if !state.herdr.groups.contains_key(&group_id) {
        return Err(FlowFailure::HerdrOperation);
    }
    let ghost before = state.herdr;
    let pane = pane_of_group(&state.herdr.snapshot.terminals, group_id);
    state.selected_pane = pane;
    state.herdr.select_group(group_id);
    match pane {
        Some(id) => {
            let ghost between = state.herdr;
            state.herdr.select(id);
            proof {
                let groups = workspace::group_views(before.snapshot.groups@);
                let terminals = workspace::terminal_views(before.snapshot.terminals@);
                crate::ssh::herdr::metadata::lemma_refreshed_twice(
                    groups,
                    between.selected_groups@,
                    state.herdr.selected_groups@,
                );
                crate::ssh::herdr::metadata::lemma_selected_twice(terminals, None, Some(id));
            }
            mark_selected(&mut state.snapshot, id);
        },
        None => {
            let snapshot = unmark(&state.snapshot);
            state.snapshot = snapshot;
        },
    }
    Ok(())
}

/// Selects the pane that a request created, once it is known.
pub fn select_created(state: &mut SessionState, terminal: &str) -> (r: bool)
    ensures
        r == exists|h: u64| settle::is_terminal(old(state).herdr.panes@, h, terminal@),
        !r ==> *final(state) == *old(state),
        r ==> {
            &&& final(state).selected_pane is Some
            &&& settle::is_terminal(old(state).herdr.panes@, final(state).selected_pane->0, terminal@)
            &&& same_session(*final(state), *old(state))
            &&& final(state).terminal_input_ready == old(state).terminal_input_ready
            &&& pane_selected(
                final(state).herdr,
                old(state).herdr,
                final(state).selected_pane->0,
            )
            &&& final(state).snapshot@ == selection::marked(
                old(state).snapshot@,
                final(state).selected_pane->0,
            )
        },
{
    match find_terminal(&state.herdr.panes, terminal) {
        Some(pane) => {
            state.selected_pane = Some(pane);
            state.herdr.select(pane);
            mark_selected(&mut state.snapshot, pane);
            true
        },
        None => false,
    }
}

} // verus!
