//! What a synchronization captures, routes and shows.

use vstd::prelude::*;

use crate::ssh::flow::FlowFailure;
use crate::ssh::plan;
use crate::ssh::plan::SyncPlan;
use crate::ssh::selection;
use crate::ssh::state::SessionState;
use crate::ssh::sync;
use crate::ssh::sync::SyncFlow;
use crate::tmux::records::{PaneInfo, PaneInfoView, WindowInfo, WindowInfoView};
use crate::tmux::snapshot::PaneSnapshot;

verus! {

/// The pane was shown with this place in the earlier snapshot, and nowhere
/// else.
pub open spec fn shown_once(old: Seq<PaneSnapshot>, id: u64, k: int) -> bool {
    &&& 0 <= k < old.len()
    &&& old[k].pane_id == id
    &&& forall|j: int| 0 <= j < old.len() && j != k ==> (#[trigger] old[j]).pane_id != id
}

/// The earlier snapshot shows a pane with this id in another width or height.
pub open spec fn size_differs(old: Seq<PaneSnapshot>, pane: PaneInfo) -> bool {
    exists|k: int|
        0 <= k < old.len() && (#[trigger] old[k]).pane_id == pane.pane_id && (old[k].columns
            != pane.columns || old[k].rows != pane.rows)
}

proof fn lemma_resized(old: Seq<PaneSnapshot>, pane: PaneInfo)
    ensures
        sync::resized(old, pane) ==> size_differs(old, pane),
    decreases old.len(),
{
    if old.len() > 0 && sync::resized(old, pane) {
        if old[0].pane_id != pane.pane_id {
            let rest = old.skip(1);
            lemma_resized(rest, pane);
            let k = choose|k: int|
                0 <= k < rest.len() && (#[trigger] rest[k]).pane_id == pane.pane_id && (
                rest[k].columns != pane.columns || rest[k].rows != pane.rows);
            assert(old[k + 1] == rest[k]);
        } else {
            assert(old[0].pane_id == pane.pane_id);
        }
    }
}

proof fn lemma_resized_once(old: Seq<PaneSnapshot>, pane: PaneInfo, k: int)
    requires
        shown_once(old, pane.pane_id, k),
        old[k].columns != pane.columns || old[k].rows != pane.rows,
    ensures
        sync::resized(old, pane),
    decreases old.len(),
{
    if k > 0 {
        let rest = old.skip(1);
        assert(old[0].pane_id != pane.pane_id);
        assert(rest[k - 1] == old[k]);
        assert forall|j: int| 0 <= j < rest.len() && j != k - 1 implies (
        #[trigger] rest[j]).pane_id != pane.pane_id by {
            assert(rest[j] == old[j + 1]);
        }
        lemma_resized_once(rest, pane, k - 1);
    }
}

/// A pane of a listing is captured where it has no route, where its size
/// changed, or where everything is.
proof fn lemma_captured(
    panes: Seq<PaneInfo>,
    routed: Set<u64>,
    strict: bool,
    strict_final: bool,
    old: Seq<PaneSnapshot>,
    i: int,
)
    requires
        0 <= i < panes.len(),
        strict_final || !routed.contains(panes[i].pane_id) || sync::resized(old, panes[i]),
    ensures
        sync::captures_needed(panes, routed, strict, strict_final, old).contains(panes[i].pane_id),
    decreases panes.len(),
{
    let all = sync::captures_needed(panes, routed, strict, strict_final, old);
    let id = panes[i].pane_id;
    let next = if strict {
        routed
    } else {
        routed.insert(panes[0].pane_id)
    };
    let rest = sync::captures_needed(panes.skip(1), next, strict, strict_final, old);
    if panes[0].pane_id == id && (!routed.contains(id) || strict_final || sync::resized(
        old,
        panes[0],
    )) {
        assert(all[0] == id);
    } else if i == 0 {
        assert(all[0] == id);
    } else {
        assert(panes.skip(1)[i - 1] == panes[i]);
        lemma_captured(panes.skip(1), next, strict, strict_final, old, i - 1);
        let k = choose|k: int| 0 <= k < rest.len() && rest[k] == id;
        if all.len() == rest.len() {
            assert(all[k] == id);
        } else {
            assert(all[k + 1] == id);
        }
    }
}

/// A pane whose width or height changed since it was shown is captured again.
pub proof fn law_a_resized_pane_is_captured(
    panes: Seq<PaneInfo>,
    routed: Set<u64>,
    strict: bool,
    strict_final: bool,
    old: Seq<PaneSnapshot>,
    i: int,
    k: int,
)
    requires
        0 <= i < panes.len(),
        shown_once(old, panes[i].pane_id, k),
    ensures
        old[k].columns != panes[i].columns ==> sync::captures_needed(
            panes,
            routed,
            strict,
            strict_final,
            old,
        ).contains(panes[i].pane_id),
        old[k].rows != panes[i].rows ==> sync::captures_needed(
            panes,
            routed,
            strict,
            strict_final,
            old,
        ).contains(panes[i].pane_id),
{
    if old[k].columns != panes[i].columns || old[k].rows != panes[i].rows {
        lemma_resized_once(old, panes[i], k);
        lemma_captured(panes, routed, strict, strict_final, old, i);
    }
}

/// A pane without a route is captured, and the final readback of a recovery
/// captures every pane.
pub proof fn law_a_new_pane_is_captured(
    panes: Seq<PaneInfo>,
    routed: Set<u64>,
    strict: bool,
    strict_final: bool,
    old: Seq<PaneSnapshot>,
    i: int,
)
    requires
        0 <= i < panes.len(),
        strict_final || !routed.contains(panes[i].pane_id),
    ensures
        sync::captures_needed(panes, routed, strict, strict_final, old).contains(panes[i].pane_id),
{
    lemma_captured(panes, routed, strict, strict_final, old, i);
}

/// Nothing else is captured: a pane that has its route and was shown in the
/// size it has is left alone.
pub proof fn law_only_what_changed_is_captured(
    panes: Seq<PaneInfo>,
    routed: Set<u64>,
    strict: bool,
    old: Seq<PaneSnapshot>,
    id: u64,
)
    requires
        routed.contains(id),
        sync::captures_needed(panes, routed, strict, false, old).contains(id),
    ensures
        exists|i: int|
            0 <= i < panes.len() && (#[trigger] panes[i]).pane_id == id && size_differs(
                old,
                panes[i],
            ),
    decreases panes.len(),
{
    let all = sync::captures_needed(panes, routed, strict, false, old);
    if panes.len() > 0 {
        let next = if strict {
            routed
        } else {
            routed.insert(panes[0].pane_id)
        };
        let rest = sync::captures_needed(panes.skip(1), next, strict, false, old);
        lemma_resized(old, panes[0]);
        if !(panes[0].pane_id == id && sync::resized(old, panes[0])) {
            let k = choose|k: int| 0 <= k < all.len() && all[k] == id;
            if all.len() == rest.len() {
                assert(rest[k] == id);
            } else {
                assert(all == seq![panes[0].pane_id] + rest);
                assert(k > 0);
                assert(rest[k - 1] == id);
            }
            law_only_what_changed_is_captured(panes.skip(1), next, strict, old, id);
            let i = choose|i: int|
                0 <= i < panes.skip(1).len() && (#[trigger] panes.skip(1)[i]).pane_id == id
                    && size_differs(old, panes.skip(1)[i]);
            assert(panes[i + 1] == panes.skip(1)[i]);
        } else {
            assert(panes[0].pane_id == id);
        }
    }
}

/// The pane at each place to route is listed there and has no route yet, and
/// every listed pane without a route gets one.
pub proof fn law_routes_are_given_where_they_lack(
    panes: Seq<PaneInfo>,
    routed: Set<u64>,
    from: int,
)
    requires
        0 <= from <= panes.len(),
    ensures
        forall|k: int|
            0 <= k < sync::routes_needed(panes, routed, from).len() ==> {
                let at = #[trigger] sync::routes_needed(panes, routed, from)[k];
                from <= at < panes.len() && !routed.contains(panes[at].pane_id)
            },
        forall|i: int|
            from <= i < panes.len() && !routed.contains((#[trigger] panes[i]).pane_id)
                ==> exists|k: int|
                0 <= k < sync::routes_needed(panes, routed, from).len() && panes[#[trigger] sync::routes_needed(
                    panes,
                    routed,
                    from,
                )[k]].pane_id == panes[i].pane_id,
    decreases panes.len() - from,
{
    let all = sync::routes_needed(panes, routed, from);
    if from < panes.len() {
        if routed.contains(panes[from].pane_id) {
            law_routes_are_given_where_they_lack(panes, routed, from + 1);
            assert(all == sync::routes_needed(panes, routed, from + 1));
        } else {
            let more = routed.insert(panes[from].pane_id);
            law_routes_are_given_where_they_lack(panes, more, from + 1);
            let rest = sync::routes_needed(panes, more, from + 1);
            assert(all == seq![from] + rest);
            assert forall|k: int| 0 <= k < all.len() implies {
                let at = #[trigger] all[k];
                from <= at < panes.len() && !routed.contains(panes[at].pane_id)
            } by {
                if k > 0 {
                    assert(all[k] == rest[k - 1]);
                }
            }
            assert forall|i: int|
                from <= i < panes.len() && !routed.contains(
                    (#[trigger] panes[i]).pane_id,
                ) implies exists|k: int|
                0 <= k < all.len() && panes[#[trigger] all[k]].pane_id == panes[i].pane_id by {
                if panes[i].pane_id == panes[from].pane_id {
                    assert(all[0] == from);
                } else {
                    let k = choose|k: int|
                        0 <= k < rest.len() && panes[#[trigger] rest[k]].pane_id
                            == panes[i].pane_id;
                    assert(all[k + 1] == rest[k]);
                }
            }
        }
    }
}

/// Different panes have different terminals.
pub open spec fn no_sharing(mapping: Map<u64, u64>) -> bool {
    forall|a: u64, b: u64|
        #![trigger mapping.contains_key(a), mapping.contains_key(b)]
        mapping.contains_key(a) && mapping.contains_key(b) && mapping[a] == mapping[b] ==> a == b
}

/// The terminal belongs to no pane.
pub open spec fn is_free(mapping: Map<u64, u64>, native: u64) -> bool {
    forall|a: u64| #[trigger] mapping.contains_key(a) ==> mapping[a] != native
}

/// No two panes share a terminal: a created one goes to one pane, and the
/// owner's to the first pane of a session that showed nothing.
pub proof fn law_no_two_panes_share_a_terminal(
    panes: Seq<PaneInfo>,
    mapping: Map<u64, u64>,
    nothing_shown: bool,
    owner: u64,
    fresh: Seq<u64>,
)
    requires
        no_sharing(mapping),
        fresh.no_duplicates(),
        fresh.len() == sync::terminals_needed(panes, mapping.dom(), nothing_shown).len(),
        forall|i: int| 0 <= i < fresh.len() ==> is_free(mapping, #[trigger] fresh[i]),
        !fresh.contains(owner),
    ensures
        no_sharing(sync::terminals_assigned(panes, mapping, nothing_shown, owner, fresh)),
    decreases panes.len(),
{
    if panes.len() > 0 {
        let id = panes[0].pane_id;
        let rest = panes.skip(1);
        if mapping.contains_key(id) {
            law_no_two_panes_share_a_terminal(rest, mapping, nothing_shown, owner, fresh);
        } else if nothing_shown && mapping.dom().is_empty() {
            let next = mapping.insert(id, owner);
            assert(next.dom() =~= mapping.dom().insert(id));
            assert forall|i: int| 0 <= i < fresh.len() implies is_free(
                next,
                #[trigger] fresh[i],
            ) by {
                assert(fresh.contains(fresh[i]));
                assert(is_free(mapping, fresh[i]));
                assert forall|a: u64| #[trigger] next.contains_key(a) implies next[a]
                    != fresh[i] by {
                    if a != id {
                        assert(mapping.dom().contains(a));
                    }
                }
            }
            assert(no_sharing(next)) by {
                assert forall|a: u64, b: u64|
                    #![trigger next.contains_key(a), next.contains_key(b)]
                    next.contains_key(a) && next.contains_key(b) && next[a] == next[b] implies a
                    == b by {
                    if a != id {
                        assert(mapping.dom().contains(a));
                    }
                    if b != id {
                        assert(mapping.dom().contains(b));
                    }
                }
            }
            law_no_two_panes_share_a_terminal(rest, next, nothing_shown, owner, fresh);
        } else {
            let next = mapping.insert(id, fresh[0]);
            let more = fresh.skip(1);
            assert(next.dom() =~= mapping.dom().insert(id));
            assert(is_free(mapping, fresh[0]));
            assert forall|i: int| 0 <= i < more.len() implies is_free(next, #[trigger] more[i]) by {
                assert(more[i] == fresh[i + 1]);
                assert(is_free(mapping, fresh[i + 1]));
                assert(fresh[i + 1] != fresh[0]);
            }
            assert(more.no_duplicates());
            assert(!more.contains(owner)) by {
                if more.contains(owner) {
                    let i = choose|i: int| 0 <= i < more.len() && more[i] == owner;
                    assert(fresh[i + 1] == owner);
                }
            }
            law_no_two_panes_share_a_terminal(rest, next, nothing_shown, owner, more);
        }
    }
}

/// A terminal is created for a listed pane, in that pane's size.
pub proof fn law_terminals_are_created_in_their_panes_size(
    panes: Seq<PaneInfo>,
    known: Set<u64>,
    nothing_shown: bool,
    k: int,
)
    requires
        0 <= k < sync::terminals_needed(panes, known, nothing_shown).len(),
    ensures
        exists|i: int|
            0 <= i < panes.len() && !known.contains((#[trigger] panes[i]).pane_id)
                && sync::terminals_needed(panes, known, nothing_shown)[k] == (
                panes[i].columns,
                panes[i].rows,
            ),
    decreases panes.len(),
{
    let rest = panes.skip(1);
    let all = sync::terminals_needed(panes, known, nothing_shown);
    let id = panes[0].pane_id;
    let (next, at) = if known.contains(id) {
        (known, k)
    } else if nothing_shown && known.is_empty() {
        (known.insert(id), k)
    } else {
        (known.insert(id), k - 1)
    };
    if at >= 0 {
        law_terminals_are_created_in_their_panes_size(rest, next, nothing_shown, at);
        let i = choose|i: int|
            0 <= i < rest.len() && !next.contains((#[trigger] rest[i]).pane_id)
                && sync::terminals_needed(rest, next, nothing_shown)[at] == (
                rest[i].columns,
                rest[i].rows,
            );
        assert(panes[i + 1] == rest[i]);
    } else {
        assert(!known.contains(panes[0].pane_id));
        assert(all[0] == (panes[0].columns, panes[0].rows));
    }
}

/// A listed pane is shown as it was listed, with its own terminal; of all shown
/// panes the selected one alone is marked.
pub proof fn law_a_listed_pane_is_shown_as_listed(
    panes: Seq<PaneInfo>,
    windows: Seq<WindowInfo>,
    mapping: Map<u64, u64>,
    selected: u64,
    i: int,
)
    requires
        0 <= i < panes.len(),
    ensures
        ({
            let shown = sync::shown_panes(panes, windows, mapping, selected);
            &&& shown.len() == panes.len()
            &&& shown[i].window_id == panes[i].window_id
            &&& shown[i].pane_id == panes[i].pane_id
            &&& shown[i].terminal_id == mapping[panes[i].pane_id]
            &&& shown[i].active == panes[i].active
            &&& shown[i].index == panes[i].index
            &&& (shown[i].columns, shown[i].rows) == (panes[i].columns, panes[i].rows)
            &&& shown[i].pane_name == panes[i].pane_name@
            &&& shown[i].title == panes[i].title@
            &&& shown[i].selected <==> panes[i].pane_id == selected
        }),
{
}

/// A pane carries the name of its window.
pub proof fn law_a_pane_carries_its_windows_name(windows: Seq<WindowInfo>, k: int)
    requires
        0 <= k < windows.len(),
        forall|j: int|
            0 <= j < windows.len() && j != k ==> (#[trigger] windows[j]).window_id
                != windows[k].window_id,
    ensures
        sync::window_name(windows, windows[k].window_id) == windows[k].name@,
    decreases windows.len(),
{
    if k < windows.len() - 1 {
        let front = windows.drop_last();
        assert(front[k] == windows[k]);
        assert(windows[windows.len() - 1].window_id != windows[k].window_id);
        assert forall|j: int| 0 <= j < front.len() && j != k implies (
        #[trigger] front[j]).window_id != front[k].window_id by {
            assert(front[j] == windows[j]);
        }
        law_a_pane_carries_its_windows_name(front, k);
    }
}

/// A synchronization keeps the requested pane as long as it is listed.  When it
/// is gone, the pane that is active in the desktop's active window steps in,
/// where there is one, and some listed pane in any case.
pub proof fn law_a_synchronization_selects_a_listed_pane(
    panes: Seq<PaneInfo>,
    requested: Option<u64>,
    i: int,
)
    requires
        panes.len() > 0,
        0 <= i < panes.len(),
    ensures
        requested == Some(panes[i].pane_id) ==> selection::sync_selection(panes, requested, false)
            == Ok::<u64, crate::ssh::flow::FlowFailure>(panes[i].pane_id),
        selection::sync_selection(panes, requested, false) matches Ok(id) && selection::lists(
            panes,
            id,
        ),
        (requested is None || !selection::lists(panes, requested->0)) && panes[i].active
            && panes[i].window_active && (forall|j: int|
            0 <= j < i ==> !((#[trigger] panes[j]).active && panes[j].window_active))
            ==> selection::sync_selection(panes, requested, false) == Ok::<
            u64,
            crate::ssh::flow::FlowFailure,
        >(panes[i].pane_id),
{
    assert(selection::lists(panes, panes[i].pane_id));
    assert(selection::lists(panes, panes[0].pane_id));
    lemma_first_active(panes);
    if panes[i].active && panes[i].window_active && (forall|j: int|
        0 <= j < i ==> !((#[trigger] panes[j]).active && panes[j].window_active)) {
        lemma_first_active_at(panes, i);
    }
}

proof fn lemma_first_active(panes: Seq<PaneInfo>)
    ensures
        selection::first_active(panes) matches Some(id) ==> selection::lists(panes, id),
    decreases panes.len(),
{
    if panes.len() > 0 {
        if panes[0].active && panes[0].window_active {
            assert(selection::lists(panes, panes[0].pane_id));
        } else {
            let rest = panes.skip(1);
            lemma_first_active(rest);
            if selection::first_active(rest) is Some {
                let id = selection::first_active(rest)->0;
                let i = choose|i: int| 0 <= i < rest.len() && (#[trigger] rest[i]).pane_id == id;
                assert(panes[i + 1].pane_id == id);
            }
        }
    }
}

proof fn lemma_first_active_at(panes: Seq<PaneInfo>, i: int)
    requires
        0 <= i < panes.len(),
        panes[i].active,
        panes[i].window_active,
        forall|j: int| 0 <= j < i ==> !((#[trigger] panes[j]).active && panes[j].window_active),
    ensures
        selection::first_active(panes) == Some(panes[i].pane_id),
    decreases panes.len(),
{
    if i > 0 {
        let rest = panes.skip(1);
        assert(rest[i - 1] == panes[i]);
        assert(!(panes[0].active && panes[0].window_active));
        assert forall|j: int| 0 <= j < i - 1 implies !((#[trigger] rest[j]).active
            && rest[j].window_active) by {
            assert(rest[j] == panes[j + 1]);
        }
        lemma_first_active_at(rest, i - 1);
    }
}

/// A plan captures every listed pane that is new to the client or whose width
/// or height changed since it was shown, and in the final readback of a
/// recovery all of them.
pub proof fn law_a_plan_captures_what_changed(
    plan: SyncPlan,
    flow: SyncFlow,
    staged: bool,
    listing: (Seq<WindowInfoView>, Seq<PaneInfoView>),
    shared: SessionState,
    own: Map<u64, u64>,
    routed: Set<u64>,
    i: int,
    k: int,
)
    requires
        plan::plans(plan, flow, staged, listing, shared, own, routed),
        0 <= i < plan.panes@.len(),
    ensures
        !routed.contains(plan.panes@[i].pane_id) ==> plan.captures@.contains(
            plan.panes@[i].pane_id,
        ),
        flow.strict_final ==> plan.captures@.contains(plan.panes@[i].pane_id),
        shown_once(shared.snapshot.panes@, plan.panes@[i].pane_id, k) ==> {
            &&& shared.snapshot.panes@[k].columns != plan.panes@[i].columns
                ==> plan.captures@.contains(plan.panes@[i].pane_id)
            &&& shared.snapshot.panes@[k].rows != plan.panes@[i].rows
                ==> plan.captures@.contains(plan.panes@[i].pane_id)
        },
{
    let panes = plan.panes@;
    let old = shared.snapshot.panes@;
    if flow.strict_final || !routed.contains(panes[i].pane_id) {
        law_a_new_pane_is_captured(panes, routed, flow.strict, flow.strict_final, old, i);
    }
    if shown_once(old, panes[i].pane_id, k) {
        law_a_resized_pane_is_captured(panes, routed, flow.strict, flow.strict_final, old, i, k);
    }
}

/// A plan keeps the requested pane, shows a listed one in any case, and retires
/// exactly the panes that have a terminal and are no longer listed.
pub proof fn law_a_plan_selects_and_retires(
    plan: SyncPlan,
    flow: SyncFlow,
    staged: bool,
    listing: (Seq<WindowInfoView>, Seq<PaneInfoView>),
    shared: SessionState,
    own: Map<u64, u64>,
    routed: Set<u64>,
    i: int,
    id: u64,
)
    requires
        plan::plans(plan, flow, staged, listing, shared, own, routed),
        0 <= i < plan.panes@.len(),
        !flow.strict,
    ensures
        shared.selected_pane == Some(plan.panes@[i].pane_id) ==> plan.selected
            == plan.panes@[i].pane_id,
        exists|j: int| 0 <= j < plan.panes@.len() && (#[trigger] plan.panes@[j]).pane_id
            == plan.selected,
        plan.stale@.contains(id) <==> shared.pane_terminals@.contains_key(id) && forall|j: int|
            0 <= j < plan.panes@.len() ==> (#[trigger] plan.panes@[j]).pane_id != id,
{
    law_a_synchronization_selects_a_listed_pane(plan.panes@, shared.selected_pane, i);
}

/// A recovery plans nothing where the pane that was selected is gone; any
/// other pass plans whatever could be read.
pub proof fn law_a_recovery_needs_its_pane(
    windows: Seq<WindowInfoView>,
    panes: Seq<PaneInfoView>,
    requested: u64,
    e: FlowFailure,
    strict: bool,
)
    ensures
        plan::unplannable(Ok((windows, panes)), Some(requested), false) is None,
        plan::unplannable(Ok((windows, panes)), None, true) == Some(
            FlowFailure::TmuxRuntimeMissing,
        ),
        (forall|i: int| 0 <= i < panes.len() ==> (#[trigger] panes[i]).pane_id != requested)
            ==> plan::unplannable(Ok((windows, panes)), Some(requested), true) == Some(
            FlowFailure::TmuxRuntimeMissing,
        ),
        (exists|i: int| 0 <= i < panes.len() && (#[trigger] panes[i]).pane_id == requested)
            ==> plan::unplannable(Ok((windows, panes)), Some(requested), true) is None,
        plan::unplannable(Err(e), Some(requested), strict) == Some(e),
{
}

/// A recovery goes on with the terminals that it has staged; every other pass
/// begins with those that are shown.
pub proof fn law_staged_terminals_are_gone_on_with(own: Map<u64, u64>, shared: Map<u64, u64>)
    ensures
        plan::known_terminals(true, true, own, shared) == own,
        plan::known_terminals(true, false, own, shared) == shared,
        plan::known_terminals(false, true, own, shared) == shared,
        plan::known_terminals(false, false, own, shared) == shared,
{
}

} // verus!
