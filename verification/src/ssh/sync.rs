//! Synchronizing the known topology with the remote one.

use std::collections::{HashMap, HashSet};
use vstd::prelude::*;

use crate::tmux::snapshot;
use crate::ssh::topology;
use crate::ssh::selection;
use crate::bytes;
use crate::ssh::flow::{FlowFailure, ZoomCleanupOutcome};
use crate::maps::keys_of;
use crate::ssh::cleanup::ZoomRecord;
use crate::ssh::selection::PendingZoomCleanup;
use crate::ssh::topology::{parse_panes, parse_windows};
use crate::tmux::decoder::CommandBlock;
use crate::tmux::records::{PaneInfo, PaneInfoView, WindowInfo, WindowInfoView};
use crate::tmux::snapshot::{PaneSnapshot, PaneSnapshotView};

verus! {

broadcast use vstd::std_specs::hash::group_hash_axioms;

/// The most panes that a session may have.
pub const MAX_PANES: usize = 4096;

/// The windows and panes of a listing: the first block of each reply, every
/// line readable, at least one pane and not too many.
pub open spec fn listing(windows: Seq<CommandBlock>, panes: Seq<CommandBlock>) -> Result<
    (Seq<WindowInfoView>, Seq<PaneInfoView>),
    FlowFailure,
> {
    if windows.len() == 0 || panes.len() == 0 {
        Err(FlowFailure::TmuxProtocol)
    } else {
        match (topology::window_lines(bytes::views(windows[0].lines@)), topology::pane_lines(bytes::views(panes[0].lines@))) {
            (Ok(w), Ok(p)) => if p.len() == 0 || p.len() > MAX_PANES {
                Err(FlowFailure::TmuxProtocol)
            } else {
                Ok((w, p))
            },
            _ => Err(FlowFailure::TmuxProtocol),
        }
    }
}

proof fn lemma_window_lines_error(lines: Seq<Seq<u8>>)
    ensures
        topology::window_lines(lines) matches Err(e) ==> e == FlowFailure::TmuxProtocol,
    decreases lines.len(),
{
    if lines.len() > 0 {
        lemma_window_lines_error(lines.drop_last());
    }
}

proof fn lemma_pane_lines_error(lines: Seq<Seq<u8>>)
    ensures
        topology::pane_lines(lines) matches Err(e) ==> e == FlowFailure::TmuxProtocol,
    decreases lines.len(),
{
    if lines.len() > 0 {
        lemma_pane_lines_error(lines.drop_last());
    }
}

pub fn read_listing(windows: &Vec<CommandBlock>, panes: &Vec<CommandBlock>) -> (r: Result<
    (Vec<WindowInfo>, Vec<PaneInfo>),
    FlowFailure,
>)
    ensures
        match r {
            Ok(pair) => listing(windows@, panes@) == Ok::<
                (Seq<WindowInfoView>, Seq<PaneInfoView>),
                FlowFailure,
            >((topology::window_info_views(pair.0@), topology::pane_info_views(pair.1@))),
            Err(e) => listing(windows@, panes@) == Err::<
                (Seq<WindowInfoView>, Seq<PaneInfoView>),
                FlowFailure,
            >(e),
        },
{
    if windows.len() == 0 || panes.len() == 0 {
        return Err(FlowFailure::TmuxProtocol);
    }
    proof {
        lemma_window_lines_error(bytes::views(windows@[0].lines@));
        lemma_pane_lines_error(bytes::views(panes@[0].lines@));
    }
    let w = match parse_windows(&windows[0].lines) {
        Ok(w) => w,
        Err(e) => {
            return Err(e);
        },
    };
    let p = match parse_panes(&panes[0].lines) {
        Ok(p) => p,
        Err(e) => {
            return Err(e);
        },
    };
    if p.len() == 0 || p.len() > MAX_PANES {
        return Err(FlowFailure::TmuxProtocol);
    }
    Ok((w, p))
}

/// The sizes of the terminals that must be created, in the order of the
/// panes that need them.  A pane that is known keeps its terminal, and the
/// first pane of a session that showed nothing yet takes the owner's.
pub open spec fn terminals_needed(
    panes: Seq<PaneInfo>,
    known: Set<u64>,
    nothing_shown: bool,
) -> Seq<(u16, u16)>
    decreases panes.len(),
{
    if panes.len() == 0 {
        seq![]
    } else {
        let p = panes[0];
        let rest = panes.skip(1);
        if known.contains(p.pane_id) {
            terminals_needed(rest, known, nothing_shown)
        } else if nothing_shown && known.is_empty() {
            terminals_needed(rest, known.insert(p.pane_id), nothing_shown)
        } else {
            seq![(p.columns, p.rows)] + terminals_needed(
                rest,
                known.insert(p.pane_id),
                nothing_shown,
            )
        }
    }
}

/// The terminal of each pane, once the created ones are known.
pub open spec fn terminals_assigned(
    panes: Seq<PaneInfo>,
    mapping: Map<u64, u64>,
    nothing_shown: bool,
    owner: u64,
    fresh: Seq<u64>,
) -> Map<u64, u64>
    decreases panes.len(),
{
    if panes.len() == 0 {
        mapping
    } else {
        let id = panes[0].pane_id;
        let rest = panes.skip(1);
        if mapping.contains_key(id) {
            terminals_assigned(rest, mapping, nothing_shown, owner, fresh)
        } else if nothing_shown && mapping.dom().is_empty() {
            terminals_assigned(rest, mapping.insert(id, owner), nothing_shown, owner, fresh)
        } else {
            terminals_assigned(
                rest,
                mapping.insert(id, fresh[0]),
                nothing_shown,
                owner,
                fresh.skip(1),
            )
        }
    }
}

fn holds(values: &Vec<u64>, value: u64) -> (r: bool)
    ensures
        r == values@.contains(value),
{
    let mut i: usize = 0;
    while i < values.len()
        invariant
            i <= values@.len(),
            forall|j: int| 0 <= j < i ==> #[trigger] values@[j] != value,
        decreases values@.len() - i,
    {
        if values[i] == value {
            return true;
        }
        i = i + 1;
    }
    false
}

/// Which terminals have to be created for a listing.
pub fn needed_terminals(
    panes: &Vec<PaneInfo>,
    mapping: &HashMap<u64, u64>,
    nothing_shown: bool,
) -> (r: Vec<(u16, u16)>)
    ensures
        r@ == terminals_needed(panes@, mapping@.dom(), nothing_shown),
{
    let mut out: Vec<(u16, u16)> = Vec::new();
    let mut added: Vec<u64> = Vec::new();
    let none_known = mapping.is_empty();
    let ghost mut known = mapping@.dom();
    let mut i: usize = 0;
    assert(panes@.skip(0) == panes@);
    assert(mapping@.is_empty() == mapping@.dom().is_empty());
    while i < panes.len()
        invariant
            i <= panes@.len(),
            none_known == mapping@.dom().is_empty(),
            known =~= mapping@.dom().union(added@.to_set()),
            out@ + terminals_needed(panes@.skip(i as int), known, nothing_shown)
                == terminals_needed(panes@, mapping@.dom(), nothing_shown),
        decreases panes@.len() - i,
    {
        let ghost rest = panes@.skip(i as int);
        assert(rest.skip(1) == panes@.skip(i + 1));
        let id: u64 = panes[i].pane_id;
        let seen = mapping.contains_key(&id) || holds(&added, id);
        assert(seen == known.contains(id)) by {
            assert(added@.to_set().contains(id) == added@.contains(id));
        }
        if !seen {
            let first = nothing_shown && none_known && added.is_empty();
            assert((none_known && added@.len() == 0) == known.is_empty()) by {
                if added@.len() > 0 {
                    assert(added@.to_set().contains(added@[0]));
                    assert(known.contains(added@[0]));
                }
                if !none_known {
                    let k = choose|k: u64| mapping@.dom().contains(k);
                    assert(known.contains(k));
                }
            }
            let ghost before = added@;
            added.push(id);
            proof {
                assert(added@.to_set() =~= before.to_set().insert(id)) by {
                    assert forall|x: u64| added@.to_set().contains(x) == before.to_set().insert(
                        id,
                    ).contains(x) by {
                        if before.contains(x) {
                            let k = choose|k: int| 0 <= k < before.len() && before[k] == x;
                            assert(added@[k] == x);
                        }
                        if x == id {
                            assert(added@[before.len() as int] == x);
                        }
                    }
                }
                known = known.insert(id);
            }
            if !first {
                let ghost start = out@;
                out.push((panes[i].columns, panes[i].rows));
                assert(start + (seq![(panes@[i as int].columns, panes@[i as int].rows)]
                    + terminals_needed(rest.skip(1), known, nothing_shown)) =~= out@
                    + terminals_needed(rest.skip(1), known, nothing_shown));
            }
        }
        i = i + 1;
    }
    assert(panes@.skip(i as int).len() == 0);
    assert(out@ + Seq::<(u16, u16)>::empty() == out@);
    out
}

/// Gives every listed pane its terminal.
pub fn assign_terminals(
    panes: &Vec<PaneInfo>,
    mapping: &mut HashMap<u64, u64>,
    nothing_shown: bool,
    owner: u64,
    fresh: &Vec<u64>,
)
    requires
        fresh@.len() == terminals_needed(panes@, old(mapping)@.dom(), nothing_shown).len(),
    ensures
        final(mapping)@ == terminals_assigned(
            panes@,
            old(mapping)@,
            nothing_shown,
            owner,
            fresh@,
        ),
{
    let mut used: usize = 0;
    let mut i: usize = 0;
    let count: usize = fresh.len();
    assert(panes@.skip(0) == panes@);
    assert(fresh@.skip(0) == fresh@);
    while i < panes.len()
        invariant
            i <= panes@.len(),
            used <= count == fresh@.len(),
            fresh@.len() - used == terminals_needed(
                panes@.skip(i as int),
                mapping@.dom(),
                nothing_shown,
            ).len(),
            terminals_assigned(
                panes@.skip(i as int),
                mapping@,
                nothing_shown,
                owner,
                fresh@.skip(used as int),
            ) == terminals_assigned(panes@, old(mapping)@, nothing_shown, owner, fresh@),
        decreases panes@.len() - i,
    {
        let ghost rest = panes@.skip(i as int);
        assert(rest.skip(1) == panes@.skip(i + 1));
        let id: u64 = panes[i].pane_id;
        assert(mapping@.is_empty() == mapping@.dom().is_empty());
        if !mapping.contains_key(&id) {
            if nothing_shown && mapping.is_empty() {
                let ghost dom = mapping@.dom();
                mapping.insert(id, owner);
                assert(mapping@.dom() =~= dom.insert(id));
            } else {
                let ghost dom = mapping@.dom();
                assert(terminals_needed(rest, dom, nothing_shown).len() > 0);
                assert(fresh@.skip(used as int)[0] == fresh@[used as int]);
                assert(fresh@.skip(used as int).skip(1) == fresh@.skip(used + 1));
                mapping.insert(id, fresh[used]);
                assert(mapping@.dom() =~= dom.insert(id));
                used = used + 1;
            }
        }
        i = i + 1;
    }
    assert(panes@.skip(i as int).len() == 0);
}

/// Every listed pane has a terminal, and a pane that had one keeps it.
pub proof fn law_every_pane_gets_a_terminal(
    panes: Seq<PaneInfo>,
    mapping: Map<u64, u64>,
    nothing_shown: bool,
    owner: u64,
    fresh: Seq<u64>,
)
    ensures
        ({
            let after = terminals_assigned(panes, mapping, nothing_shown, owner, fresh);
            &&& forall|i: int|
                0 <= i < panes.len() ==> after.contains_key((#[trigger] panes[i]).pane_id)
            &&& forall|k: u64| #[trigger]
                mapping.contains_key(k) ==> after.contains_key(k) && after[k] == mapping[k]
        }),
    decreases panes.len(),
{
    if panes.len() > 0 {
        let id = panes[0].pane_id;
        let rest = panes.skip(1);
        let (next, more) = if mapping.contains_key(id) {
            (mapping, fresh)
        } else if nothing_shown && mapping.dom().is_empty() {
            (mapping.insert(id, owner), fresh)
        } else {
            (mapping.insert(id, fresh[0]), fresh.skip(1))
        };
        law_every_pane_gets_a_terminal(rest, next, nothing_shown, owner, more);
        let after = terminals_assigned(panes, mapping, nothing_shown, owner, fresh);
        assert forall|i: int| 0 <= i < panes.len() implies after.contains_key(
            (#[trigger] panes[i]).pane_id,
        ) by {
            if i == 0 {
                assert(next.contains_key(id));
            } else {
                assert(rest[i - 1] == panes[i]);
            }
        }
        assert forall|k: u64| #[trigger] mapping.contains_key(k) implies after.contains_key(k)
            && after[k] == mapping[k] by {
            assert(next.contains_key(k));
        }
    }
}

/// The first pane with this id in an earlier snapshot has another size.
pub open spec fn resized(old: Seq<PaneSnapshot>, pane: PaneInfo) -> bool
    decreases old.len(),
{
    if old.len() == 0 {
        false
    } else if old[0].pane_id == pane.pane_id {
        old[0].columns != pane.columns || old[0].rows != pane.rows
    } else {
        resized(old.skip(1), pane)
    }
}

fn is_resized(old: &Vec<PaneSnapshot>, pane: &PaneInfo) -> (r: bool)
    ensures
        r == resized(old@, *pane),
{
    let mut i: usize = 0;
    assert(old@.skip(0) == old@);
    while i < old.len()
        invariant
            i <= old@.len(),
            resized(old@.skip(i as int), *pane) == resized(old@, *pane),
        decreases old@.len() - i,
    {
        assert(old@.skip(i as int).skip(1) == old@.skip(i + 1));
        if old[i].pane_id == pane.pane_id {
            return old[i].columns != pane.columns || old[i].rows != pane.rows;
        }
        i = i + 1;
    }
    assert(old@.skip(i as int).len() == 0);
    false
}

/// The panes that must be captured: those without a route, all of them in a
/// strict recovery's final readback, and those whose size changed.  A
/// synchronization that is not strict gives each pane its route.
pub open spec fn captures_needed(
    panes: Seq<PaneInfo>,
    routed: Set<u64>,
    strict: bool,
    strict_final: bool,
    old: Seq<PaneSnapshot>,
) -> Seq<u64>
    decreases panes.len(),
{
    if panes.len() == 0 {
        seq![]
    } else {
        let p = panes[0];
        let next = if strict {
            routed
        } else {
            routed.insert(p.pane_id)
        };
        let rest = captures_needed(panes.skip(1), next, strict, strict_final, old);
        if !routed.contains(p.pane_id) || strict_final || resized(old, p) {
            seq![p.pane_id] + rest
        } else {
            rest
        }
    }
}

/// The positions of the panes that need a route.
pub open spec fn routes_needed(panes: Seq<PaneInfo>, routed: Set<u64>, from: int) -> Seq<int>
    decreases panes.len() - from,
{
    if from < 0 || from >= panes.len() {
        seq![]
    } else if routed.contains(panes[from].pane_id) {
        routes_needed(panes, routed, from + 1)
    } else {
        seq![from] + routes_needed(panes, routed.insert(panes[from].pane_id), from + 1)
    }
}

pub fn needed_captures(
    panes: &Vec<PaneInfo>,
    routed: &HashSet<u64>,
    strict: bool,
    strict_final: bool,
    old: &Vec<PaneSnapshot>,
) -> (r: Vec<u64>)
    ensures
        r@ == captures_needed(panes@, routed@, strict, strict_final, old@),
{
    let mut out: Vec<u64> = Vec::new();
    let mut added: Vec<u64> = Vec::new();
    let ghost mut known = routed@;
    let mut i: usize = 0;
    assert(panes@.skip(0) == panes@);
    assert(added@.to_set() =~= Set::<u64>::empty());
    while i < panes.len()
        invariant
            i <= panes@.len(),
            known =~= routed@.union(added@.to_set()),
            out@ + captures_needed(panes@.skip(i as int), known, strict, strict_final, old@)
                == captures_needed(panes@, routed@, strict, strict_final, old@),
        decreases panes@.len() - i,
    {
        let ghost rest = panes@.skip(i as int);
        assert(rest.skip(1) == panes@.skip(i + 1));
        let id: u64 = panes[i].pane_id;
        let has_route = routed.contains(&id) || holds(&added, id);
        assert(has_route == known.contains(id)) by {
            assert(added@.to_set().contains(id) == added@.contains(id));
        }
        let ghost next = if strict {
            known
        } else {
            known.insert(id)
        };
        if !has_route || strict_final || is_resized(old, &panes[i]) {
            let ghost start = out@;
            out.push(id);
            assert(start + (seq![id] + captures_needed(
                rest.skip(1),
                next,
                strict,
                strict_final,
                old@,
            )) =~= out@ + captures_needed(rest.skip(1), next, strict, strict_final, old@));
        }
        if !strict {
            let ghost before = added@;
            added.push(id);
            assert(added@.to_set() =~= before.to_set().insert(id)) by {
                assert forall|x: u64| added@.to_set().contains(x) == before.to_set().insert(
                    id,
                ).contains(x) by {
                    if before.contains(x) {
                        let k = choose|k: int| 0 <= k < before.len() && before[k] == x;
                        assert(added@[k] == x);
                    }
                    if x == id {
                        assert(added@[before.len() as int] == x);
                    }
                }
            }
        }
        proof {
            known = next;
        }
        i = i + 1;
    }
    assert(panes@.skip(i as int).len() == 0);
    assert(out@ + Seq::<u64>::empty() == out@);
    out
}

/// The positions of the panes that need a route, as numbers.
pub open spec fn positions(v: Seq<usize>) -> Seq<int> {
    Seq::new(v.len(), |i: int| v[i] as int)
}

pub fn needed_routes(panes: &Vec<PaneInfo>, routed: &HashSet<u64>) -> (r: Vec<usize>)
    ensures
        positions(r@) == routes_needed(panes@, routed@, 0),
{
    let mut out: Vec<usize> = Vec::new();
    let mut added: Vec<u64> = Vec::new();
    let ghost mut known = routed@;
    let mut i: usize = 0;
    assert(added@.to_set() =~= Set::<u64>::empty());
    assert(positions(out@) =~= Seq::<int>::empty());
    assert(positions(out@) + routes_needed(panes@, known, 0) =~= routes_needed(
        panes@,
        routed@,
        0,
    ));
    while i < panes.len()
        invariant
            i <= panes@.len(),
            known =~= routed@.union(added@.to_set()),
            positions(out@) + routes_needed(panes@, known, i as int) == routes_needed(
                panes@,
                routed@,
                0,
            ),
        decreases panes@.len() - i,
    {
        let id: u64 = panes[i].pane_id;
        let has_route = routed.contains(&id) || holds(&added, id);
        assert(has_route == known.contains(id)) by {
            assert(added@.to_set().contains(id) == added@.contains(id));
        }
        if !has_route {
            let ghost before = added@;
            let ghost start = out@;
            added.push(id);
            out.push(i);
            proof {
                assert(added@.to_set() =~= before.to_set().insert(id)) by {
                    assert forall|x: u64| added@.to_set().contains(x) == before.to_set().insert(
                        id,
                    ).contains(x) by {
                        if before.contains(x) {
                            let k = choose|k: int| 0 <= k < before.len() && before[k] == x;
                            assert(added@[k] == x);
                        }
                        if x == id {
                            assert(added@[before.len() as int] == x);
                        }
                    }
                }
                assert(positions(out@) =~= positions(start).push(i as int));
                assert(positions(start) + (seq![i as int] + routes_needed(
                    panes@,
                    known.insert(id),
                    i + 1,
                )) =~= positions(out@) + routes_needed(panes@, known.insert(id), i + 1));
                known = known.insert(id);
            }
        }
        i = i + 1;
    }
    assert(positions(out@) + Seq::<int>::empty() =~= positions(out@));
    out
}

/// The panes with a terminal that a listing does not name.  They come in no
/// particular order.
pub fn stale_panes(mapping: &HashMap<u64, u64>, panes: &Vec<PaneInfo>) -> (r: Vec<u64>)
    ensures
        r@.no_duplicates(),
        forall|id: u64| #[trigger]
            r@.contains(id) <==> mapping@.contains_key(id) && !crate::ssh::selection::lists(
                panes@,
                id,
            ),
{
    let keys = keys_of(mapping);
    let mut out: Vec<u64> = Vec::new();
    let mut i: usize = 0;
    while i < keys.len()
        invariant
            i <= keys@.len(),
            keys@.no_duplicates(),
            out@.no_duplicates(),
            forall|id: u64| #[trigger]
                out@.contains(id) <==> !selection::lists(panes@, id) && keys@.take(
                    i as int,
                ).contains(id),
        decreases keys@.len() - i,
    {
        let id: u64 = keys[i];
        let ghost front = keys@.take(i as int);
        let ghost before = out@;
        assert(keys@.take(i + 1) == front.push(id));
        broadcast use vstd::seq_lib::group_seq_properties;

        assert(!front.contains(id)) by {
            if front.contains(id) {
                let k = choose|k: int| 0 <= k < front.len() && front[k] == id;
                assert(keys@[k] == keys@[i as int]);
            }
        }
        if !crate::ssh::selection::pane_listed(panes.as_slice(), id) {
            assert(!before.contains(id));
            out.push(id);
        }
        i = i + 1;
    }
    assert(keys@.take(i as int) == keys@);
    out
}

/// The name of the last window with this id, or nothing.
pub open spec fn window_name(windows: Seq<WindowInfo>, id: u64) -> Seq<char>
    decreases windows.len(),
{
    if windows.len() == 0 {
        seq![]
    } else if windows.last().window_id == id {
        windows.last().name@
    } else {
        window_name(windows.drop_last(), id)
    }
}

/// A listed pane as it is shown.
pub open spec fn shown_pane(
    pane: PaneInfo,
    windows: Seq<WindowInfo>,
    mapping: Map<u64, u64>,
    selected: u64,
) -> PaneSnapshotView {
    PaneSnapshotView {
        window_id: pane.window_id,
        pane_id: pane.pane_id,
        terminal_id: mapping[pane.pane_id],
        window_name: window_name(windows, pane.window_id),
        active: pane.active,
        selected: pane.pane_id == selected,
        index: pane.index,
        columns: pane.columns,
        rows: pane.rows,
        pane_name: pane.pane_name@,
        title: pane.title@,
    }
}

/// The listed panes as they are shown, in their order.
pub open spec fn shown_panes(
    panes: Seq<PaneInfo>,
    windows: Seq<WindowInfo>,
    mapping: Map<u64, u64>,
    selected: u64,
) -> Seq<PaneSnapshotView> {
    Seq::new(panes.len(), |i: int| shown_pane(panes[i], windows, mapping, selected))
}

fn name_of(windows: &Vec<WindowInfo>, id: u64) -> (r: String)
    ensures
        r@ == window_name(windows@, id),
{
    let mut n: usize = windows.len();
    assert(windows@.take(n as int) == windows@);
    while n > 0
        invariant
            n <= windows@.len(),
            window_name(windows@.take(n as int), id) == window_name(windows@, id),
        decreases n,
    {
        assert(windows@.take(n as int).drop_last() == windows@.take(n - 1));
        n = n - 1;
        if windows[n].window_id == id {
            return windows[n].name.clone();
        }
    }
    assert(windows@.take(n as int).len() == 0);
    String::new()
}

pub fn flat_snapshot(
    windows: &Vec<WindowInfo>,
    panes: &Vec<PaneInfo>,
    mapping: &HashMap<u64, u64>,
    selected: u64,
) -> (r: Vec<PaneSnapshot>)
    requires
        forall|i: int|
            0 <= i < panes@.len() ==> mapping@.contains_key((#[trigger] panes@[i]).pane_id),
    ensures
        snapshot::pane_views(r@) == shown_panes(panes@, windows@, mapping@, selected),
{
    let mut out: Vec<PaneSnapshot> = Vec::new();
    let mut i: usize = 0;
    while i < panes.len()
        invariant
            i <= panes@.len(),
            out@.len() == i,
            forall|j: int|
                0 <= j < panes@.len() ==> mapping@.contains_key((#[trigger] panes@[j]).pane_id),
            forall|j: int|
                0 <= j < i ==> (#[trigger] out@[j])@ == shown_pane(
                    panes@[j],
                    windows@,
                    mapping@,
                    selected,
                ),
        decreases panes@.len() - i,
    {
        let pane = &panes[i];
        assert(mapping@.contains_key(panes@[i as int].pane_id));
        let terminal_id: u64 = match mapping.get(&pane.pane_id) {
            Some(id) => *id,
            None => 0,
        };
        out.push(
            PaneSnapshot {
                window_id: pane.window_id,
                pane_id: pane.pane_id,
                terminal_id,
                window_name: name_of(windows, pane.window_id),
                active: pane.active,
                selected: pane.pane_id == selected,
                index: pane.index,
                columns: pane.columns,
                rows: pane.rows,
                pane_name: pane.pane_name.clone(),
                title: pane.title.clone(),
            },
        );
        i = i + 1;
    }
    assert(snapshot::pane_views(out@) =~= shown_panes(panes@, windows@, mapping@, selected));
    out
}

/// Takes the terminals of stale panes out of the mapping.
pub fn retire_panes(mapping: &mut HashMap<u64, u64>, stale: &Vec<u64>) -> (r: Vec<u64>)
    requires
        stale@.no_duplicates(),
        forall|i: int| 0 <= i < stale@.len() ==> old(mapping)@.contains_key(#[trigger] stale@[i]),
    ensures
        r@ == Seq::new(stale@.len(), |i: int| old(mapping)@[stale@[i]]),
        final(mapping)@ == old(mapping)@.remove_keys(stale@.to_set()),
{
    let ghost start = mapping@;
    let mut out: Vec<u64> = Vec::new();
    let mut i: usize = 0;
    assert(stale@.take(0).to_set() =~= Set::<u64>::empty());
    assert(mapping@ =~= start.remove_keys(stale@.take(0).to_set()));
    while i < stale.len()
        invariant
            i <= stale@.len(),
            start == old(mapping)@,
            stale@.no_duplicates(),
            forall|j: int| 0 <= j < stale@.len() ==> start.contains_key(#[trigger] stale@[j]),
            mapping@ == start.remove_keys(stale@.take(i as int).to_set()),
            out@ == Seq::new(i as nat, |j: int| start[stale@[j]]),
        decreases stale@.len() - i,
    {
        let id: u64 = stale[i];
        let ghost part = stale@.take(i as int);
        assert(!part.to_set().contains(id)) by {
            if part.contains(id) {
                let j = choose|j: int| 0 <= j < part.len() && part[j] == id;
                assert(stale@[j] == stale@[i as int]);
            }
        }
        assert(mapping@.contains_key(id));
        let native = mapping.remove(&id);
        assert(stale@.take(i + 1).to_set() =~= part.to_set().insert(id)) by {
            let next = stale@.take(i + 1);
            assert(next =~= part.push(id));
            assert forall|x: u64| next.to_set().contains(x) == part.to_set().insert(id).contains(
                x,
            ) by {
                if part.contains(x) {
                    let k = choose|k: int| 0 <= k < part.len() && part[k] == x;
                    assert(next[k] == x);
                }
                if x == id {
                    assert(next[part.len() as int] == x);
                }
            }
        }
        assert(mapping@ =~= start.remove_keys(stale@.take(i + 1).to_set()));
        match native {
            Some(native) => {
                out.push(native);
            },
            None => {},
        }
        i = i + 1;
        assert(out@ =~= Seq::new(i as nat, |j: int| start[stale@[j]]));
    }
    assert(stale@.take(i as int) == stale@);
    out
}

/// Whether an authoritative readback confirms a saved zoom and its hooks.
/// The readback before an initial selection cannot.
pub fn confirms_saved_zoom(
    record: ZoomRecord,
    panes: &Vec<PaneInfo>,
    selected: u64,
    initial: bool,
) -> (r: bool)
    ensures
        r == (!initial && selection::candidate_confirmed(
            PendingZoomCleanup {
                window: record.window,
                pane: record.pane,
                hooks: Some(record.hooks),
            },
            panes@,
            selected,
        )),
{
    !initial && crate::ssh::selection::strict_zoom_candidate_matches(
        PendingZoomCleanup { window: record.window, pane: record.pane, hooks: Some(record.hooks) },
        panes.as_slice(),
        selected,
    )
}

/// What a synchronization waits for.
#[derive(Clone, Copy, Debug, PartialEq, Eq, Structural)]
pub enum SyncPhase {
    Windows,
    Panes,
    Planning,
    Resizing,
    Providing,
    Capturing,
    Selecting,
    Rebinding,
    Releasing,
    StrictCommit,
    Restoring,
    Committing,
    Marking,
    Ended,
}

/// What to do next.
#[derive(Clone, Copy, Debug, PartialEq, Eq, Structural)]
pub enum SyncAction {
    ListWindows,
    ListPanes,
    /// Read the listing and decide on selection, terminals and captures.
    Plan,
    ResizeClient,
    /// Create the missing terminals, and route them unless strict.
    ProvideTerminals,
    /// Capture the pane at this place of the plan.
    Capture(usize),
    Select { publish: bool },
    /// Bind every pane to this generation and route it.
    Rebind,
    /// Release a zoom that the final readback proved unnecessary.
    ReleaseUnneeded,
    /// Decide on the candidate, apply the captures and the topology, and
    /// publish readiness, in one transaction.
    CommitStrict,
    /// One bounded cleanup on the stream that is still verified.
    RestoreThenFail,
    /// Commit the topology; `keep_ownership` for a read before the zoom.
    Commit { keep_ownership: bool },
    /// Mark every transport ready, and the session.
    MarkAll,
    /// Mark the newly routed transports ready.
    MarkNew,
    /// Nothing is shown before the final readback.
    Staged,
    Done,
    Fail(FlowFailure),
}

/// What came back.
#[derive(Clone, Copy, Debug, PartialEq, Eq, Structural)]
pub enum SyncEvent {
    /// The step succeeded; the epoch is still the expected one, or not.
    Succeeded { epoch_current: bool },
    /// The plan is made, and so many panes are to be captured.
    Planned { captures: usize },
    /// The panes are bound; the zoom candidate is unnecessary, or not.
    Rebound { unneeded: bool },
    Released(ZoomCleanupOutcome),
    Failed(FlowFailure),
}

/// A synchronization under way.
#[derive(Clone, Copy, Debug, PartialEq, Eq, Structural)]
pub struct SyncFlow {
    /// The first synchronization of a connection.
    pub initial: bool,
    /// The connection is being recovered.
    pub strict: bool,
    /// This is the recovery's final readback.
    pub strict_final: bool,
    /// The connection has been ready before.
    pub was_ready: bool,
    /// The remote session is gone, or no zoom is left to clean up.
    pub no_cleanup: bool,
    pub phase: SyncPhase,
    pub captures: usize,
    pub captured: usize,
    pub failure: Option<FlowFailure>,
}

pub open spec fn sync_at(f: SyncFlow, phase: SyncPhase) -> SyncFlow {
    SyncFlow { phase, ..f }
}

pub open spec fn sync_fail(f: SyncFlow, e: FlowFailure) -> (SyncFlow, SyncAction) {
    (sync_at(f, SyncPhase::Ended), SyncAction::Fail(e))
}

/// The next capture, or what follows the last one.
pub open spec fn after_captures(f: SyncFlow, epoch_current: bool) -> (SyncFlow, SyncAction) {
    if f.captured < f.captures {
        if epoch_current {
            (sync_at(f, SyncPhase::Capturing), SyncAction::Capture(f.captured))
        } else {
            sync_fail(f, FlowFailure::Stale)
        }
    } else if f.initial {
        (sync_at(f, SyncPhase::Selecting), SyncAction::Select { publish: !f.strict })
    } else {
        tail(f)
    }
}

/// The commit: of a strict recovery's final readback, or of a topology.
pub open spec fn tail(f: SyncFlow) -> (SyncFlow, SyncAction) {
    if f.strict_final {
        (sync_at(f, SyncPhase::Rebinding), SyncAction::Rebind)
    } else {
        (sync_at(f, SyncPhase::Committing), SyncAction::Commit { keep_ownership: f.initial })
    }
}

/// The decision on what came back.
pub open spec fn sync_advanced(f: SyncFlow, event: SyncEvent) -> (SyncFlow, SyncAction) {
    match (f.phase, event) {
        (SyncPhase::StrictCommit, SyncEvent::Failed(e)) => if e == FlowFailure::TmuxRuntimeMissing
            && f.strict && !f.no_cleanup {
            (
                sync_at(SyncFlow { failure: Some(e), ..f }, SyncPhase::Restoring),
                SyncAction::RestoreThenFail,
            )
        } else {
            sync_fail(f, e)
        },
        (SyncPhase::Restoring, _) => sync_fail(
            f,
            match f.failure {
                Some(e) => e,
                None => FlowFailure::Stale,
            },
        ),
        (_, SyncEvent::Failed(e)) => sync_fail(f, e),
        (SyncPhase::Windows, SyncEvent::Succeeded { .. }) => (
            sync_at(f, SyncPhase::Panes),
            SyncAction::ListPanes,
        ),
        (SyncPhase::Panes, SyncEvent::Succeeded { .. }) => (
            sync_at(f, SyncPhase::Planning),
            SyncAction::Plan,
        ),
        (SyncPhase::Planning, SyncEvent::Planned { captures }) => {
            let planned = SyncFlow { captures, captured: 0, ..f };
            if f.initial {
                (sync_at(planned, SyncPhase::Resizing), SyncAction::ResizeClient)
            } else {
                (sync_at(planned, SyncPhase::Providing), SyncAction::ProvideTerminals)
            }
        },
        (SyncPhase::Resizing, SyncEvent::Succeeded { epoch_current }) => if epoch_current {
            (sync_at(f, SyncPhase::Providing), SyncAction::ProvideTerminals)
        } else {
            sync_fail(f, FlowFailure::Stale)
        },
        (SyncPhase::Providing, SyncEvent::Succeeded { epoch_current }) => after_captures(
            f,
            epoch_current,
        ),
        (SyncPhase::Capturing, SyncEvent::Succeeded { epoch_current }) => after_captures(
            SyncFlow {
                captured: if f.captured < f.captures {
                    (f.captured + 1) as usize
                } else {
                    f.captured
                },
                ..f
            },
            epoch_current,
        ),
        (SyncPhase::Selecting, SyncEvent::Succeeded { .. }) => if f.strict {
            (sync_at(f, SyncPhase::Ended), SyncAction::Staged)
        } else {
            tail(f)
        },
        (SyncPhase::Rebinding, SyncEvent::Rebound { unneeded }) => if unneeded {
            (sync_at(f, SyncPhase::Releasing), SyncAction::ReleaseUnneeded)
        } else {
            (sync_at(f, SyncPhase::StrictCommit), SyncAction::CommitStrict)
        },
        (SyncPhase::Releasing, SyncEvent::Released(outcome)) => if outcome
            == ZoomCleanupOutcome::UnconfirmedOrFailed {
            sync_fail(f, FlowFailure::TmuxRuntimeMissing)
        } else {
            (sync_at(f, SyncPhase::StrictCommit), SyncAction::CommitStrict)
        },
        (SyncPhase::StrictCommit, SyncEvent::Succeeded { .. }) => (
            sync_at(f, SyncPhase::Ended),
            SyncAction::Done,
        ),
        (SyncPhase::Committing, SyncEvent::Succeeded { .. }) => if f.initial {
            (sync_at(f, SyncPhase::Ended), SyncAction::Done)
        } else if !f.was_ready || f.strict {
            (sync_at(f, SyncPhase::Marking), SyncAction::MarkAll)
        } else {
            (sync_at(f, SyncPhase::Marking), SyncAction::MarkNew)
        },
        (SyncPhase::Marking, SyncEvent::Succeeded { .. }) => (
            sync_at(f, SyncPhase::Ended),
            SyncAction::Done,
        ),
        _ => sync_fail(f, FlowFailure::TmuxProtocol),
    }
}

fn sync_enter(f: SyncFlow, phase: SyncPhase) -> (r: SyncFlow)
    ensures
        r == sync_at(f, phase),
{
    let mut next = f;
    next.phase = phase;
    next
}

fn sync_end(f: SyncFlow, e: FlowFailure) -> (r: (SyncFlow, SyncAction))
    ensures
        r == sync_fail(f, e),
{
    (sync_enter(f, SyncPhase::Ended), SyncAction::Fail(e))
}

fn sync_tail(f: SyncFlow) -> (r: (SyncFlow, SyncAction))
    ensures
        r == tail(f),
{
    if f.strict_final {
        (sync_enter(f, SyncPhase::Rebinding), SyncAction::Rebind)
    } else {
        (
            sync_enter(f, SyncPhase::Committing),
            SyncAction::Commit { keep_ownership: f.initial },
        )
    }
}

fn sync_captures(f: SyncFlow, epoch_current: bool) -> (r: (SyncFlow, SyncAction))
    ensures
        r == after_captures(f, epoch_current),
{
    if f.captured < f.captures {
        if epoch_current {
            (sync_enter(f, SyncPhase::Capturing), SyncAction::Capture(f.captured))
        } else {
            sync_end(f, FlowFailure::Stale)
        }
    } else if f.initial {
        (sync_enter(f, SyncPhase::Selecting), SyncAction::Select { publish: !f.strict })
    } else {
        sync_tail(f)
    }
}

impl SyncFlow {
    /// Begins a synchronization, where its epoch is current.
    pub fn begin(
        initial: bool,
        strict: bool,
        strict_sync_pending: bool,
        was_ready: bool,
        no_cleanup: bool,
        epoch_current: bool,
    ) -> (r: (Self, SyncAction))
        ensures
            r.0 == (SyncFlow {
                initial,
                strict,
                strict_final: strict && strict_sync_pending && !initial,
                was_ready,
                no_cleanup,
                phase: if epoch_current {
                    SyncPhase::Windows
                } else {
                    SyncPhase::Ended
                },
                captures: 0,
                captured: 0,
                failure: None,
            }),
            r.1 == (if epoch_current {
                SyncAction::ListWindows
            } else {
                SyncAction::Fail(FlowFailure::Stale)
            }),
    {
        let flow = SyncFlow {
            initial,
            strict,
            strict_final: crate::ssh::selection::strict_final_readback_required(
                strict,
                strict_sync_pending,
                initial,
            ),
            was_ready,
            no_cleanup,
            phase: if epoch_current {
                SyncPhase::Windows
            } else {
                SyncPhase::Ended
            },
            captures: 0,
            captured: 0,
            failure: None,
        };
        if epoch_current {
            (flow, SyncAction::ListWindows)
        } else {
            (flow, SyncAction::Fail(FlowFailure::Stale))
        }
    }

    /// Decides on what came back.
    pub fn advance(self, event: SyncEvent) -> (r: (Self, SyncAction))
        ensures
            r == sync_advanced(self, event),
    {
        let f = self;
        match (f.phase, event) {
            (SyncPhase::StrictCommit, SyncEvent::Failed(e)) => {
                if e == FlowFailure::TmuxRuntimeMissing && f.strict && !f.no_cleanup {
                    let mut failed = f;
                    failed.failure = Some(e);
                    (sync_enter(failed, SyncPhase::Restoring), SyncAction::RestoreThenFail)
                } else {
                    sync_end(f, e)
                }
            },
            (SyncPhase::Restoring, _) => match f.failure {
                Some(e) => sync_end(f, e),
                None => sync_end(f, FlowFailure::Stale),
            },
            (_, SyncEvent::Failed(e)) => sync_end(f, e),
            (SyncPhase::Windows, SyncEvent::Succeeded { .. }) => (
                sync_enter(f, SyncPhase::Panes),
                SyncAction::ListPanes,
            ),
            (SyncPhase::Panes, SyncEvent::Succeeded { .. }) => (
                sync_enter(f, SyncPhase::Planning),
                SyncAction::Plan,
            ),
            (SyncPhase::Planning, SyncEvent::Planned { captures }) => {
                let mut planned = f;
                planned.captures = captures;
                planned.captured = 0;
                if f.initial {
                    (sync_enter(planned, SyncPhase::Resizing), SyncAction::ResizeClient)
                } else {
                    (sync_enter(planned, SyncPhase::Providing), SyncAction::ProvideTerminals)
                }
            },
            (SyncPhase::Resizing, SyncEvent::Succeeded { epoch_current }) => if epoch_current {
                (sync_enter(f, SyncPhase::Providing), SyncAction::ProvideTerminals)
            } else {
                sync_end(f, FlowFailure::Stale)
            },
            (SyncPhase::Providing, SyncEvent::Succeeded { epoch_current }) => sync_captures(
                f,
                epoch_current,
            ),
            (SyncPhase::Capturing, SyncEvent::Succeeded { epoch_current }) => {
                let mut more = f;
                if more.captured < more.captures {
                    more.captured = more.captured + 1;
                }
                sync_captures(more, epoch_current)
            },
            (SyncPhase::Selecting, SyncEvent::Succeeded { .. }) => if f.strict {
                (sync_enter(f, SyncPhase::Ended), SyncAction::Staged)
            } else {
                sync_tail(f)
            },
            (SyncPhase::Rebinding, SyncEvent::Rebound { unneeded }) => if unneeded {
                (sync_enter(f, SyncPhase::Releasing), SyncAction::ReleaseUnneeded)
            } else {
                (sync_enter(f, SyncPhase::StrictCommit), SyncAction::CommitStrict)
            },
            (SyncPhase::Releasing, SyncEvent::Released(outcome)) => {
                if outcome == ZoomCleanupOutcome::UnconfirmedOrFailed {
                    sync_end(f, FlowFailure::TmuxRuntimeMissing)
                } else {
                    (sync_enter(f, SyncPhase::StrictCommit), SyncAction::CommitStrict)
                }
            },
            (SyncPhase::StrictCommit, SyncEvent::Succeeded { .. }) => (
                sync_enter(f, SyncPhase::Ended),
                SyncAction::Done,
            ),
            (SyncPhase::Committing, SyncEvent::Succeeded { .. }) => if f.initial {
                (sync_enter(f, SyncPhase::Ended), SyncAction::Done)
            } else if !f.was_ready || f.strict {
                (sync_enter(f, SyncPhase::Marking), SyncAction::MarkAll)
            } else {
                (sync_enter(f, SyncPhase::Marking), SyncAction::MarkNew)
            },
            (SyncPhase::Marking, SyncEvent::Succeeded { .. }) => (
                sync_enter(f, SyncPhase::Ended),
                SyncAction::Done,
            ),
            _ => sync_end(f, FlowFailure::TmuxProtocol),
        }
    }
}

/// Shows or publishes something: commits a topology, or marks readiness.
pub open spec fn publishes(action: SyncAction) -> bool {
    match action {
        SyncAction::Commit { .. } => true,
        SyncAction::CommitStrict => true,
        SyncAction::MarkAll => true,
        SyncAction::MarkNew => true,
        SyncAction::Select { publish } => publish,
        _ => false,
    }
}

/// The first pass of a strict recovery publishes nothing.  It stages what it
/// read, and only the final readback can commit.
pub proof fn law_strict_recovery_stages_first(f: SyncFlow, event: SyncEvent)
    requires
        f.strict,
        f.initial,
        !f.strict_final,
        f.phase != SyncPhase::Committing,
        f.phase != SyncPhase::Marking,
        f.phase != SyncPhase::Rebinding,
        f.phase != SyncPhase::Releasing,
        f.phase != SyncPhase::StrictCommit,
    ensures
        ({
            let (next, action) = sync_advanced(f, event);
            &&& !publishes(action)
            &&& next.strict && next.initial && !next.strict_final
            &&& next.phase != SyncPhase::Committing && next.phase != SyncPhase::Marking
                && next.phase != SyncPhase::Rebinding && next.phase != SyncPhase::Releasing
                && next.phase != SyncPhase::StrictCommit
        }),
{
}

/// A strict recovery's final readback publishes by its one transaction only.
pub proof fn law_strict_recovery_commits_once(f: SyncFlow, event: SyncEvent)
    requires
        f.strict_final,
        !f.initial,
        f.phase != SyncPhase::Committing,
        f.phase != SyncPhase::Marking,
        f.phase != SyncPhase::Selecting,
    ensures
        ({
            let (next, action) = sync_advanced(f, event);
            &&& publishes(action) ==> action == SyncAction::CommitStrict
            &&& next.strict_final && !next.initial
            &&& next.phase != SyncPhase::Committing && next.phase != SyncPhase::Marking
                && next.phase != SyncPhase::Selecting
        }),
{
}

/// How far a synchronization is from its end.
pub open spec fn sync_left(f: SyncFlow) -> nat {
    match f.phase {
        SyncPhase::Windows => u64::MAX as nat + 12,
        SyncPhase::Panes => u64::MAX as nat + 11,
        SyncPhase::Planning => u64::MAX as nat + 10,
        SyncPhase::Resizing => (f.captures - f.captured + 9) as nat,
        SyncPhase::Providing => (f.captures - f.captured + 8) as nat,
        SyncPhase::Capturing => (f.captures - f.captured + 7) as nat,
        SyncPhase::Selecting => 6,
        SyncPhase::Rebinding => 5,
        SyncPhase::Releasing => 4,
        SyncPhase::StrictCommit => 3,
        SyncPhase::Restoring => 1,
        SyncPhase::Committing => 3,
        SyncPhase::Marking => 1,
        SyncPhase::Ended => 0,
    }
}

/// Every synchronization ends, whatever comes back.
pub proof fn law_synchronization_ends(f: SyncFlow, event: SyncEvent)
    requires
        f.phase != SyncPhase::Ended,
        f.captured <= f.captures,
        f.phase == SyncPhase::Capturing ==> f.captured < f.captures,
    ensures
        ({
            let next = sync_advanced(f, event).0;
            &&& sync_left(next) < sync_left(f)
            &&& next.captured <= next.captures
            &&& next.phase == SyncPhase::Capturing ==> next.captured < next.captures
        }),
{
}

/// Marking a batch of transports as ready.
#[derive(Clone, Copy, Debug, PartialEq, Eq, Structural)]
pub struct ReadyBatch {
    pub total: usize,
    /// So many of the batch are marked.
    pub marked: usize,
}

#[derive(Clone, Copy, Debug, PartialEq, Eq, Structural)]
pub enum ReadyAction {
    /// Mark the transport at this place of the batch.
    Mark(usize),
    /// Detach the first transports of the batch again, and give up.
    RollBack(usize),
    Done,
}

impl ReadyBatch {
    /// The next step, once the epoch was read.  A batch that is no longer
    /// current is rolled back.
    pub fn proceed(self, epoch_current: bool) -> (r: ReadyAction)
        ensures
            r == (if !epoch_current {
                ReadyAction::RollBack(self.marked)
            } else if self.marked < self.total {
                ReadyAction::Mark(self.marked)
            } else {
                ReadyAction::Done
            }),
    {
        if !epoch_current {
            ReadyAction::RollBack(self.marked)
        } else if self.marked < self.total {
            ReadyAction::Mark(self.marked)
        } else {
            ReadyAction::Done
        }
    }

    /// A transport was marked, or was revoked meanwhile.  One that was revoked
    /// takes the marks made so far with it.
    pub fn answered(self, accepted: bool) -> (r: Result<ReadyBatch, ReadyAction>)
        requires
            self.marked < self.total,
        ensures
            accepted ==> r == Ok::<ReadyBatch, ReadyAction>(
                ReadyBatch { total: self.total, marked: (self.marked + 1) as usize },
            ),
            !accepted ==> r == Err::<ReadyBatch, ReadyAction>(ReadyAction::RollBack(self.marked)),
    {
        if accepted {
            Ok(ReadyBatch { total: self.total, marked: self.marked + 1 })
        } else {
            Err(ReadyAction::RollBack(self.marked))
        }
    }
}

} // verus!
