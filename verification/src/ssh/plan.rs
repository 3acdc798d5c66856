//! The plan of one synchronization: from a listing and the shared state to what
//! is created, captured, selected, committed and retired.

use std::collections::{HashMap, HashSet};
use vstd::prelude::*;

use crate::maps::{copy_of, without};
use crate::ssh::commit;
use crate::ssh::commit::{apply_strict_commit, commit_topology, CommitGate};
use crate::ssh::flow::FlowFailure;
use crate::ssh::selection;
use crate::ssh::selection::{
    fresh_selection_observation, pane_index, selected_pane_for_sync, strict_zoom_commit_decision,
    PendingZoomCleanup, SelectionObservation,
};
use crate::ssh::state;
use crate::ssh::state::SessionState;
use crate::ssh::sync;
use crate::ssh::sync::{
    assign_terminals, flat_snapshot, needed_captures, needed_routes, needed_terminals,
    read_listing, retire_panes, stale_panes, SyncFlow,
};
use crate::ssh::topology;
use crate::tmux::decoder::CommandBlock;
use crate::tmux::records::{PaneInfo, PaneInfoView, WindowInfo, WindowInfoView};

verus! {

broadcast use vstd::std_specs::hash::group_hash_axioms;

/// What one synchronization is going to do.
pub struct SyncPlan {
    pub windows: Vec<WindowInfo>,
    pub panes: Vec<PaneInfo>,
    pub selected: u64,
    /// The selected pane as the listing shows it, for an initial selection.
    pub observation: Option<SelectionObservation>,
    /// No pane was shown before.
    pub nothing_shown: bool,
    /// The native terminal of each pane.
    pub mapping: HashMap<u64, u64>,
    /// The sizes of the terminals to create, in the order of their panes.
    pub terminals: Vec<(u16, u16)>,
    /// The places of the panes to route.
    pub routes: Vec<usize>,
    /// The panes to capture.
    pub captures: Vec<u64>,
    /// The panes with a terminal that the listing does not name.
    pub stale: Vec<u64>,
}

/// The terminals that a pass begins with.  A strict recovery whose first pass
/// is staged goes on with its own, which nothing shows yet.
pub open spec fn known_terminals(
    strict: bool,
    staged: bool,
    own: Map<u64, u64>,
    shared: Map<u64, u64>,
) -> Map<u64, u64> {
    if strict && staged {
        own
    } else {
        shared
    }
}

/// Some pane of a listing has this id.
pub open spec fn names_pane(panes: Seq<PaneInfoView>, id: u64) -> bool {
    exists|i: int| 0 <= i < panes.len() && (#[trigger] panes[i]).pane_id == id
}

/// The panes with a known terminal that a listing does not name, each once.
pub open spec fn are_stale(stale: Seq<u64>, known: Map<u64, u64>, panes: Seq<PaneInfo>) -> bool {
    &&& stale.no_duplicates()
    &&& forall|id: u64| #[trigger]
        stale.contains(id) <==> known.contains_key(id) && !selection::lists(panes, id)
}

/// Why no plan can be made: the listing is unreadable, or a strict recovery
/// does not find the very pane that was selected.
pub open spec fn unplannable(
    listing: Result<(Seq<WindowInfoView>, Seq<PaneInfoView>), FlowFailure>,
    requested: Option<u64>,
    strict: bool,
) -> Option<FlowFailure> {
    match listing {
        Err(e) => Some(e),
        Ok((_, panes)) => if strict && !(requested is Some && names_pane(panes, requested->0)) {
            Some(FlowFailure::TmuxRuntimeMissing)
        } else {
            None
        },
    }
}

/// The plan for a listing and the shared state.  `staged` says that a strict
/// recovery has staged its first pass, `own` are its terminals, and `routed`
/// the panes with a route.
pub open spec fn plans(
    plan: SyncPlan,
    flow: SyncFlow,
    staged: bool,
    listing: (Seq<WindowInfoView>, Seq<PaneInfoView>),
    shared: SessionState,
    own: Map<u64, u64>,
    routed: Set<u64>,
) -> bool {
    let known = known_terminals(flow.strict, staged, own, shared.pane_terminals@);
    let panes = plan.panes@;
    &&& topology::window_info_views(plan.windows@) == listing.0
    &&& topology::pane_info_views(panes) == listing.1
    &&& selection::sync_selection(panes, shared.selected_pane, flow.strict) == Ok::<
        u64,
        FlowFailure,
    >(plan.selected)
    &&& selection::find_pane(panes, plan.selected) is Some
    &&& plan.observation == (if flow.initial {
        Some(
            selection::observed(
                selection::find_pane(panes, plan.selected)->0,
                panes,
                shared.meeterm_zoomed_window,
            ),
        )
    } else {
        None
    })
    &&& plan.nothing_shown == (shared.snapshot.panes@.len() == 0)
    &&& plan.mapping@ == known
    &&& plan.terminals@ == sync::terminals_needed(panes, known.dom(), plan.nothing_shown)
    &&& sync::positions(plan.routes@) == (if flow.strict {
        Seq::<int>::empty()
    } else {
        sync::routes_needed(panes, routed, 0)
    })
    &&& plan.captures@ == sync::captures_needed(
        panes,
        routed,
        flow.strict,
        flow.strict_final,
        shared.snapshot.panes@,
    )
    &&& are_stale(plan.stale@, known, panes)
}

proof fn lemma_named(panes: Seq<PaneInfo>, id: u64)
    ensures
        names_pane(topology::pane_info_views(panes), id) == selection::lists(panes, id),
{
    let views = topology::pane_info_views(panes);
    if selection::lists(panes, id) {
        let i = choose|i: int| 0 <= i < panes.len() && (#[trigger] panes[i]).pane_id == id;
        assert(views[i].pane_id == id);
    }
    if names_pane(views, id) {
        let i = choose|i: int| 0 <= i < views.len() && (#[trigger] views[i]).pane_id == id;
        assert(panes[i].pane_id == id);
    }
}

proof fn lemma_active_listed(panes: Seq<PaneInfo>)
    ensures
        selection::first_active(panes) matches Some(id) ==> selection::lists(panes, id),
    decreases panes.len(),
{
    if panes.len() > 0 {
        if panes[0].active && panes[0].window_active {
            assert(selection::lists(panes, panes[0].pane_id));
        } else {
            let rest = panes.skip(1);
            lemma_active_listed(rest);
            match selection::first_active(rest) {
                Some(id) => {
                    let i = choose|i: int|
                        0 <= i < rest.len() && (#[trigger] rest[i]).pane_id == id;
                    assert(panes[i + 1].pane_id == id);
                },
                None => {},
            }
        }
    }
}

/// What is selected is listed.
proof fn lemma_selected_listed(panes: Seq<PaneInfo>, requested: Option<u64>, strict: bool)
    requires
        panes.len() > 0,
    ensures
        selection::sync_selection(panes, requested, strict) matches Ok(id) ==> selection::lists(
            panes,
            id,
        ),
{
    lemma_active_listed(panes);
    assert(selection::lists(panes, panes[0].pane_id));
}

/// Plans a synchronization.
pub fn plan_sync(
    flow: SyncFlow,
    staged: bool,
    windows_reply: &Vec<CommandBlock>,
    panes_reply: &Vec<CommandBlock>,
    shared: &SessionState,
    own: &HashMap<u64, u64>,
    routed: &HashSet<u64>,
) -> (r: Result<SyncPlan, FlowFailure>)
    ensures
        match unplannable(
            sync::listing(windows_reply@, panes_reply@),
            shared.selected_pane,
            flow.strict,
        ) {
            Some(e) => r == Err::<SyncPlan, FlowFailure>(e),
            None => r matches Ok(plan) && plans(
                plan,
                flow,
                staged,
                sync::listing(windows_reply@, panes_reply@)->Ok_0,
                *shared,
                own@,
                routed@,
            ),
        },
{
    let (windows, panes) = match read_listing(windows_reply, panes_reply) {
        Ok(pair) => pair,
        Err(e) => {
            return Err(e);
        },
    };
    assert(panes@.len() == topology::pane_info_views(panes@).len());
    proof {
        match shared.selected_pane {
            Some(id) => lemma_named(panes@, id),
            None => {},
        }
        lemma_selected_listed(panes@, shared.selected_pane, flow.strict);
    }
    let selected: u64 = match selected_pane_for_sync(
        panes.as_slice(),
        shared.selected_pane,
        flow.strict,
    ) {
        Ok(selected) => selected,
        Err(e) => {
            return Err(e);
        },
    };
    let observation = match pane_index(panes.as_slice(), selected) {
        Some(at) => if flow.initial {
            Some(
                fresh_selection_observation(
                    &panes[at],
                    panes.as_slice(),
                    shared.meeterm_zoomed_window,
                ),
            )
        } else {
            None
        },
        None => None,
    };
    let mapping = if flow.strict && staged {
        copy_of(own)
    } else {
        copy_of(&shared.pane_terminals)
    };
    let nothing_shown = shared.snapshot.panes.len() == 0;
    let terminals = needed_terminals(&panes, &mapping, nothing_shown);
    let routes = if flow.strict {
        Vec::new()
    } else {
        needed_routes(&panes, routed)
    };
    assert(flow.strict ==> sync::positions(routes@) =~= Seq::<int>::empty());
    let captures = needed_captures(
        &panes,
        routed,
        flow.strict,
        flow.strict_final,
        &shared.snapshot.panes,
    );
    let stale = stale_panes(&mapping, &panes);
    Ok(
        SyncPlan {
            windows,
            panes,
            selected,
            observation,
            nothing_shown,
            mapping,
            terminals,
            routes,
            captures,
            stale,
        },
    )
}

impl SyncPlan {
    /// Every listed pane has its terminal.
    pub open spec fn provided(self) -> bool {
        forall|i: int|
            0 <= i < self.panes@.len() ==> self.mapping@.contains_key(
                (#[trigger] self.panes@[i]).pane_id,
            )
    }

    /// The stale panes still have their terminals, each once.
    pub open spec fn holds_stale(self) -> bool {
        &&& self.stale@.no_duplicates()
        &&& forall|i: int|
            0 <= i < self.stale@.len() ==> self.mapping@.contains_key(#[trigger] self.stale@[i])
    }

    /// The terminals without those of stale panes.
    pub open spec fn kept_terminals(self) -> Map<u64, u64> {
        self.mapping@.remove_keys(self.stale@.to_set())
    }

    /// The panes as they are to be shown.
    pub open spec fn shown(self) -> Seq<crate::tmux::snapshot::PaneSnapshotView> {
        sync::shown_panes(self.panes@, self.windows@, self.mapping@, self.selected)
    }

    /// Gives every listed pane its terminal, once the missing ones are created.
    pub fn provide(&mut self, owner: u64, fresh: &Vec<u64>)
        requires
            fresh@.len() == sync::terminals_needed(
                old(self).panes@,
                old(self).mapping@.dom(),
                old(self).nothing_shown,
            ).len(),
        ensures
            final(self).mapping@ == sync::terminals_assigned(
                old(self).panes@,
                old(self).mapping@,
                old(self).nothing_shown,
                owner,
                fresh@,
            ),
            *final(self) == (SyncPlan { mapping: final(self).mapping, ..*old(self) }),
            final(self).provided(),
            old(self).holds_stale() ==> final(self).holds_stale(),
    {
        proof {
            sync::law_every_pane_gets_a_terminal(
                self.panes@,
                self.mapping@,
                self.nothing_shown,
                owner,
                fresh@,
            );
        }
        assign_terminals(&self.panes, &mut self.mapping, self.nothing_shown, owner, fresh);
    }

    /// The terminals that a commit publishes.
    pub fn kept(&self) -> (r: HashMap<u64, u64>)
        ensures
            r@ == self.kept_terminals(),
    {
        without(&self.mapping, &self.stale)
    }

    /// Whether a strict recovery's zoom turned out to be unnecessary: the
    /// readback shows the very pane, alone in its window.
    pub fn unneeded(&self, candidate: Option<PendingZoomCleanup>) -> (r: bool)
        ensures
            r == (candidate is Some && selection::strict_commit(
                candidate,
                self.panes@,
                self.selected,
            ) == Ok::<Option<PendingZoomCleanup>, FlowFailure>(None)),
    {
        match strict_zoom_commit_decision(candidate, self.panes.as_slice(), self.selected) {
            Ok(None) => candidate.is_some(),
            _ => false,
        }
    }

    /// Commits the topology, unless the state has moved on.
    pub fn commit(&self, state: &mut SessionState, gate: CommitGate, keep_ownership: bool) -> (r:
        Result<(), FlowFailure>)
        requires
            self.provided(),
        ensures
            !commit::current(*old(state), gate) ==> r == Err::<(), FlowFailure>(FlowFailure::Stale)
                && *final(state) == *old(state),
            commit::current(*old(state), gate) ==> {
                &&& r == Ok::<(), FlowFailure>(())
                &&& state::same_lifecycle(*final(state), *old(state))
                &&& final(state).pane_terminals@ == self.kept_terminals()
                &&& final(state).selected_pane == Some(self.selected)
                &&& final(state).snapshot@ == topology::topology_snapshot(
                    self.windows@,
                    self.panes@,
                    self.shown(),
                    self.selected,
                )
                &&& state::zoom_ownership(*final(state)) == (if keep_ownership {
                    state::zoom_ownership(*old(state))
                } else {
                    topology::ownership_after(
                        state::zoom_ownership(*old(state)),
                        self.windows@,
                        self.panes@,
                        self.selected,
                    )
                })
            },
    {
        let flat = flat_snapshot(&self.windows, &self.panes, &self.mapping, self.selected);
        let kept = self.kept();
        commit_topology(
            state,
            gate,
            &kept,
            self.windows.as_slice(),
            self.panes.as_slice(),
            flat.as_slice(),
            self.selected,
            keep_ownership,
        )
    }

    /// Commits the topology of a strict recovery with the zoom that was
    /// allowed.
    pub fn commit_strict(&self, state: &mut SessionState, allowed: Option<PendingZoomCleanup>)
        requires
            self.provided(),
        ensures
            state::same_lifecycle(*final(state), *old(state)),
            final(state).pane_terminals@ == self.kept_terminals(),
            final(state).selected_pane == Some(self.selected),
            final(state).snapshot@ == topology::topology_snapshot(
                self.windows@,
                self.panes@,
                self.shown(),
                self.selected,
            ),
            state::zoom_ownership(*final(state)) == (if allowed is Some
                && selection::candidate_confirmed(allowed->0, self.panes@, self.selected) {
                (true, Some(allowed->0.window), Some(allowed->0.pane))
            } else {
                (false, None, None)
            }),
    {
        let flat = flat_snapshot(&self.windows, &self.panes, &self.mapping, self.selected);
        let kept = self.kept();
        apply_strict_commit(
            state,
            &kept,
            self.windows.as_slice(),
            self.panes.as_slice(),
            flat.as_slice(),
            self.selected,
            allowed,
        );
    }

    /// Forgets the panes that left.  Gives their terminals, which retire.
    pub fn retire(&mut self) -> (r: Vec<u64>)
        requires
            old(self).holds_stale(),
        ensures
            r@ == Seq::new(
                old(self).stale@.len(),
                |i: int| old(self).mapping@[old(self).stale@[i]],
            ),
            final(self).mapping@ == old(self).kept_terminals(),
            final(self).stale@.len() == 0,
            *final(self) == (SyncPlan {
                mapping: final(self).mapping,
                stale: final(self).stale,
                ..*old(self)
            }),
    {
        let natives = retire_panes(&mut self.mapping, &self.stale);
        self.stale = Vec::new();
        natives
    }
}

proof fn lemma_assigned_known(
    panes: Seq<PaneInfo>,
    mapping: Map<u64, u64>,
    nothing_shown: bool,
    owner: u64,
    fresh: Seq<u64>,
    id: u64,
)
    requires
        sync::terminals_assigned(panes, mapping, nothing_shown, owner, fresh).contains_key(id),
    ensures
        mapping.contains_key(id) || selection::lists(panes, id),
    decreases panes.len(),
{
    if panes.len() > 0 {
        let first = panes[0].pane_id;
        let rest = panes.skip(1);
        let (next, more) = if mapping.contains_key(first) {
            (mapping, fresh)
        } else if nothing_shown && mapping.dom().is_empty() {
            (mapping.insert(first, owner), fresh)
        } else {
            (mapping.insert(first, fresh[0]), fresh.skip(1))
        };
        lemma_assigned_known(rest, next, nothing_shown, owner, more, id);
        if selection::lists(rest, id) {
            let i = choose|i: int| 0 <= i < rest.len() && (#[trigger] rest[i]).pane_id == id;
            assert(panes[i + 1].pane_id == id);
        } else if id == first {
            assert(panes[0].pane_id == id);
        }
    }
}

/// What a planned synchronization commits are the terminals of exactly the
/// listed panes: a pane that was known keeps its terminal, and none that left
/// stays behind.
pub proof fn law_a_commit_holds_exactly_the_listed_panes(
    plan: SyncPlan,
    provided: SyncPlan,
    flow: SyncFlow,
    staged: bool,
    listing: (Seq<WindowInfoView>, Seq<PaneInfoView>),
    shared: SessionState,
    own: Map<u64, u64>,
    routed: Set<u64>,
    owner: u64,
    fresh: Seq<u64>,
)
    requires
        plans(plan, flow, staged, listing, shared, own, routed),
        provided.panes == plan.panes,
        provided.stale == plan.stale,
        provided.mapping@ == sync::terminals_assigned(
            plan.panes@,
            plan.mapping@,
            plan.nothing_shown,
            owner,
            fresh,
        ),
    ensures
        plan.holds_stale(),
        forall|id: u64| #[trigger]
            provided.kept_terminals().contains_key(id) <==> names_pane(listing.1, id),
        forall|id: u64| #[trigger]
            plan.mapping@.contains_key(id) && names_pane(listing.1, id)
                ==> provided.kept_terminals()[id] == plan.mapping@[id],
{
    let panes = plan.panes@;
    sync::law_every_pane_gets_a_terminal(
        panes,
        plan.mapping@,
        plan.nothing_shown,
        owner,
        fresh,
    );
    assert forall|i: int| 0 <= i < plan.stale@.len() implies plan.mapping@.contains_key(
        #[trigger] plan.stale@[i],
    ) by {
        assert(plan.stale@.contains(plan.stale@[i]));
    }
    assert forall|id: u64| #[trigger]
        provided.kept_terminals().contains_key(id) <==> names_pane(listing.1, id) by {
        lemma_named(panes, id);
        assert(plan.stale@.to_set().contains(id) <==> plan.stale@.contains(id));
        if provided.mapping@.contains_key(id) {
            lemma_assigned_known(
                panes,
                plan.mapping@,
                plan.nothing_shown,
                owner,
                fresh,
                id,
            );
        }
        if selection::lists(panes, id) {
            let i = choose|i: int| 0 <= i < panes.len() && (#[trigger] panes[i]).pane_id == id;
            assert(provided.mapping@.contains_key(panes[i].pane_id));
        }
    }
    assert forall|id: u64| #[trigger]
        plan.mapping@.contains_key(id) && names_pane(
        listing.1,
        id,
    ) implies provided.kept_terminals()[id] == plan.mapping@[id] by {
        assert(provided.kept_terminals().contains_key(id));
    }
}

} // verus!
