//! What holds of a zoom cleanup as a whole, whatever comes back: a zoomed
//! window is restored, and nothing is given up before a readback shows that it
//! was.

use vstd::prelude::*;

use crate::ssh::cleanup;
use crate::ssh::cleanup::{
    CleanupAction, CleanupCommand, CleanupEnd, CleanupFact, CleanupGoal, CleanupPhase, HooksOnly,
    ZoomActor, ZoomCleanup, ZoomRecord,
};
use crate::ssh::flow::{FlowFailure, ZoomCleanupOutcome};
use crate::ssh::selection::PendingZoomCleanup;
use crate::tmux::hooks::{ZoomRecoveryHookAllocation, ZoomRecoveryHookState};

verus! {

/// A cleanup under way: where it stands, what the controller remembers, and
/// what it does next.
pub struct Under {
    pub cleanup: ZoomCleanup,
    pub actor: ZoomActor,
    pub action: CleanupAction,
}

/// A cleanup after these facts came back, one for each action.
pub open spec fn ran(start: Under, facts: Seq<CleanupFact>) -> Under
    decreases facts.len(),
{
    if facts.len() == 0 {
        start
    } else {
        let before = ran(start, facts.drop_last());
        let (cleanup, actor, action) = cleanup::advanced(
            before.cleanup,
            before.actor,
            facts.last(),
        );
        Under { cleanup, actor, action }
    }
}

/// The cleanup of a durable record, at its first action.
pub open spec fn record_start(goal: CleanupGoal, record: ZoomRecord, actor: ZoomActor) -> Under {
    Under {
        cleanup: cleanup::of_record(goal, record),
        actor,
        action: CleanupAction::Query(
            if goal == CleanupGoal::Inherit {
                CleanupCommand::Hooks
            } else {
                CleanupCommand::Topology
            },
        ),
    }
}

/// The restore of a zoom without a durable record, at its first action.
pub open spec fn target_start(
    actor: ZoomActor,
    shared_owned: Option<PendingZoomCleanup>,
    shared_window: Option<u64>,
) -> Under {
    let (cleanup, actor, action) = cleanup::restore_begin(actor, shared_owned, shared_window);
    Under { cleanup, actor, action }
}

/// What the topologies among the facts showed of the owned window, in their
/// order: whether it was listed, and whether it was zoomed.
pub open spec fn topologies(facts: Seq<CleanupFact>) -> Seq<(bool, bool)>
    decreases facts.len(),
{
    if facts.len() == 0 {
        seq![]
    } else {
        match facts.last() {
            CleanupFact::Window { listed, zoomed } => topologies(facts.drop_last()).push(
                (listed, zoomed),
            ),
            _ => topologies(facts.drop_last()),
        }
    }
}

/// The last topology showed the owned window without a zoom.
pub open spec fn shown_unzoomed(facts: Seq<CleanupFact>) -> bool {
    topologies(facts).len() > 0 && !topologies(facts).last().1
}

/// The restore of this window was asked for on the way.
pub open spec fn restore_sent(start: Under, facts: Seq<CleanupFact>, window: u64) -> bool
    decreases facts.len(),
{
    ||| ran(start, facts).action == CleanupAction::Query(CleanupCommand::RestoreWindow(window))
    ||| facts.len() > 0 && restore_sent(start, facts.drop_last(), window)
}

/// The action gives up what a cleanup is for: it unsets hooks, drops the
/// durable record or ends with a confirmed restore.
pub open spec fn gives_up(action: CleanupAction) -> bool {
    match action {
        CleanupAction::Query(command) => command is RemoveHooks,
        CleanupAction::ClearRecord => true,
        CleanupAction::Done(end) => end.outcome == ZoomCleanupOutcome::RestoredConfirmed,
    }
}

/// Where the cleanup of a record stands, by what it has read.
spec fn record_reached(u: Under, record: ZoomRecord, start: Under, facts: Seq<CleanupFact>) -> bool {
    let seen = topologies(facts);
    let c = u.cleanup;
    &&& c.window == record.window
    &&& c.hooks == Some(record.hooks)
    &&& match c.phase {
        CleanupPhase::RecordBefore => seen.len() == 0 && facts.len() == 0,
        CleanupPhase::RecordRestore => seen.len() == 1 && seen[0].1 && (c.was_listed, c.was_zoomed)
            == seen[0] && restore_sent(start, facts, record.window),
        CleanupPhase::RecordAfter => seen.len() == 1 && (c.was_listed, c.was_zoomed) == seen[0] && (
        seen[0].1 ==> restore_sent(start, facts, record.window)),
        CleanupPhase::RecordHooks | CleanupPhase::RecordRemove | CleanupPhase::RecordAbsent
        | CleanupPhase::RecordClear => seen.len() == 2 && !seen[1].1 && (c.was_listed, c.was_zoomed)
            == seen[0] && (seen[0].1 ==> restore_sent(start, facts, record.window)),
        CleanupPhase::Ended => true,
        _ => false,
    }
}

proof fn lemma_record_reached(
    goal: CleanupGoal,
    record: ZoomRecord,
    actor: ZoomActor,
    facts: Seq<CleanupFact>,
)
    requires
        goal != CleanupGoal::Inherit,
    ensures
        record_reached(
            ran(record_start(goal, record, actor), facts),
            record,
            record_start(goal, record, actor),
            facts,
        ),
        ran(record_start(goal, record, actor), facts).cleanup.goal == goal,
        gives_up(ran(record_start(goal, record, actor), facts).action) ==> {
            let seen = topologies(facts);
            &&& seen.len() == 2
            &&& !seen[1].1
            &&& seen[0].1 ==> restore_sent(
                record_start(goal, record, actor),
                facts,
                record.window,
            )
        },
        ran(record_start(goal, record, actor), facts).action matches CleanupAction::Done(end) && (
        end.outcome == ZoomCleanupOutcome::RestoredConfirmed ==> topologies(facts)[0].0
            && topologies(facts)[0].1) || !(ran(
            record_start(goal, record, actor),
            facts,
        ).action is Done),
    decreases facts.len(),
{
    let start = record_start(goal, record, actor);
    if facts.len() > 0 {
        lemma_record_reached(goal, record, actor, facts.drop_last());
        let before = ran(start, facts.drop_last());
        let after = ran(start, facts);
        assert(restore_sent(start, facts.drop_last(), record.window) ==> restore_sent(
            start,
            facts,
            record.window,
        ));
    }
}

/// At the end of a connection, or before the window changes hands: a topology
/// that shows the owned window zoomed is answered by the restore of that very
/// window.
pub proof fn law_a_zoomed_window_is_restored_at_once(
    goal: CleanupGoal,
    record: ZoomRecord,
    actor: ZoomActor,
    listed: bool,
)
    requires
        goal != CleanupGoal::Inherit,
    ensures
        record_start(goal, record, actor).action == CleanupAction::Query(CleanupCommand::Topology),
        ran(
            record_start(goal, record, actor),
            seq![CleanupFact::Window { listed, zoomed: true }],
        ).action == CleanupAction::Query(CleanupCommand::RestoreWindow(record.window)),
{
    let facts = seq![CleanupFact::Window { listed, zoomed: true }];
    assert(facts.drop_last() =~= Seq::<CleanupFact>::empty());
    assert(ran(record_start(goal, record, actor), facts.drop_last()) == record_start(
        goal,
        record,
        actor,
    ));
}

/// Nothing is given up before a readback: hooks are unset, the record is
/// dropped and a restore counts as confirmed only once a later topology than
/// the first showed the owned window without a zoom.  Where the first one
/// showed it zoomed, its restore was sent in between.
pub proof fn law_a_record_is_released_after_its_readback(
    goal: CleanupGoal,
    record: ZoomRecord,
    actor: ZoomActor,
    facts: Seq<CleanupFact>,
)
    requires
        goal != CleanupGoal::Inherit,
        gives_up(ran(record_start(goal, record, actor), facts).action),
    ensures
        topologies(facts).len() == 2,
        shown_unzoomed(facts),
        topologies(facts)[0].1 ==> restore_sent(
            record_start(goal, record, actor),
            facts,
            record.window,
        ),
{
    lemma_record_reached(goal, record, actor, facts);
}

/// A confirmed restore restored something: the owned window was listed and
/// zoomed when the cleanup began, its restore was sent, and the readback showed
/// it without a zoom.
pub proof fn law_a_confirmed_restore_was_read_back(
    goal: CleanupGoal,
    record: ZoomRecord,
    actor: ZoomActor,
    facts: Seq<CleanupFact>,
    end: CleanupEnd,
)
    requires
        goal != CleanupGoal::Inherit,
        ran(record_start(goal, record, actor), facts).action == CleanupAction::Done(end),
        end.outcome == ZoomCleanupOutcome::RestoredConfirmed,
    ensures
        topologies(facts).len() == 2,
        topologies(facts)[0] == (true, true),
        !topologies(facts)[1].1,
        restore_sent(record_start(goal, record, actor), facts, record.window),
{
    lemma_record_reached(goal, record, actor, facts);
}

/// A zoom that a restore did not end is not given up: the cleanup fails, says
/// that it could not confirm, and the hooks, the record and what the
/// controller remembers stay.
pub proof fn law_a_zoom_that_stays_is_kept(
    goal: CleanupGoal,
    record: ZoomRecord,
    actor: ZoomActor,
    facts: Seq<CleanupFact>,
    listed: bool,
)
    requires
        goal != CleanupGoal::Inherit,
        topologies(facts).len() == 1,
        !(ran(record_start(goal, record, actor), facts).action is Done),
        ran(record_start(goal, record, actor), facts).action == CleanupAction::Query(
            CleanupCommand::Topology,
        ),
    ensures
        ({
            let stays = ran(
                record_start(goal, record, actor),
                facts.push(CleanupFact::Window { listed, zoomed: true }),
            );
            &&& stays.action matches CleanupAction::Done(end)
            &&& end.outcome == ZoomCleanupOutcome::UnconfirmedOrFailed
            &&& !end.clear_owned
            &&& if goal == CleanupGoal::Restore {
                end.record_failure
            } else {
                end.failure == Some(FlowFailure::TmuxRuntimeMissing)
            }
            &&& stays.actor == ran(record_start(goal, record, actor), facts).actor
        }),
{
    let start = record_start(goal, record, actor);
    lemma_record_reached(goal, record, actor, facts);
    lemma_record_asks(goal, record, actor, facts);
    let more = facts.push(CleanupFact::Window { listed, zoomed: true });
    assert(more.drop_last() =~= facts);
}

/// The action of a cleanup of a record fits its phase.
proof fn lemma_record_asks(
    goal: CleanupGoal,
    record: ZoomRecord,
    actor: ZoomActor,
    facts: Seq<CleanupFact>,
)
    requires
        goal != CleanupGoal::Inherit,
    ensures
        ({
            let u = ran(record_start(goal, record, actor), facts);
            &&& u.action == CleanupAction::Query(CleanupCommand::Topology) ==> u.cleanup.phase
                == CleanupPhase::RecordBefore || u.cleanup.phase == CleanupPhase::RecordAfter
            &&& u.action is Done <==> u.cleanup.phase == CleanupPhase::Ended
        }),
    decreases facts.len(),
{
    lemma_record_reached(goal, record, actor, facts);
    if facts.len() > 0 {
        lemma_record_asks(goal, record, actor, facts.drop_last());
        lemma_record_reached(goal, record, actor, facts.drop_last());
    }
}

/// The facts of a cleanup of a record in which every step succeeds.
pub open spec fn good_record_facts(zoomed: bool, listed: bool, owned: bool) -> Seq<CleanupFact> {
    (if zoomed {
        seq![CleanupFact::Window { listed: true, zoomed: true }, CleanupFact::Sent]
    } else {
        seq![CleanupFact::Window { listed, zoomed: false }]
    }) + seq![CleanupFact::Window { listed, zoomed: false }] + (if owned {
        seq![
            CleanupFact::Hooks(ZoomRecoveryHookState::Owned),
            CleanupFact::Sent,
            CleanupFact::Absent(true),
        ]
    } else {
        seq![CleanupFact::Hooks(ZoomRecoveryHookState::Absent)]
    }) + seq![CleanupFact::Cleared(true)]
}

/// Where every step succeeds, a cleanup ends well: with a confirmed restore
/// where the window was zoomed, and with nothing to do where it was not.  The
/// shared state owns no zoom any more, and the controller remembers none.
#[verifier::spinoff_prover]
#[verifier::rlimit(60)]
pub proof fn law_a_cleanup_that_succeeds_ends_well(
    goal: CleanupGoal,
    record: ZoomRecord,
    actor: ZoomActor,
    zoomed: bool,
    listed: bool,
    owned: bool,
)
    requires
        goal != CleanupGoal::Inherit,
    ensures
        ({
            let over = ran(
                record_start(goal, record, actor),
                good_record_facts(zoomed, listed, owned),
            );
            &&& over.action matches CleanupAction::Done(end)
            &&& end.outcome == (if zoomed {
                ZoomCleanupOutcome::RestoredConfirmed
            } else {
                ZoomCleanupOutcome::NotNeeded
            })
            &&& end.failure is None
            &&& end.clear_owned
            &&& !end.record_failure
            &&& !end.claim
            &&& over.actor.zoom_hooks is None
            &&& over.actor.pending_cleanup is None
            &&& over.actor.pending_ownership is None
        }),
{
    let start = record_start(goal, record, actor);
    let a = if zoomed {
        seq![CleanupFact::Window { listed: true, zoomed: true }, CleanupFact::Sent]
    } else {
        seq![CleanupFact::Window { listed, zoomed: false }]
    };
    let b = seq![CleanupFact::Window { listed, zoomed: false }];
    let c = if owned {
        seq![
            CleanupFact::Hooks(ZoomRecoveryHookState::Owned),
            CleanupFact::Sent,
            CleanupFact::Absent(true),
        ]
    } else {
        seq![CleanupFact::Hooks(ZoomRecoveryHookState::Absent)]
    };
    let d = seq![CleanupFact::Cleared(true)];
    lemma_ran_join(start, a + b + c, d);
    lemma_ran_join(start, a + b, c);
    lemma_ran_join(start, a, b);
    lemma_good_restore(goal, record, actor, zoomed, listed);
    let first = ran(start, a);
    lemma_good_readback(first, listed);
    let second = ran(first, b);
    lemma_good_hooks(second, owned);
    let third = ran(second, c);
    lemma_good_end(third);
    assert(good_record_facts(zoomed, listed, owned) == a + b + c + d);
}

proof fn lemma_good_readback(u: Under, listed: bool)
    requires
        u.cleanup.phase == CleanupPhase::RecordAfter,
    ensures
        ran(u, seq![CleanupFact::Window { listed, zoomed: false }]).cleanup == (ZoomCleanup {
            phase: CleanupPhase::RecordHooks,
            ..u.cleanup
        }),
{
    lemma_ran_one(u, CleanupFact::Window { listed, zoomed: false });
}

proof fn lemma_good_end(u: Under)
    requires
        u.cleanup.phase == CleanupPhase::RecordClear,
        u.cleanup.was_zoomed ==> u.cleanup.was_listed,
    ensures
        ({
            let over = ran(u, seq![CleanupFact::Cleared(true)]);
            &&& over.action matches CleanupAction::Done(end)
            &&& end.outcome == (if u.cleanup.was_zoomed {
                ZoomCleanupOutcome::RestoredConfirmed
            } else {
                ZoomCleanupOutcome::NotNeeded
            })
            &&& end.failure is None
            &&& end.clear_owned
            &&& !end.record_failure
            &&& !end.claim
            &&& over.actor.zoom_hooks is None
            &&& over.actor.pending_cleanup is None
            &&& over.actor.pending_ownership is None
        }),
{
    lemma_ran_one(u, CleanupFact::Cleared(true));
}

proof fn lemma_good_restore(
    goal: CleanupGoal,
    record: ZoomRecord,
    actor: ZoomActor,
    zoomed: bool,
    listed: bool,
)
    requires
        goal != CleanupGoal::Inherit,
    ensures
        ({
            let facts = if zoomed {
                seq![CleanupFact::Window { listed: true, zoomed: true }, CleanupFact::Sent]
            } else {
                seq![CleanupFact::Window { listed, zoomed: false }]
            };
            let first = ran(record_start(goal, record, actor), facts);
            &&& first.cleanup.phase == CleanupPhase::RecordAfter
            &&& first.cleanup.goal == goal
            &&& first.cleanup.hooks is Some
            &&& first.cleanup.was_zoomed == zoomed
            &&& zoomed ==> first.cleanup.was_listed
        }),
{
    let start = record_start(goal, record, actor);
    if zoomed {
        let a = CleanupFact::Window { listed: true, zoomed: true };
        lemma_ran_one(start, a);
        lemma_ran_one(ran(start, seq![a]), CleanupFact::Sent);
        lemma_ran_join(start, seq![a], seq![CleanupFact::Sent]);
        assert(seq![a] + seq![CleanupFact::Sent] =~= seq![a, CleanupFact::Sent]);
    } else {
        lemma_ran_one(start, CleanupFact::Window { listed, zoomed: false });
    }
}

proof fn lemma_good_hooks(u: Under, owned: bool)
    requires
        u.cleanup.phase == CleanupPhase::RecordHooks,
        u.cleanup.hooks is Some,
    ensures
        ({
            let facts = if owned {
                seq![
                    CleanupFact::Hooks(ZoomRecoveryHookState::Owned),
                    CleanupFact::Sent,
                    CleanupFact::Absent(true),
                ]
            } else {
                seq![CleanupFact::Hooks(ZoomRecoveryHookState::Absent)]
            };
            ran(u, facts).cleanup == (ZoomCleanup {
                phase: CleanupPhase::RecordClear,
                ..u.cleanup
            })
        }),
{
    if owned {
        let a = CleanupFact::Hooks(ZoomRecoveryHookState::Owned);
        let b = CleanupFact::Sent;
        let c = CleanupFact::Absent(true);
        lemma_ran_one(u, a);
        let one = ran(u, seq![a]);
        lemma_ran_one(one, b);
        let two = ran(one, seq![b]);
        lemma_ran_one(two, c);
        lemma_ran_join(u, seq![a], seq![b]);
        lemma_ran_join(u, seq![a] + seq![b], seq![c]);
        assert(seq![a] + seq![b] + seq![c] =~= seq![a, b, c]);
    } else {
        lemma_ran_one(u, CleanupFact::Hooks(ZoomRecoveryHookState::Absent));
    }
}

proof fn lemma_ran_one(start: Under, fact: CleanupFact)
    ensures
        ({
            let (cleanup, actor, action) = cleanup::advanced(start.cleanup, start.actor, fact);
            ran(start, seq![fact]) == (Under { cleanup, actor, action })
        }),
{
    assert(seq![fact].drop_last() =~= Seq::<CleanupFact>::empty());
    assert(ran(start, seq![fact].drop_last()) == start);
}

proof fn lemma_ran_join(start: Under, a: Seq<CleanupFact>, b: Seq<CleanupFact>)
    ensures
        ran(start, a + b) == ran(ran(start, a), b),
    decreases b.len(),
{
    if b.len() == 0 {
        assert(a + b =~= a);
    } else {
        lemma_ran_join(start, a, b.drop_last());
        assert((a + b).drop_last() =~= a + b.drop_last());
        assert((a + b).last() == b.last());
    }
}

/// Where the restore of a zoom without a record stands, by what it has read and
/// whether the restore was sent.
spec fn target_reached(u: Under, window: u64, seen: Seq<(bool, bool)>, sent: bool) -> bool {
    let c = u.cleanup;
    &&& c.goal == CleanupGoal::Restore
    &&& match c.phase {
        CleanupPhase::Classify => c.window == window && seen.len() == 0 && c.hooks is Some,
        CleanupPhase::Before => c.window == window && seen.len() == 0,
        CleanupPhase::Restoring => c.window == window && seen.len() == 1 && seen[0].0 && sent,
        CleanupPhase::After => c.window == window && seen.len() == 1 && seen[0].0 && sent,
        CleanupPhase::OnlyHooks | CleanupPhase::OnlyRemove | CleanupPhase::OnlyAbsent => c.only
            == HooksOnly::AfterRestore ==> {
            &&& sent
            &&& seen.len() >= 1
            &&& seen[0].0
            &&& c.after_read ==> seen.len() == 2 && (c.after_listed, c.after_zoomed) == seen[1]
        },
        CleanupPhase::Ended => true,
        _ => false,
    }
}

/// What a confirmed restore has behind it.
spec fn target_confirmed(u: Under, seen: Seq<(bool, bool)>, sent: bool) -> bool {
    u.action matches CleanupAction::Done(end) && end.outcome
        == ZoomCleanupOutcome::RestoredConfirmed ==> seen.len() == 2 && seen[0].0 && seen[1] == (
        true,
        false,
    ) && sent
}

proof fn lemma_target_step(
    before: Under,
    after: Under,
    fact: CleanupFact,
    window: u64,
    seen: Seq<(bool, bool)>,
    sent: bool,
)
    requires
        target_reached(before, window, seen, sent),
        (after.cleanup, after.actor, after.action) == cleanup::advanced(
            before.cleanup,
            before.actor,
            fact,
        ),
    ensures
        ({
            let now = match fact {
                CleanupFact::Window { listed, zoomed } => seen.push((listed, zoomed)),
                _ => seen,
            };
            let sent_now = sent || after.action == CleanupAction::Query(
                CleanupCommand::RestoreWindow(window),
            );
            &&& target_reached(after, window, now, sent_now)
            &&& target_confirmed(after, now, sent_now)
        }),
{
    match before.cleanup.phase {
        CleanupPhase::Classify => {},
        CleanupPhase::Before => {},
        CleanupPhase::Restoring => {},
        CleanupPhase::After => {},
        CleanupPhase::OnlyHooks => {},
        CleanupPhase::OnlyRemove => {},
        CleanupPhase::OnlyAbsent => {},
        _ => {},
    }
}

proof fn lemma_target_reached(
    actor: ZoomActor,
    shared_owned: Option<PendingZoomCleanup>,
    shared_window: Option<u64>,
    facts: Seq<CleanupFact>,
    window: u64,
)
    requires
        match (actor.pending_cleanup, shared_owned) {
            (Some(own), _) => own.window == window,
            (None, Some(shared)) => shared.window == window,
            (None, None) => true,
        },
    ensures
        ({
            let start = target_start(actor, shared_owned, shared_window);
            let sent = restore_sent(start, facts, window);
            &&& target_reached(ran(start, facts), window, topologies(facts), sent)
            &&& target_confirmed(ran(start, facts), topologies(facts), sent)
        }),
    decreases facts.len(),
{
    let start = target_start(actor, shared_owned, shared_window);
    if facts.len() > 0 {
        lemma_target_reached(actor, shared_owned, shared_window, facts.drop_last(), window);
        lemma_target_step(
            ran(start, facts.drop_last()),
            ran(start, facts),
            facts.last(),
            window,
            topologies(facts.drop_last()),
            restore_sent(start, facts.drop_last(), window),
        );
    }
}

/// A restore without a durable record is confirmed by its readback alone: the
/// window that the controller, or else the shared state, owned was listed, its
/// restore was sent, and a second topology listed it without a zoom.
pub proof fn law_a_confirmed_target_was_read_back(
    actor: ZoomActor,
    shared_owned: Option<PendingZoomCleanup>,
    shared_window: Option<u64>,
    facts: Seq<CleanupFact>,
    end: CleanupEnd,
    window: u64,
)
    requires
        match (actor.pending_cleanup, shared_owned) {
            (Some(own), _) => own.window == window,
            (None, Some(shared)) => shared.window == window,
            (None, None) => true,
        },
        ran(target_start(actor, shared_owned, shared_window), facts).action == CleanupAction::Done(
            end,
        ),
        end.outcome == ZoomCleanupOutcome::RestoredConfirmed,
    ensures
        topologies(facts).len() == 2,
        topologies(facts)[0].0,
        topologies(facts)[1] == (true, false),
        restore_sent(target_start(actor, shared_owned, shared_window), facts, window),
{
    lemma_target_reached(actor, shared_owned, shared_window, facts, window);
}

/// The restore of an owned zoom without a record: where the window is listed
/// its restore is sent, and where every step succeeds the end is a confirmed
/// restore that leaves nothing owned.
pub proof fn law_an_owned_zoom_is_restored(
    actor: ZoomActor,
    owned: PendingZoomCleanup,
    shared_window: Option<u64>,
    zoomed: bool,
)
    requires
        actor.pending_cleanup is None,
        actor.zoom_hooks is None,
        owned.hooks is None,
    ensures
        ({
            let start = target_start(actor, Some(owned), shared_window);
            let listed = CleanupFact::Window { listed: true, zoomed };
            let back = CleanupFact::Window { listed: true, zoomed: false };
            &&& start.action == CleanupAction::Query(CleanupCommand::Topology)
            &&& ran(start, seq![listed]).action == CleanupAction::Query(
                CleanupCommand::RestoreWindow(owned.window),
            )
            &&& ran(start, seq![listed, CleanupFact::Sent]).action == CleanupAction::Query(
                CleanupCommand::Topology,
            )
            &&& (ran(start, seq![listed, CleanupFact::Sent, back]).action
                matches CleanupAction::Done(end) && end.outcome
                == ZoomCleanupOutcome::RestoredConfirmed && end.clear_owned)
        }),
{
    let start = target_start(actor, Some(owned), shared_window);
    let listed = CleanupFact::Window { listed: true, zoomed };
    let back = CleanupFact::Window { listed: true, zoomed: false };
    reveal_with_fuel(ran, 4);
    assert(seq![listed].drop_last() =~= Seq::<CleanupFact>::empty());
    assert(seq![listed, CleanupFact::Sent].drop_last() =~= seq![listed]);
    assert(seq![listed, CleanupFact::Sent, back].drop_last() =~= seq![listed, CleanupFact::Sent]);
}

/// A controller takes over the zoom of an earlier one only where the hooks
/// that guard it are still the record's own and the window is listed; it then
/// remembers that very zoom and its hooks.
pub proof fn law_only_a_guarded_zoom_is_inherited(
    record: ZoomRecord,
    actor: ZoomActor,
    facts: Seq<CleanupFact>,
    end: CleanupEnd,
)
    requires
        ran(record_start(CleanupGoal::Inherit, record, actor), facts).action
            == CleanupAction::Done(end),
        end.claim,
    ensures
        facts.len() == 2,
        facts[0] == CleanupFact::Hooks(ZoomRecoveryHookState::Owned),
        facts[1] matches CleanupFact::Window { listed, .. } && listed,
        ran(record_start(CleanupGoal::Inherit, record, actor), facts).actor.zoom_hooks == Some(
            record.hooks,
        ),
        ran(record_start(CleanupGoal::Inherit, record, actor), facts).actor.pending_cleanup
            == Some(
            PendingZoomCleanup {
                window: record.window,
                pane: record.pane,
                hooks: Some(record.hooks),
            },
        ),
{
    lemma_inherit_reached(record, actor, facts);
}

proof fn lemma_inherit_reached(record: ZoomRecord, actor: ZoomActor, facts: Seq<CleanupFact>)
    ensures
        ({
            let u = ran(record_start(CleanupGoal::Inherit, record, actor), facts);
            &&& u.cleanup.window == record.window
            &&& u.cleanup.pane == record.pane
            &&& u.cleanup.hooks == Some(record.hooks)
            &&& u.cleanup.goal == CleanupGoal::Inherit
            &&& u.cleanup.phase == CleanupPhase::InheritHooks ==> facts.len() == 0
            &&& u.cleanup.phase == CleanupPhase::InheritTopology ==> facts.len() == 1 && facts[0]
                == CleanupFact::Hooks(ZoomRecoveryHookState::Owned)
            &&& u.cleanup.phase != CleanupPhase::Classify && u.cleanup.phase
                != CleanupPhase::Before && u.cleanup.phase != CleanupPhase::Restoring
                && u.cleanup.phase != CleanupPhase::After && u.cleanup.phase
                != CleanupPhase::OnlyHooks && u.cleanup.phase != CleanupPhase::OnlyRemove
                && u.cleanup.phase != CleanupPhase::OnlyAbsent
            &&& (u.action matches CleanupAction::Done(end) && end.claim ==> {
                &&& facts.len() == 2
                &&& facts[0] == CleanupFact::Hooks(ZoomRecoveryHookState::Owned)
                &&& (facts[1] matches CleanupFact::Window { listed, .. } && listed)
                &&& u.actor.zoom_hooks == Some(record.hooks)
                &&& u.actor.pending_cleanup == Some(
                    PendingZoomCleanup {
                        window: record.window,
                        pane: record.pane,
                        hooks: Some(record.hooks),
                    },
                )
            })
        }),
    decreases facts.len(),
{
    if facts.len() > 0 {
        lemma_inherit_reached(record, actor, facts.drop_last());
        if facts.len() == 2 {
            assert(facts.drop_last()[0] == facts[0]);
        }
    }
}

/// Every action asks for what the next decision needs: a topology where the
/// owned window is judged, the hooks where they are, a change where only its
/// acknowledgement counts, and the record's removal at the very end.
pub proof fn law_every_action_asks_what_is_needed(
    c: ZoomCleanup,
    actor: ZoomActor,
    fact: CleanupFact,
)
    ensures
        ({
            let (next, _, action) = cleanup::advanced(c, actor, fact);
            match next.phase {
                CleanupPhase::RecordBefore
                | CleanupPhase::RecordAfter
                | CleanupPhase::InheritTopology
                | CleanupPhase::Before
                | CleanupPhase::After => action == CleanupAction::Query(CleanupCommand::Topology),
                CleanupPhase::RecordHooks
                | CleanupPhase::RecordAbsent
                | CleanupPhase::OnlyHooks
                | CleanupPhase::OnlyAbsent => action == CleanupAction::Query(
                    CleanupCommand::Hooks,
                ),
                CleanupPhase::RecordRestore | CleanupPhase::Restoring => action
                    == CleanupAction::Query(CleanupCommand::RestoreWindow(c.window)),
                CleanupPhase::RecordRemove | CleanupPhase::OnlyRemove => c.hooks
                    matches Some(hooks) && action == CleanupAction::Query(
                    CleanupCommand::RemoveHooks(hooks),
                ),
                CleanupPhase::RecordClear => action == CleanupAction::ClearRecord,
                CleanupPhase::Ended => action is Done,
                CleanupPhase::InheritHooks | CleanupPhase::Classify => false,
            }
        }),
{
}

/// The removal of these hooks was sent on the way.
pub open spec fn removal_sent(
    start: Under,
    facts: Seq<CleanupFact>,
    hooks: ZoomRecoveryHookAllocation,
) -> bool
    decreases facts.len(),
{
    ||| ran(start, facts).action == CleanupAction::Query(CleanupCommand::RemoveHooks(hooks))
    ||| facts.len() > 0 && removal_sent(start, facts.drop_last(), hooks)
}

/// A record goes only after its hooks: they were read as absent, or their
/// removal was sent and a later listing showed that they are gone.
pub proof fn law_the_record_goes_after_its_hooks(
    goal: CleanupGoal,
    record: ZoomRecord,
    actor: ZoomActor,
    facts: Seq<CleanupFact>,
)
    requires
        ran(record_start(goal, record, actor), facts).action == CleanupAction::ClearRecord,
    ensures
        facts.len() > 0,
        facts.last() == CleanupFact::Hooks(ZoomRecoveryHookState::Absent) || (facts.last()
            == CleanupFact::Absent(true) && removal_sent(
            record_start(goal, record, actor),
            facts,
            record.hooks,
        )),
{
    lemma_hooks_reached(goal, record, actor, facts);
}

proof fn lemma_hooks_reached(
    goal: CleanupGoal,
    record: ZoomRecord,
    actor: ZoomActor,
    facts: Seq<CleanupFact>,
)
    ensures
        ({
            let start = record_start(goal, record, actor);
            let u = ran(start, facts);
            let sent = removal_sent(start, facts, record.hooks);
            &&& u.cleanup.hooks == Some(record.hooks)
            &&& u.action == CleanupAction::ClearRecord ==> u.cleanup.phase
                == CleanupPhase::RecordClear
            &&& match u.cleanup.phase {
                CleanupPhase::RecordRemove | CleanupPhase::RecordAbsent => sent,
                CleanupPhase::RecordClear => facts.len() > 0 && (facts.last()
                    == CleanupFact::Hooks(ZoomRecoveryHookState::Absent) || (facts.last()
                    == CleanupFact::Absent(true) && sent)),
                CleanupPhase::InheritHooks
                | CleanupPhase::InheritTopology
                | CleanupPhase::RecordBefore
                | CleanupPhase::RecordRestore
                | CleanupPhase::RecordAfter
                | CleanupPhase::RecordHooks
                | CleanupPhase::Ended => true,
                _ => false,
            }
        }),
    decreases facts.len(),
{
    if facts.len() > 0 {
        lemma_hooks_reached(goal, record, actor, facts.drop_last());
    }
}

/// The hooks were read as gone.
pub open spec fn hooks_gone(facts: Seq<CleanupFact>) -> bool
    decreases facts.len(),
{
    facts.len() > 0 && (facts.last() == CleanupFact::Hooks(ZoomRecoveryHookState::Absent)
        || facts.last() == CleanupFact::Absent(true) || hooks_gone(facts.drop_last()))
}

/// A restore without a durable record whose controller has hooks ends surely
/// only once the hooks were read as gone.
pub proof fn law_a_sure_end_leaves_no_hooks(
    actor: ZoomActor,
    shared_owned: Option<PendingZoomCleanup>,
    shared_window: Option<u64>,
    facts: Seq<CleanupFact>,
    end: CleanupEnd,
)
    requires
        actor.zoom_hooks is Some,
        ran(target_start(actor, shared_owned, shared_window), facts).action == CleanupAction::Done(
            end,
        ),
        end.outcome != ZoomCleanupOutcome::UnconfirmedOrFailed,
    ensures
        hooks_gone(facts),
{
    lemma_sure_end(actor, shared_owned, shared_window, facts);
}

/// Where a restore with hooks stands, by whether they were read as gone.
spec fn sure_reached(u: Under, gone: bool) -> bool {
    &&& u.cleanup.hooks is Some
    &&& u.cleanup.goal == CleanupGoal::Restore
    &&& match u.cleanup.phase {
        CleanupPhase::Before | CleanupPhase::Restoring | CleanupPhase::After => !u.cleanup.owned
            ==> gone,
        CleanupPhase::Classify
        | CleanupPhase::OnlyHooks
        | CleanupPhase::OnlyRemove
        | CleanupPhase::OnlyAbsent
        | CleanupPhase::Ended => true,
        _ => false,
    }
    &&& (u.action matches CleanupAction::Done(end) ==> end.outcome
        == ZoomCleanupOutcome::UnconfirmedOrFailed || gone)
}

#[verifier::spinoff_prover]
proof fn lemma_sure_step(before: Under, after: Under, fact: CleanupFact, gone: bool)
    requires
        sure_reached(before, gone),
        (after.cleanup, after.actor, after.action) == cleanup::advanced(
            before.cleanup,
            before.actor,
            fact,
        ),
    ensures
        sure_reached(
            after,
            gone || fact == CleanupFact::Hooks(ZoomRecoveryHookState::Absent) || fact
                == CleanupFact::Absent(true),
        ),
{
    match before.cleanup.phase {
        CleanupPhase::Classify => {},
        CleanupPhase::Before => {},
        CleanupPhase::Restoring => {},
        CleanupPhase::After => {},
        CleanupPhase::OnlyHooks => {},
        CleanupPhase::OnlyRemove => {},
        CleanupPhase::OnlyAbsent => {},
        _ => {},
    }
}

proof fn lemma_sure_end(
    actor: ZoomActor,
    shared_owned: Option<PendingZoomCleanup>,
    shared_window: Option<u64>,
    facts: Seq<CleanupFact>,
)
    requires
        actor.zoom_hooks is Some,
    ensures
        sure_reached(
            ran(target_start(actor, shared_owned, shared_window), facts),
            hooks_gone(facts),
        ),
    decreases facts.len(),
{
    let start = target_start(actor, shared_owned, shared_window);
    if facts.len() > 0 {
        lemma_sure_end(actor, shared_owned, shared_window, facts.drop_last());
        lemma_sure_step(
            ran(start, facts.drop_last()),
            ran(start, facts),
            facts.last(),
            hooks_gone(facts.drop_last()),
        );
    }
}

} // verus!
