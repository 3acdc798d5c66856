//! Restoring a zoom that meeterm owns, and releasing the hooks that guard it.
//!
//! A cleanup alternates commands on the verified stream with decisions on
//! what came back.  [`advance`] makes one decision; [`ZoomCleanup::resume`]
//! reads a reply and makes it.  Hooks are unset only when their body was just
//! read and is ours, and a layout is changed only in the owned window.

use vstd::prelude::*;
use vstd::string::*;

use crate::tmux::quote;
use crate::tmux::hooks;
use crate::tmux::commands;
use crate::ssh::topology;
use crate::ssh::selection;
use crate::ssh::state;
use crate::ssh::flow::{FlowFailure, ZoomCleanupOutcome};
use crate::ssh::selection::{
    is_window_listed, is_window_zoomed, select_zoom_cleanup_target, zoom_cleanup_hook_allocation,
    PendingZoomCleanup,
};
use crate::ssh::state::SessionState;
use crate::ssh::topology::{joined_reply, parse_cleanup_panes};
use crate::tmux::commands::{
    list_panes_command_for_session, restore_layout_command_for_session_window,
};
use crate::tmux::decoder::CommandBlock;
use crate::tmux::error::CommandArgumentError;
use crate::tmux::hooks::{
    remove_zoom_recovery_hooks_command_for_session, zoom_recovery_hooks_absent,
    zoom_recovery_hooks_state, ZoomRecoveryHookAllocation, ZoomRecoveryHookState,
};
use crate::tmux::quote::session_target_for_hooks;
use crate::tmux::records::{PaneInfo, PaneInfoView};

verus! {

/// The durable part of a zoom: which window, through which pane, guarded by
/// which hooks.
#[derive(Clone, Copy, Debug, PartialEq, Eq, Structural)]
pub struct ZoomRecord {
    pub window: u64,
    pub pane: u64,
    pub hooks: ZoomRecoveryHookAllocation,
}

/// What a controller itself remembers of its zooms.
#[derive(Clone, Copy, Debug, PartialEq, Eq, Structural)]
pub struct ZoomActor {
    pub zoom_hooks: Option<ZoomRecoveryHookAllocation>,
    /// Recorded before a zoom is sent, so that a mutation whose answer never
    /// came is still restored.
    pub pending_cleanup: Option<PendingZoomCleanup>,
    /// The selection that a strict recovery may publish as owned.
    pub pending_ownership: Option<PendingZoomCleanup>,
}

/// A command of a cleanup.
#[derive(Clone, Copy, Debug, PartialEq, Eq, Structural)]
pub enum CleanupCommand {
    Topology,
    Hooks,
    RestoreWindow(u64),
    RemoveHooks(ZoomRecoveryHookAllocation),
}

/// What a reply tells the cleanup.
#[derive(Clone, Copy, Debug, PartialEq, Eq, Structural)]
pub enum CleanupFact {
    /// The owned window in a fresh topology.
    Window { listed: bool, zoomed: bool },
    /// The two hook entries of the record.
    Hooks(ZoomRecoveryHookState),
    /// Whether the two hook entries are gone.
    Absent(bool),
    /// A mutation was acknowledged.
    Sent,
    /// Whether the durable record was cleared.
    Cleared(bool),
    /// The command cannot be written for this session, and was not sent.
    NotRendered,
    Failed(FlowFailure),
}

/// What a cleanup is for.
#[derive(Clone, Copy, Debug, PartialEq, Eq, Structural)]
pub enum CleanupGoal {
    /// Release a durable record before its window or runtime changes hands.
    Reconcile,
    /// Take over the durable record of an earlier controller.
    Inherit,
    /// Restore at the end of a connection.
    Restore,
}

/// What the cleanup waits for.
#[derive(Clone, Copy, Debug, PartialEq, Eq, Structural)]
pub enum CleanupPhase {
    InheritHooks,
    InheritTopology,
    RecordBefore,
    RecordRestore,
    RecordAfter,
    RecordHooks,
    RecordRemove,
    RecordAbsent,
    RecordClear,
    Classify,
    Before,
    Restoring,
    After,
    OnlyHooks,
    OnlyRemove,
    OnlyAbsent,
    Ended,
}

/// Where a removal of hooks alone belongs.
#[derive(Clone, Copy, Debug, PartialEq, Eq, Structural)]
pub enum HooksOnly {
    NoTarget,
    WindowGone,
    AfterRestore,
}

/// A cleanup under way.
#[derive(Clone, Copy, Debug, PartialEq, Eq, Structural)]
pub struct ZoomCleanup {
    pub goal: CleanupGoal,
    pub phase: CleanupPhase,
    pub window: u64,
    pub pane: u64,
    pub hooks: Option<ZoomRecoveryHookAllocation>,
    /// The window was listed, and zoomed, when the cleanup began.
    pub was_listed: bool,
    pub was_zoomed: bool,
    /// The hooks were ours when they were classified.
    pub owned: bool,
    /// The topology after the restore, where it could be read.
    pub after_read: bool,
    pub after_listed: bool,
    pub after_zoomed: bool,
    pub only: HooksOnly,
}

/// How a cleanup ended, and what it leaves to publish.
#[derive(Clone, Copy, Debug, PartialEq, Eq, Structural)]
pub struct CleanupEnd {
    pub outcome: ZoomCleanupOutcome,
    /// Why a record could not be released; then `outcome` does not count.
    pub failure: Option<FlowFailure>,
    /// The shared state owns no zoom any more.
    pub clear_owned: bool,
    /// No cleanup is pending any more.
    pub clear_pending: bool,
    /// The failure is recorded for a later retry.
    pub record_failure: bool,
    /// The shared state owns the record's zoom.
    pub claim: bool,
}

/// What to do next.
#[derive(Clone, Copy, Debug, PartialEq, Eq, Structural)]
pub enum CleanupAction {
    Query(CleanupCommand),
    ClearRecord,
    Done(CleanupEnd),
}

/// What a phase reads from its reply.
#[derive(Clone, Copy, Debug, PartialEq, Eq, Structural)]
pub enum Awaited {
    Window,
    Hooks,
    Absence,
    Acknowledgement,
    Clearing,
}

pub open spec fn awaited_in(phase: CleanupPhase) -> Awaited {
    match phase {
        CleanupPhase::InheritHooks | CleanupPhase::RecordHooks | CleanupPhase::Classify
        | CleanupPhase::OnlyHooks => Awaited::Hooks,
        CleanupPhase::InheritTopology | CleanupPhase::RecordBefore | CleanupPhase::RecordAfter
        | CleanupPhase::Before | CleanupPhase::After => Awaited::Window,
        CleanupPhase::RecordAbsent | CleanupPhase::OnlyAbsent => Awaited::Absence,
        CleanupPhase::RecordRestore | CleanupPhase::RecordRemove | CleanupPhase::Restoring
        | CleanupPhase::OnlyRemove => Awaited::Acknowledgement,
        CleanupPhase::RecordClear | CleanupPhase::Ended => Awaited::Clearing,
    }
}

pub open spec fn failure_in(fact: CleanupFact) -> FlowFailure {
    match fact {
        CleanupFact::Failed(e) => e,
        _ => FlowFailure::TmuxProtocol,
    }
}

pub open spec fn ended(outcome: ZoomCleanupOutcome) -> CleanupEnd {
    CleanupEnd {
        outcome,
        failure: None,
        clear_owned: false,
        clear_pending: false,
        record_failure: false,
        claim: false,
    }
}

/// A record could not be released.  At the end of a connection that is an
/// unconfirmed outcome, kept for a retry; elsewhere it is the failure.
pub open spec fn record_failed(goal: CleanupGoal, e: FlowFailure) -> CleanupEnd {
    if goal == CleanupGoal::Restore {
        CleanupEnd { record_failure: true, ..ended(ZoomCleanupOutcome::UnconfirmedOrFailed) }
    } else {
        CleanupEnd { failure: Some(e), ..ended(ZoomCleanupOutcome::UnconfirmedOrFailed) }
    }
}

pub open spec fn sure(outcome: ZoomCleanupOutcome) -> bool {
    outcome != ZoomCleanupOutcome::UnconfirmedOrFailed
}

/// What the topology after a restore proves.
pub open spec fn after_outcome(c: ZoomCleanup, hooks_restored: bool) -> ZoomCleanupOutcome {
    if !hooks_restored || !c.after_read || c.after_zoomed {
        ZoomCleanupOutcome::UnconfirmedOrFailed
    } else if c.after_listed {
        ZoomCleanupOutcome::RestoredConfirmed
    } else {
        ZoomCleanupOutcome::NotNeeded
    }
}

/// The end of a restore whose hooks are settled.
pub open spec fn restore_end(c: ZoomCleanup, actor: ZoomActor, hooks_restored: bool) -> (
    ZoomActor,
    CleanupEnd,
) {
    let outcome = after_outcome(c, hooks_restored);
    (
        if sure(outcome) {
            ZoomActor { zoom_hooks: None, ..actor }
        } else {
            actor
        },
        CleanupEnd { clear_owned: true, ..ended(outcome) },
    )
}

/// The end of a removal of hooks alone.
pub open spec fn only_end(c: ZoomCleanup, actor: ZoomActor, removed: bool) -> (
    ZoomActor,
    CleanupEnd,
) {
    let outcome = if removed {
        ZoomCleanupOutcome::NotNeeded
    } else {
        ZoomCleanupOutcome::UnconfirmedOrFailed
    };
    let kept = if removed {
        ZoomActor { zoom_hooks: None, ..actor }
    } else {
        actor
    };
    match c.only {
        HooksOnly::NoTarget => (kept, CleanupEnd { clear_pending: removed, ..ended(outcome) }),
        HooksOnly::WindowGone => (kept, CleanupEnd { clear_owned: removed, ..ended(outcome) }),
        HooksOnly::AfterRestore => restore_end(c, kept, removed),
    }
}

pub open spec fn at(c: ZoomCleanup, phase: CleanupPhase) -> ZoomCleanup {
    ZoomCleanup { phase, ..c }
}

pub open spec fn over(c: ZoomCleanup, end: (ZoomActor, CleanupEnd)) -> (
    ZoomCleanup,
    ZoomActor,
    CleanupAction,
) {
    (at(c, CleanupPhase::Ended), end.0, CleanupAction::Done(end.1))
}

/// The decision on one fact.
pub open spec fn advanced(c: ZoomCleanup, actor: ZoomActor, fact: CleanupFact) -> (
    ZoomCleanup,
    ZoomActor,
    CleanupAction,
) {
    let lost = over(c, (actor, record_failed(c.goal, failure_in(fact))));
    let unsure = over(c, (actor, ended(ZoomCleanupOutcome::UnconfirmedOrFailed)));
    let missing = over(c, (actor, record_failed(c.goal, FlowFailure::TmuxRuntimeMissing)));
    match (c.phase, fact) {
        (CleanupPhase::InheritHooks, CleanupFact::Hooks(state)) => match state {
            ZoomRecoveryHookState::Replaced => missing,
            ZoomRecoveryHookState::Absent => (
                at(c, CleanupPhase::RecordBefore),
                actor,
                CleanupAction::Query(CleanupCommand::Topology),
            ),
            ZoomRecoveryHookState::Owned => (
                at(c, CleanupPhase::InheritTopology),
                actor,
                CleanupAction::Query(CleanupCommand::Topology),
            ),
        },
        (CleanupPhase::InheritTopology, CleanupFact::Window { listed, zoomed }) => if listed {
            over(
                c,
                (
                    ZoomActor {
                        zoom_hooks: c.hooks,
                        pending_cleanup: Some(
                            PendingZoomCleanup { window: c.window, pane: c.pane, hooks: c.hooks },
                        ),
                        ..actor
                    },
                    CleanupEnd { claim: true, ..ended(ZoomCleanupOutcome::NotNeeded) },
                ),
            )
        } else {
            (
                at(c, CleanupPhase::RecordBefore),
                actor,
                CleanupAction::Query(CleanupCommand::Topology),
            )
        },
        (CleanupPhase::RecordBefore, CleanupFact::Window { listed, zoomed }) => {
            let seen = ZoomCleanup { was_listed: listed, was_zoomed: zoomed, ..c };
            if zoomed {
                (
                    at(seen, CleanupPhase::RecordRestore),
                    actor,
                    CleanupAction::Query(CleanupCommand::RestoreWindow(c.window)),
                )
            } else {
                (
                    at(seen, CleanupPhase::RecordAfter),
                    actor,
                    CleanupAction::Query(CleanupCommand::Topology),
                )
            }
        },
        (CleanupPhase::RecordRestore, CleanupFact::Sent) => (
            at(c, CleanupPhase::RecordAfter),
            actor,
            CleanupAction::Query(CleanupCommand::Topology),
        ),
        (CleanupPhase::RecordAfter, CleanupFact::Window { listed, zoomed }) => if zoomed {
            missing
        } else {
            (
                at(c, CleanupPhase::RecordHooks),
                actor,
                CleanupAction::Query(CleanupCommand::Hooks),
            )
        },
        (CleanupPhase::RecordHooks, CleanupFact::Hooks(state)) => match state {
            ZoomRecoveryHookState::Replaced => missing,
            ZoomRecoveryHookState::Absent => (
                at(c, CleanupPhase::RecordClear),
                actor,
                CleanupAction::ClearRecord,
            ),
            ZoomRecoveryHookState::Owned => match c.hooks {
                Some(hooks) => (
                    at(c, CleanupPhase::RecordRemove),
                    actor,
                    CleanupAction::Query(CleanupCommand::RemoveHooks(hooks)),
                ),
                None => missing,
            },
        },
        (CleanupPhase::RecordRemove, CleanupFact::Sent) => (
            at(c, CleanupPhase::RecordAbsent),
            actor,
            CleanupAction::Query(CleanupCommand::Hooks),
        ),
        (CleanupPhase::RecordAbsent, CleanupFact::Absent(gone)) => if gone {
            (at(c, CleanupPhase::RecordClear), actor, CleanupAction::ClearRecord)
        } else {
            missing
        },
        (CleanupPhase::RecordClear, CleanupFact::Cleared(cleared)) => if cleared {
            over(
                c,
                (
                    ZoomActor { zoom_hooks: None, pending_cleanup: None, pending_ownership: None },
                    CleanupEnd {
                        clear_owned: true,
                        ..ended(
                            if c.was_listed && c.was_zoomed {
                                ZoomCleanupOutcome::RestoredConfirmed
                            } else {
                                ZoomCleanupOutcome::NotNeeded
                            },
                        )
                    },
                ),
            )
        } else {
            over(c, (actor, record_failed(c.goal, FlowFailure::Stale)))
        },
        (CleanupPhase::Classify, CleanupFact::Hooks(state)) => match state {
            ZoomRecoveryHookState::Replaced => over(
                c,
                (actor, record_failed(CleanupGoal::Restore, FlowFailure::TmuxRuntimeMissing)),
            ),
            _ => (
                at(
                    ZoomCleanup { owned: state == ZoomRecoveryHookState::Owned, ..c },
                    CleanupPhase::Before,
                ),
                actor,
                CleanupAction::Query(CleanupCommand::Topology),
            ),
        },
        (CleanupPhase::Classify, _) => over(
            c,
            (actor, record_failed(CleanupGoal::Restore, failure_in(fact))),
        ),
        (CleanupPhase::Before, CleanupFact::Window { listed, zoomed }) => if listed {
            (
                at(c, CleanupPhase::Restoring),
                actor,
                CleanupAction::Query(CleanupCommand::RestoreWindow(c.window)),
            )
        } else if c.hooks is Some {
            (
                at(ZoomCleanup { only: HooksOnly::WindowGone, ..c }, CleanupPhase::OnlyHooks),
                actor,
                CleanupAction::Query(CleanupCommand::Hooks),
            )
        } else {
            over(
                c,
                (actor, CleanupEnd { clear_owned: true, ..ended(ZoomCleanupOutcome::NotNeeded) }),
            )
        },
        (CleanupPhase::Before, _) => unsure,
        (CleanupPhase::Restoring, CleanupFact::Sent) => (
            at(c, CleanupPhase::After),
            actor,
            CleanupAction::Query(CleanupCommand::Topology),
        ),
        (CleanupPhase::Restoring, CleanupFact::NotRendered) => unsure,
        (CleanupPhase::Restoring, _) => over(
            c,
            restore_end(ZoomCleanup { after_read: false, ..c }, actor, false),
        ),
        (CleanupPhase::After, _) => {
            let seen = match fact {
                CleanupFact::Window { listed, zoomed } => ZoomCleanup {
                    after_read: true,
                    after_listed: listed,
                    after_zoomed: zoomed,
                    ..c
                },
                _ => ZoomCleanup { after_read: false, ..c },
            };
            if c.hooks is Some && c.owned {
                (
                    at(
                        ZoomCleanup { only: HooksOnly::AfterRestore, ..seen },
                        CleanupPhase::OnlyHooks,
                    ),
                    actor,
                    CleanupAction::Query(CleanupCommand::Hooks),
                )
            } else {
                over(seen, restore_end(seen, actor, true))
            }
        },
        (CleanupPhase::OnlyHooks, CleanupFact::Hooks(state)) => match state {
            ZoomRecoveryHookState::Absent => over(c, only_end(c, actor, true)),
            ZoomRecoveryHookState::Replaced => over(c, only_end(c, actor, false)),
            ZoomRecoveryHookState::Owned => match c.hooks {
                Some(hooks) => (
                    at(c, CleanupPhase::OnlyRemove),
                    actor,
                    CleanupAction::Query(CleanupCommand::RemoveHooks(hooks)),
                ),
                None => over(c, only_end(c, actor, false)),
            },
        },
        (CleanupPhase::OnlyHooks, _) => over(c, only_end(c, actor, false)),
        (CleanupPhase::OnlyRemove, CleanupFact::Sent) => (
            at(c, CleanupPhase::OnlyAbsent),
            actor,
            CleanupAction::Query(CleanupCommand::Hooks),
        ),
        (CleanupPhase::OnlyRemove, _) => over(c, only_end(c, actor, false)),
        (CleanupPhase::OnlyAbsent, _) => over(
            c,
            only_end(c, actor, fact == CleanupFact::Absent(true)),
        ),
        _ => lost,
    }
}

fn end_with(outcome: ZoomCleanupOutcome) -> (r: CleanupEnd)
    ensures
        r == ended(outcome),
{
    CleanupEnd {
        outcome,
        failure: None,
        clear_owned: false,
        clear_pending: false,
        record_failure: false,
        claim: false,
    }
}

fn end_lost(goal: CleanupGoal, e: FlowFailure) -> (r: CleanupEnd)
    ensures
        r == record_failed(goal, e),
{
    let mut end = end_with(ZoomCleanupOutcome::UnconfirmedOrFailed);
    if goal == CleanupGoal::Restore {
        end.record_failure = true;
    } else {
        end.failure = Some(e);
    }
    end
}

fn finish(c: ZoomCleanup, actor: ZoomActor, end: CleanupEnd) -> (r: (
    ZoomCleanup,
    ZoomActor,
    CleanupAction,
))
    ensures
        r == over(c, (actor, end)),
{
    (go(c, CleanupPhase::Ended), actor, CleanupAction::Done(end))
}

fn go(c: ZoomCleanup, phase: CleanupPhase) -> (r: ZoomCleanup)
    ensures
        r == at(c, phase),
{
    let mut next = c;
    next.phase = phase;
    next
}

fn ask(c: ZoomCleanup, actor: ZoomActor, phase: CleanupPhase, command: CleanupCommand) -> (r: (
    ZoomCleanup,
    ZoomActor,
    CleanupAction,
))
    ensures
        r == (at(c, phase), actor, CleanupAction::Query(command)),
{
    (go(c, phase), actor, CleanupAction::Query(command))
}

fn finish_restore(c: ZoomCleanup, actor: ZoomActor, hooks_restored: bool) -> (r: (
    ZoomCleanup,
    ZoomActor,
    CleanupAction,
))
    ensures
        r == over(c, restore_end(c, actor, hooks_restored)),
{
    let outcome = if !hooks_restored || !c.after_read || c.after_zoomed {
        ZoomCleanupOutcome::UnconfirmedOrFailed
    } else if c.after_listed {
        ZoomCleanupOutcome::RestoredConfirmed
    } else {
        ZoomCleanupOutcome::NotNeeded
    };
    let mut kept = actor;
    if outcome != ZoomCleanupOutcome::UnconfirmedOrFailed {
        kept.zoom_hooks = None;
    }
    let mut end = end_with(outcome);
    end.clear_owned = true;
    finish(c, kept, end)
}

fn finish_only(c: ZoomCleanup, actor: ZoomActor, removed: bool) -> (r: (
    ZoomCleanup,
    ZoomActor,
    CleanupAction,
))
    ensures
        r == over(c, only_end(c, actor, removed)),
{
    let mut kept = actor;
    let mut end = end_with(
        if removed {
            ZoomCleanupOutcome::NotNeeded
        } else {
            ZoomCleanupOutcome::UnconfirmedOrFailed
        },
    );
    if removed {
        kept.zoom_hooks = None;
    }
    match c.only {
        HooksOnly::NoTarget => {
            end.clear_pending = removed;
            finish(c, kept, end)
        },
        HooksOnly::WindowGone => {
            end.clear_owned = removed;
            finish(c, kept, end)
        },
        HooksOnly::AfterRestore => finish_restore(c, kept, removed),
    }
}

fn failure_of(fact: CleanupFact) -> (r: FlowFailure)
    ensures
        r == failure_in(fact),
{
    match fact {
        CleanupFact::Failed(e) => e,
        _ => FlowFailure::TmuxProtocol,
    }
}

/// Makes the decision on one fact.
pub fn advance(c: ZoomCleanup, actor: ZoomActor, fact: CleanupFact) -> (r: (
    ZoomCleanup,
    ZoomActor,
    CleanupAction,
))
    ensures
        r == advanced(c, actor, fact),
{
    let missing = FlowFailure::TmuxRuntimeMissing;
    match (c.phase, fact) {
        (CleanupPhase::InheritHooks, CleanupFact::Hooks(state)) => match state {
            ZoomRecoveryHookState::Replaced => finish(c, actor, end_lost(c.goal, missing)),
            ZoomRecoveryHookState::Absent => ask(
                c,
                actor,
                CleanupPhase::RecordBefore,
                CleanupCommand::Topology,
            ),
            ZoomRecoveryHookState::Owned => ask(
                c,
                actor,
                CleanupPhase::InheritTopology,
                CleanupCommand::Topology,
            ),
        },
        (CleanupPhase::InheritTopology, CleanupFact::Window { listed, zoomed: _ }) => {
            if !listed {
                return ask(c, actor, CleanupPhase::RecordBefore, CleanupCommand::Topology);
            }
            let mut kept = actor;
            kept.zoom_hooks = c.hooks;
            kept.pending_cleanup = Some(
                PendingZoomCleanup { window: c.window, pane: c.pane, hooks: c.hooks },
            );
            let mut end = end_with(ZoomCleanupOutcome::NotNeeded);
            end.claim = true;
            finish(c, kept, end)
        },
        (CleanupPhase::RecordBefore, CleanupFact::Window { listed, zoomed }) => {
            let mut seen = c;
            seen.was_listed = listed;
            seen.was_zoomed = zoomed;
            if zoomed {
                ask(
                    seen,
                    actor,
                    CleanupPhase::RecordRestore,
                    CleanupCommand::RestoreWindow(c.window),
                )
            } else {
                ask(seen, actor, CleanupPhase::RecordAfter, CleanupCommand::Topology)
            }
        },
        (CleanupPhase::RecordRestore, CleanupFact::Sent) => ask(
            c,
            actor,
            CleanupPhase::RecordAfter,
            CleanupCommand::Topology,
        ),
        (CleanupPhase::RecordAfter, CleanupFact::Window { listed: _, zoomed }) => if zoomed {
            finish(c, actor, end_lost(c.goal, missing))
        } else {
            ask(c, actor, CleanupPhase::RecordHooks, CleanupCommand::Hooks)
        },
        (CleanupPhase::RecordHooks, CleanupFact::Hooks(state)) => match state {
            ZoomRecoveryHookState::Replaced => finish(c, actor, end_lost(c.goal, missing)),
            ZoomRecoveryHookState::Absent => (
                go(c, CleanupPhase::RecordClear),
                actor,
                CleanupAction::ClearRecord,
            ),
            ZoomRecoveryHookState::Owned => match c.hooks {
                Some(hooks) => ask(
                    c,
                    actor,
                    CleanupPhase::RecordRemove,
                    CleanupCommand::RemoveHooks(hooks),
                ),
                None => finish(c, actor, end_lost(c.goal, missing)),
            },
        },
        (CleanupPhase::RecordRemove, CleanupFact::Sent) => ask(
            c,
            actor,
            CleanupPhase::RecordAbsent,
            CleanupCommand::Hooks,
        ),
        (CleanupPhase::RecordAbsent, CleanupFact::Absent(gone)) => if gone {
            (go(c, CleanupPhase::RecordClear), actor, CleanupAction::ClearRecord)
        } else {
            finish(c, actor, end_lost(c.goal, missing))
        },
        (CleanupPhase::RecordClear, CleanupFact::Cleared(cleared)) => {
            if !cleared {
                return finish(c, actor, end_lost(c.goal, FlowFailure::Stale));
            }
            let mut end = end_with(
                if c.was_listed && c.was_zoomed {
                    ZoomCleanupOutcome::RestoredConfirmed
                } else {
                    ZoomCleanupOutcome::NotNeeded
                },
            );
            end.clear_owned = true;
            finish(
                c,
                ZoomActor { zoom_hooks: None, pending_cleanup: None, pending_ownership: None },
                end,
            )
        },
        (CleanupPhase::Classify, CleanupFact::Hooks(state)) => match state {
            ZoomRecoveryHookState::Replaced => finish(
                c,
                actor,
                end_lost(CleanupGoal::Restore, missing),
            ),
            _ => {
                let mut seen = c;
                seen.owned = state == ZoomRecoveryHookState::Owned;
                ask(seen, actor, CleanupPhase::Before, CleanupCommand::Topology)
            },
        },
        (CleanupPhase::Classify, _) => finish(
            c,
            actor,
            end_lost(CleanupGoal::Restore, failure_of(fact)),
        ),
        (CleanupPhase::Before, CleanupFact::Window { listed, zoomed: _ }) => {
            if listed {
                return ask(
                    c,
                    actor,
                    CleanupPhase::Restoring,
                    CleanupCommand::RestoreWindow(c.window),
                );
            }
            match c.hooks {
                Some(_) => {
                    let mut only = c;
                    only.only = HooksOnly::WindowGone;
                    ask(only, actor, CleanupPhase::OnlyHooks, CleanupCommand::Hooks)
                },
                None => {
                    let mut end = end_with(ZoomCleanupOutcome::NotNeeded);
                    end.clear_owned = true;
                    finish(c, actor, end)
                },
            }
        },
        (CleanupPhase::Before, _) => finish(
            c,
            actor,
            end_with(ZoomCleanupOutcome::UnconfirmedOrFailed),
        ),
        (CleanupPhase::Restoring, CleanupFact::Sent) => ask(
            c,
            actor,
            CleanupPhase::After,
            CleanupCommand::Topology,
        ),
        (CleanupPhase::Restoring, CleanupFact::NotRendered) => finish(
            c,
            actor,
            end_with(ZoomCleanupOutcome::UnconfirmedOrFailed),
        ),
        (CleanupPhase::Restoring, _) => {
            let mut end = end_with(ZoomCleanupOutcome::UnconfirmedOrFailed);
            end.clear_owned = true;
            finish(c, actor, end)
        },
        (CleanupPhase::After, _) => {
            let mut seen = c;
            match fact {
                CleanupFact::Window { listed, zoomed } => {
                    seen.after_read = true;
                    seen.after_listed = listed;
                    seen.after_zoomed = zoomed;
                },
                _ => {
                    seen.after_read = false;
                },
            }
            if c.hooks.is_some() && c.owned {
                seen.only = HooksOnly::AfterRestore;
                ask(seen, actor, CleanupPhase::OnlyHooks, CleanupCommand::Hooks)
            } else {
                finish_restore(seen, actor, true)
            }
        },
        (CleanupPhase::OnlyHooks, CleanupFact::Hooks(state)) => match state {
            ZoomRecoveryHookState::Absent => finish_only(c, actor, true),
            ZoomRecoveryHookState::Replaced => finish_only(c, actor, false),
            ZoomRecoveryHookState::Owned => match c.hooks {
                Some(hooks) => ask(
                    c,
                    actor,
                    CleanupPhase::OnlyRemove,
                    CleanupCommand::RemoveHooks(hooks),
                ),
                None => finish_only(c, actor, false),
            },
        },
        (CleanupPhase::OnlyHooks, _) => finish_only(c, actor, false),
        (CleanupPhase::OnlyRemove, CleanupFact::Sent) => ask(
            c,
            actor,
            CleanupPhase::OnlyAbsent,
            CleanupCommand::Hooks,
        ),
        (CleanupPhase::OnlyRemove, _) => finish_only(c, actor, false),
        (CleanupPhase::OnlyAbsent, CleanupFact::Absent(gone)) => finish_only(c, actor, gone),
        (CleanupPhase::OnlyAbsent, _) => finish_only(c, actor, false),
        _ => finish(c, actor, end_lost(c.goal, failure_of(fact))),
    }
}

/// A cleanup of a durable record, before its first step.
pub open spec fn of_record(goal: CleanupGoal, record: ZoomRecord) -> ZoomCleanup {
    ZoomCleanup {
        goal,
        phase: if goal == CleanupGoal::Inherit {
            CleanupPhase::InheritHooks
        } else {
            CleanupPhase::RecordBefore
        },
        window: record.window,
        pane: record.pane,
        hooks: Some(record.hooks),
        was_listed: false,
        was_zoomed: false,
        owned: false,
        after_read: false,
        after_listed: false,
        after_zoomed: false,
        only: HooksOnly::NoTarget,
    }
}

/// A cleanup without a durable record, before its first step.
pub open spec fn of_target(
    phase: CleanupPhase,
    window: u64,
    pane: u64,
    hooks: Option<ZoomRecoveryHookAllocation>,
) -> ZoomCleanup {
    ZoomCleanup {
        goal: CleanupGoal::Restore,
        phase,
        window,
        pane,
        hooks,
        was_listed: false,
        was_zoomed: false,
        owned: false,
        after_read: false,
        after_listed: false,
        after_zoomed: false,
        only: HooksOnly::NoTarget,
    }
}

/// How a restore without a durable record begins.  The actor's own target
/// comes before the shared one.  Without a target, hooks that cannot be tied
/// to a window are left alone.
pub open spec fn restore_begin(
    actor: ZoomActor,
    shared_owned: Option<PendingZoomCleanup>,
    shared_window: Option<u64>,
) -> (ZoomCleanup, ZoomActor, CleanupAction) {
    let target = if actor.pending_cleanup is Some {
        actor.pending_cleanup
    } else {
        shared_owned
    };
    let hooks = selection::cleanup_hooks(target, actor.zoom_hooks);
    let kept = ZoomActor {
        zoom_hooks: if hooks is Some {
            hooks
        } else {
            actor.zoom_hooks
        },
        pending_cleanup: None,
        ..actor
    };
    match target {
        Some(t) => if hooks is Some {
            (
                of_target(CleanupPhase::Classify, t.window, t.pane, hooks),
                kept,
                CleanupAction::Query(CleanupCommand::Hooks),
            )
        } else {
            (
                of_target(CleanupPhase::Before, t.window, t.pane, hooks),
                kept,
                CleanupAction::Query(CleanupCommand::Topology),
            )
        },
        None => match (hooks, shared_window) {
            (Some(_), Some(window)) => (
                of_target(CleanupPhase::OnlyHooks, window, 0, hooks),
                kept,
                CleanupAction::Query(CleanupCommand::Hooks),
            ),
            (Some(_), None) => over(
                of_target(CleanupPhase::Ended, 0, 0, hooks),
                (kept, ended(ZoomCleanupOutcome::UnconfirmedOrFailed)),
            ),
            (None, _) => over(
                of_target(CleanupPhase::Ended, 0, 0, hooks),
                (kept, CleanupEnd { clear_pending: true, ..ended(ZoomCleanupOutcome::NotNeeded) }),
            ),
        },
    }
}

/// The panes of a reply, by what the owned window needs of them.
pub open spec fn view_listed(panes: Seq<PaneInfoView>, window: u64) -> bool {
    exists|i: int| 0 <= i < panes.len() && (#[trigger] panes[i]).window_id == window
}

pub open spec fn view_zoomed(panes: Seq<PaneInfoView>, window: u64) -> bool {
    exists|i: int|
        0 <= i < panes.len() && (#[trigger] panes[i]).window_id == window && panes[i].zoomed
}

proof fn lemma_views(panes: Seq<PaneInfo>, window: u64)
    ensures
        view_listed(topology::pane_info_views(panes), window) == selection::window_listed(panes, window),
        view_zoomed(topology::pane_info_views(panes), window) == selection::window_zoomed(panes, window),
{
    let v = topology::pane_info_views(panes);
    if selection::window_listed(panes, window) {
        let i = choose|i: int| 0 <= i < panes.len() && (#[trigger] panes[i]).window_id == window;
        assert(v[i].window_id == window);
    }
    if view_listed(v, window) {
        let i = choose|i: int| 0 <= i < v.len() && (#[trigger] v[i]).window_id == window;
        assert(panes[i].window_id == window);
    }
    if selection::window_zoomed(panes, window) {
        let i = choose|i: int|
            0 <= i < panes.len() && (#[trigger] panes[i]).window_id == window && panes[i].zoomed;
        assert(v[i].window_id == window && v[i].zoomed);
    }
    if view_zoomed(v, window) {
        let i = choose|i: int|
            0 <= i < v.len() && (#[trigger] v[i]).window_id == window && v[i].zoomed;
        assert(panes[i].window_id == window && panes[i].zoomed);
    }
}

/// What the environment hands back.
pub enum CleanupReply {
    Blocks(Vec<CommandBlock>),
    Failed(FlowFailure),
    /// The command could not be rendered; nothing was sent.
    NotRendered,
    Cleared(bool),
}

/// The fact that a reply gives to a cleanup.
pub open spec fn fact_in(c: ZoomCleanup, session: Seq<char>, reply: CleanupReply) -> CleanupFact {
    match reply {
        CleanupReply::Failed(e) => CleanupFact::Failed(e),
        CleanupReply::NotRendered => CleanupFact::NotRendered,
        CleanupReply::Cleared(cleared) => if awaited_in(c.phase) == Awaited::Clearing {
            CleanupFact::Cleared(cleared)
        } else {
            CleanupFact::Failed(FlowFailure::TmuxProtocol)
        },
        CleanupReply::Blocks(blocks) => match (awaited_in(c.phase), c.hooks) {
            (Awaited::Window, _) => match topology::pane_lines(topology::block_lines(blocks@)) {
                Ok(panes) => CleanupFact::Window {
                    listed: view_listed(panes, c.window),
                    zoomed: view_zoomed(panes, c.window),
                },
                Err(e) => CleanupFact::Failed(e),
            },
            (Awaited::Hooks, Some(hooks)) => match hooks::hooks_state(
                topology::joined_lines(topology::block_lines(blocks@)),
                hooks.index,
                session,
                c.window,
            ) {
                Ok(state) => CleanupFact::Hooks(state),
                Err(_) => CleanupFact::Failed(FlowFailure::TmuxProtocol),
            },
            (Awaited::Absence, Some(hooks)) => match hooks::absent_from(
                hooks::hook_lines(topology::joined_lines(topology::block_lines(blocks@))),
                hooks.index,
            ) {
                Ok(gone) => CleanupFact::Absent(gone),
                Err(_) => CleanupFact::Failed(FlowFailure::TmuxProtocol),
            },
            (Awaited::Acknowledgement, _) => CleanupFact::Sent,
            _ => CleanupFact::Failed(FlowFailure::TmuxProtocol),
        },
    }
}

/// A command's text in a session.
pub open spec fn cleanup_text(command: CleanupCommand, session: Seq<char>) -> Result<
    Seq<char>,
    CommandArgumentError,
> {
    match command {
        CleanupCommand::Topology => commands::list_panes_for_session_text(session),
        CleanupCommand::Hooks => show_hooks_text(session),
        CleanupCommand::RestoreWindow(window) => commands::restore_layout_for_session_window_text(
            session,
            window,
        ),
        CleanupCommand::RemoveHooks(hooks) => hooks::remove_for_session(session, hooks.index),
    }
}

/// Lists the hooks of the exact session.
pub open spec fn show_hooks_text(session: Seq<char>) -> Result<Seq<char>, CommandArgumentError> {
    match quote::session_target_text(session) {
        Ok(target) => Ok("show-hooks -t "@ + target + ":"@),
        Err(e) => Err(e),
    }
}

pub fn show_hooks_command(session: &str) -> (r: Result<String, CommandArgumentError>)
    ensures
        quote::said(r) == show_hooks_text(session@),
{
    match session_target_for_hooks(session) {
        Ok(target) => {
            let mut command = String::from_str("show-hooks -t ");
            command.append(target.as_str());
            command.append(":");
            Ok(command)
        },
        Err(e) => Err(e),
    }
}

impl CleanupCommand {
    /// The text to send; a session that cannot be targeted is a protocol
    /// failure.
    pub fn render(self, session: &str) -> (r: Result<String, FlowFailure>)
        ensures
            match r {
                Ok(text) => cleanup_text(self, session@) == Ok::<Seq<char>, CommandArgumentError>(
                    text@,
                ),
                Err(e) => e == FlowFailure::TmuxProtocol && cleanup_text(self, session@) is Err,
            },
    {
        let text = match self {
            CleanupCommand::Topology => list_panes_command_for_session(session),
            CleanupCommand::Hooks => show_hooks_command(session),
            CleanupCommand::RestoreWindow(window) => restore_layout_command_for_session_window(
                session,
                window,
            ),
            CleanupCommand::RemoveHooks(hooks) => remove_zoom_recovery_hooks_command_for_session(
                session,
                hooks,
            ),
        };
        match text {
            Ok(text) => Ok(text),
            Err(_) => Err(FlowFailure::TmuxProtocol),
        }
    }
}

fn awaited(phase: CleanupPhase) -> (r: Awaited)
    ensures
        r == awaited_in(phase),
{
    match phase {
        CleanupPhase::InheritHooks => Awaited::Hooks,
        CleanupPhase::RecordHooks => Awaited::Hooks,
        CleanupPhase::Classify => Awaited::Hooks,
        CleanupPhase::OnlyHooks => Awaited::Hooks,
        CleanupPhase::InheritTopology => Awaited::Window,
        CleanupPhase::RecordBefore => Awaited::Window,
        CleanupPhase::RecordAfter => Awaited::Window,
        CleanupPhase::Before => Awaited::Window,
        CleanupPhase::After => Awaited::Window,
        CleanupPhase::RecordAbsent => Awaited::Absence,
        CleanupPhase::OnlyAbsent => Awaited::Absence,
        CleanupPhase::RecordRestore => Awaited::Acknowledgement,
        CleanupPhase::RecordRemove => Awaited::Acknowledgement,
        CleanupPhase::Restoring => Awaited::Acknowledgement,
        CleanupPhase::OnlyRemove => Awaited::Acknowledgement,
        CleanupPhase::RecordClear => Awaited::Clearing,
        CleanupPhase::Ended => Awaited::Clearing,
    }
}

impl ZoomCleanup {
    /// Begins to reconcile or to inherit a durable record.
    pub fn begin_record(goal: CleanupGoal, record: ZoomRecord) -> (r: (Self, CleanupAction))
        ensures
            r.0 == of_record(goal, record),
            r.1 == CleanupAction::Query(
                if goal == CleanupGoal::Inherit {
                    CleanupCommand::Hooks
                } else {
                    CleanupCommand::Topology
                },
            ),
    {
        let inherit = goal == CleanupGoal::Inherit;
        (
            ZoomCleanup {
                goal,
                phase: if inherit {
                    CleanupPhase::InheritHooks
                } else {
                    CleanupPhase::RecordBefore
                },
                window: record.window,
                pane: record.pane,
                hooks: Some(record.hooks),
                was_listed: false,
                was_zoomed: false,
                owned: false,
                after_read: false,
                after_listed: false,
                after_zoomed: false,
                only: HooksOnly::NoTarget,
            },
            CleanupAction::Query(
                if inherit {
                    CleanupCommand::Hooks
                } else {
                    CleanupCommand::Topology
                },
            ),
        )
    }

    fn target(
        phase: CleanupPhase,
        window: u64,
        pane: u64,
        hooks: Option<ZoomRecoveryHookAllocation>,
    ) -> (r: Self)
        ensures
            r == of_target(phase, window, pane, hooks),
    {
        ZoomCleanup {
            goal: CleanupGoal::Restore,
            phase,
            window,
            pane,
            hooks,
            was_listed: false,
            was_zoomed: false,
            owned: false,
            after_read: false,
            after_listed: false,
            after_zoomed: false,
            only: HooksOnly::NoTarget,
        }
    }

    /// Begins the restore at the end of a connection.  A record that belongs
    /// to another runtime must not receive commands; a record of this runtime
    /// is reconciled.
    pub fn begin_restore(
        record: Result<Option<ZoomRecord>, FlowFailure>,
        actor: ZoomActor,
        shared_owned: Option<PendingZoomCleanup>,
        shared_window: Option<u64>,
    ) -> (r: (Self, ZoomActor, CleanupAction))
        ensures
            match record {
                Err(e) => r == over(
                    of_target(CleanupPhase::Ended, 0, 0, None),
                    (actor, record_failed(CleanupGoal::Restore, e)),
                ),
                Ok(Some(record)) => r == (
                    of_record(CleanupGoal::Restore, record),
                    actor,
                    CleanupAction::Query(CleanupCommand::Topology),
                ),
                Ok(None) => r == restore_begin(actor, shared_owned, shared_window),
            },
    {
        match record {
            Err(e) => {
                return finish(
                    Self::target(CleanupPhase::Ended, 0, 0, None),
                    actor,
                    end_lost(CleanupGoal::Restore, e),
                );
            },
            Ok(Some(record)) => {
                let (cleanup, action) = Self::begin_record(CleanupGoal::Restore, record);
                return (cleanup, actor, action);
            },
            Ok(None) => {},
        }
        let target = select_zoom_cleanup_target(actor.pending_cleanup, shared_owned);
        let hooks = zoom_cleanup_hook_allocation(target, actor.zoom_hooks);
        let mut kept = actor;
        kept.pending_cleanup = None;
        if hooks.is_some() {
            kept.zoom_hooks = hooks;
        }
        match target {
            Some(t) => if hooks.is_some() {
                (
                    Self::target(CleanupPhase::Classify, t.window, t.pane, hooks),
                    kept,
                    CleanupAction::Query(CleanupCommand::Hooks),
                )
            } else {
                (
                    Self::target(CleanupPhase::Before, t.window, t.pane, hooks),
                    kept,
                    CleanupAction::Query(CleanupCommand::Topology),
                )
            },
            None => match (hooks, shared_window) {
                (Some(_), Some(window)) => (
                    Self::target(CleanupPhase::OnlyHooks, window, 0, hooks),
                    kept,
                    CleanupAction::Query(CleanupCommand::Hooks),
                ),
                (Some(_), None) => finish(
                    Self::target(CleanupPhase::Ended, 0, 0, hooks),
                    kept,
                    end_with(ZoomCleanupOutcome::UnconfirmedOrFailed),
                ),
                (None, _) => {
                    let mut end = end_with(ZoomCleanupOutcome::NotNeeded);
                    end.clear_pending = true;
                    finish(Self::target(CleanupPhase::Ended, 0, 0, hooks), kept, end)
                },
            },
        }
    }

    /// Reads a reply.
    pub fn read(&self, session: &str, reply: &CleanupReply) -> (r: CleanupFact)
        ensures
            r == fact_in(*self, session@, *reply),
    {
        match reply {
            CleanupReply::Failed(e) => CleanupFact::Failed(*e),
            CleanupReply::NotRendered => CleanupFact::NotRendered,
            CleanupReply::Cleared(cleared) => match awaited(self.phase) {
                Awaited::Clearing => CleanupFact::Cleared(*cleared),
                _ => CleanupFact::Failed(FlowFailure::TmuxProtocol),
            },
            CleanupReply::Blocks(blocks) => match (awaited(self.phase), self.hooks) {
                (Awaited::Window, _) => match parse_cleanup_panes(blocks) {
                    Ok(panes) => {
                        proof {
                            lemma_views(panes@, self.window);
                        }
                        CleanupFact::Window {
                            listed: is_window_listed(panes.as_slice(), self.window),
                            zoomed: is_window_zoomed(panes.as_slice(), self.window),
                        }
                    },
                    Err(e) => CleanupFact::Failed(e),
                },
                (Awaited::Hooks, Some(hooks)) => {
                    let listing = joined_reply(blocks);
                    match zoom_recovery_hooks_state(
                        listing.as_slice(),
                        hooks,
                        session,
                        self.window,
                    ) {
                        Ok(state) => CleanupFact::Hooks(state),
                        Err(()) => CleanupFact::Failed(FlowFailure::TmuxProtocol),
                    }
                },
                (Awaited::Absence, Some(hooks)) => {
                    let listing = joined_reply(blocks);
                    match zoom_recovery_hooks_absent(listing.as_slice(), hooks) {
                        Ok(gone) => CleanupFact::Absent(gone),
                        Err(()) => CleanupFact::Failed(FlowFailure::TmuxProtocol),
                    }
                },
                (Awaited::Acknowledgement, _) => CleanupFact::Sent,
                _ => CleanupFact::Failed(FlowFailure::TmuxProtocol),
            },
        }
    }

    /// Reads a reply and decides on it.
    pub fn resume(self, actor: ZoomActor, session: &str, reply: &CleanupReply) -> (r: (
        Self,
        ZoomActor,
        CleanupAction,
    ))
        ensures
            r == advanced(self, actor, fact_in(self, session@, *reply)),
    {
        let fact = self.read(session, reply);
        advance(self, actor, fact)
    }
}

/// The only command that is safe to send after the hooks of a record were
/// classified.  Replaced hooks belong to someone else.
pub fn release_record_hooks_command(
    hook_state: ZoomRecoveryHookState,
    session: &str,
    allocation: ZoomRecoveryHookAllocation,
) -> (r: Result<Option<String>, FlowFailure>)
    ensures
        match hook_state {
            ZoomRecoveryHookState::Absent => r == Ok::<Option<String>, FlowFailure>(None),
            ZoomRecoveryHookState::Replaced => r == Err::<Option<String>, FlowFailure>(
                FlowFailure::TmuxRuntimeMissing,
            ),
            ZoomRecoveryHookState::Owned => match hooks::remove_for_session(session@, allocation.index) {
                Ok(text) => r matches Ok(Some(command)) && command@ == text,
                Err(_) => r == Err::<Option<String>, FlowFailure>(FlowFailure::TmuxProtocol),
            },
        },
{
    match hook_state {
        ZoomRecoveryHookState::Absent => Ok(None),
        ZoomRecoveryHookState::Owned => match remove_zoom_recovery_hooks_command_for_session(
            session,
            allocation,
        ) {
            Ok(command) => Ok(Some(command)),
            Err(_) => Err(FlowFailure::TmuxProtocol),
        },
        ZoomRecoveryHookState::Replaced => Err(FlowFailure::TmuxRuntimeMissing),
    }
}

/// Hooks are unset only in answer to a readback that shows them as ours, and
/// only the hooks of this cleanup.
pub proof fn law_only_owned_hooks_are_removed(c: ZoomCleanup, actor: ZoomActor, fact: CleanupFact)
    ensures
        advanced(c, actor, fact).2 matches CleanupAction::Query(CleanupCommand::RemoveHooks(h))
            ==> fact == CleanupFact::Hooks(ZoomRecoveryHookState::Owned) && c.hooks == Some(h),
{
}

/// A layout is changed only in the owned window, and only in answer to a
/// topology that lists it.
pub proof fn law_only_the_owned_window_is_restored(
    c: ZoomCleanup,
    actor: ZoomActor,
    fact: CleanupFact,
)
    ensures
        advanced(c, actor, fact).2 matches CleanupAction::Query(CleanupCommand::RestoreWindow(w))
            ==> w == c.window && (fact matches CleanupFact::Window { listed, zoomed } && (listed
            || zoomed)),
{
}

/// How far a cleanup is from its end.
pub open spec fn distance(phase: CleanupPhase) -> nat {
    match phase {
        CleanupPhase::InheritHooks => 12,
        CleanupPhase::InheritTopology => 11,
        CleanupPhase::RecordBefore => 10,
        CleanupPhase::RecordRestore => 9,
        CleanupPhase::RecordAfter => 8,
        CleanupPhase::RecordHooks => 7,
        CleanupPhase::RecordRemove => 6,
        CleanupPhase::RecordAbsent => 5,
        CleanupPhase::RecordClear => 4,
        CleanupPhase::Classify => 7,
        CleanupPhase::Before => 6,
        CleanupPhase::Restoring => 5,
        CleanupPhase::After => 4,
        CleanupPhase::OnlyHooks => 3,
        CleanupPhase::OnlyRemove => 2,
        CleanupPhase::OnlyAbsent => 1,
        CleanupPhase::Ended => 0,
    }
}

/// Every cleanup ends: each reply brings it nearer to its end, whatever the
/// reply says.
pub proof fn law_cleanup_ends(c: ZoomCleanup, actor: ZoomActor, fact: CleanupFact)
    requires
        c.phase != CleanupPhase::Ended,
    ensures
        distance(advanced(c, actor, fact).0.phase) < distance(c.phase),
        advanced(c, actor, fact).0.phase == CleanupPhase::Ended <==> advanced(
            c,
            actor,
            fact,
        ).2 is Done,
{
}

/// A failed reply is never taken for a success: it does not lead to a sure
/// outcome, unless it is the topology after a restore, and then the outcome
/// is unsure as well.
pub proof fn law_failure_is_never_success(c: ZoomCleanup, actor: ZoomActor, e: FlowFailure)
    ensures
        advanced(c, actor, CleanupFact::Failed(e)).2 matches CleanupAction::Done(end) ==> !sure(
            end.outcome,
        ),
        advanced(c, actor, CleanupFact::NotRendered).2 matches CleanupAction::Done(end) ==> !sure(
            end.outcome,
        ),
{
}

/// A restore that was never sent gives up nothing: the zoom stays owned, and
/// the outcome is unsure.
pub proof fn law_an_unsent_restore_keeps_the_zoom(c: ZoomCleanup, actor: ZoomActor)
    requires
        c.phase == CleanupPhase::Restoring,
    ensures
        advanced(c, actor, CleanupFact::NotRendered) == over(
            c,
            (actor, ended(ZoomCleanupOutcome::UnconfirmedOrFailed)),
        ),
        !ended(ZoomCleanupOutcome::UnconfirmedOrFailed).clear_owned,
{
}

/// Hooks that someone else replaced stay, and the cleanup does not claim to
/// have released them.
pub proof fn law_replaced_hooks_are_left_alone(c: ZoomCleanup, actor: ZoomActor)
    requires
        awaited_in(c.phase) == Awaited::Hooks,
    ensures
        advanced(c, actor, CleanupFact::Hooks(ZoomRecoveryHookState::Replaced)).2
            matches CleanupAction::Done(end) && !sure(end.outcome) && (end.record_failure
            || end.failure is Some || c.phase == CleanupPhase::OnlyHooks),
{
}

/// Whether an explicit end has a zoom or hooks to clean up: what the controller
/// itself remembers, what the shared state owns, or a durable record.
pub fn has_cleanup_intent(
    actor: ZoomActor,
    owned: Option<PendingZoomCleanup>,
    record: Option<ZoomRecord>,
) -> (r: bool)
    ensures
        r == (actor.pending_cleanup is Some || actor.pending_ownership is Some || actor.zoom_hooks
            is Some || owned is Some || record is Some),
{
    actor.pending_cleanup.is_some() || actor.pending_ownership.is_some()
        || actor.zoom_hooks.is_some() || owned.is_some() || record.is_some()
}

/// The zoom that the shared state owns once a cleanup has ended: that of the
/// inherited record, where the connection is still the same; none, where the
/// cleanup gave it up; else what it was.
pub open spec fn settled_zoom(
    end: CleanupEnd,
    claimed: Option<PendingZoomCleanup>,
    same_connection: bool,
    before: (bool, Option<u64>, Option<u64>),
) -> (bool, Option<u64>, Option<u64>) {
    if end.claim && same_connection && claimed is Some {
        (true, Some(claimed->0.window), Some(claimed->0.pane))
    } else if end.clear_owned {
        (false, None, None)
    } else {
        before
    }
}

/// Publishes how a cleanup ended.  `claimed` is the zoom that the controller
/// took over, and `generation` its connection.
pub fn settle_cleanup(
    state: &mut SessionState,
    end: CleanupEnd,
    claimed: Option<PendingZoomCleanup>,
    generation: u64,
)
    ensures
        ({
            let zoom = settled_zoom(
                end,
                claimed,
                old(state).generation == generation,
                state::zoom_ownership(*old(state)),
            );
            *final(state) == (SessionState {
                meeterm_zoomed: zoom.0,
                meeterm_zoomed_window: zoom.1,
                meeterm_zoomed_pane: zoom.2,
                ..*old(state)
            })
        }),
{
    if end.clear_owned {
        state.meeterm_zoomed = false;
        state.meeterm_zoomed_window = None;
        state.meeterm_zoomed_pane = None;
    }
    if end.claim && state.generation == generation {
        match claimed {
            Some(zoom) => {
                state.meeterm_zoomed = true;
                state.meeterm_zoomed_window = Some(zoom.window);
                state.meeterm_zoomed_pane = Some(zoom.pane);
            },
            None => {},
        }
    }
}

} // verus!
