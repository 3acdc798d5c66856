//! Selecting a pane: an earlier zoom of ours is returned first, a zoom of the
//! desktop is kept, and a new zoom is guarded by hooks before it is made.

use vstd::prelude::*;
use vstd::string::*;

use crate::tmux::quote;
use crate::tmux::hooks;
use crate::tmux::commands;
use crate::ssh::topology;
use crate::ssh::selection;
use crate::ssh::cleanup;
use crate::ssh::cleanup::{show_hooks_command, ZoomActor, ZoomRecord};
use crate::ssh::flow::FlowFailure;
use crate::ssh::selection::{
    pending_zoom_cleanup_after_send, pending_zoom_cleanup_before_send, selection_is_zoomed,
    shared_zoom_cleanup_target, PendingZoomCleanup, SelectionObservation,
};
use crate::ssh::state::SessionState;
use crate::ssh::topology::joined_reply;
use crate::tmux::commands::{
    restore_layout_command_for_session_window, select_pane_command_for_session,
};
use crate::tmux::decoder::CommandBlock;
use crate::tmux::error::CommandArgumentError;
use crate::tmux::hooks::{
    choose_zoom_recovery_hook, install_zoom_recovery_hooks_command_for_session,
    remove_zoom_recovery_hooks_command_for_session, ZoomRecoveryHookAllocation,
    ZOOM_RECOVERY_HOOK_INDEX_LIMIT, ZOOM_RECOVERY_HOOK_INDEX_START,
};
use crate::tmux::snapshot::{SessionSnapshot, WindowSnapshot};

verus! {

/// A selection to be made.  A strict recovery does not publish it; an initial
/// one brings what its own readback observed.
#[derive(Clone, Copy, Debug, PartialEq, Eq, Structural)]
pub struct SelectRequest {
    pub window: u64,
    pub pane: u64,
    pub publish: bool,
    pub observation: Option<SelectionObservation>,
}

#[derive(Clone, Copy, Debug, PartialEq, Eq, Structural)]
pub enum SelectCommand {
    /// Return an owned window to its ordinary layout.
    RestoreWindow(u64),
    ShowHooks,
    /// Select and keep the zoom that the desktop made.
    KeepZoom { window: u64, pane: u64, remove: Option<ZoomRecoveryHookAllocation> },
    /// Install the recovery hooks, then select and zoom.
    Zoom { hooks: ZoomRecoveryHookAllocation, window: u64, pane: u64 },
}

#[derive(Clone, Copy, Debug, PartialEq, Eq, Structural)]
pub enum SelectPhase {
    Reconciling,
    Restoring,
    ReadingHooks,
    Moving,
    Ended,
}

/// What came back.
#[derive(Clone, Copy, Debug, PartialEq, Eq, Structural)]
pub enum SelectFact {
    /// The durable record was reconciled, or a command acknowledged.
    Acknowledged,
    /// The index that the listed hooks leave free.
    Free(Option<ZoomRecoveryHookAllocation>),
    Failed(FlowFailure),
}

#[derive(Clone, Copy, Debug, PartialEq, Eq, Structural)]
pub enum SelectAction {
    Reconcile(ZoomRecord),
    /// Send a command; the intent is recorded before it is sent.
    Query { command: SelectCommand, intent: Option<PendingZoomCleanup> },
    /// The selection is made; the zoom is the desktop's or ours.
    Done { desktop_zoom: bool },
    Failed(FlowFailure),
}

/// A selection under way.
#[derive(Clone, Copy, Debug, PartialEq, Eq, Structural)]
pub struct Selection {
    pub request: SelectRequest,
    pub previous: Option<PendingZoomCleanup>,
    pub phase: SelectPhase,
    /// The target's zoom is the desktop's.
    pub desktop_zoom: bool,
}

/// The zoom that is ours before the selection: what a durable record says,
/// else what the shared state says.
pub open spec fn previous_zoom(
    record: Option<ZoomRecord>,
    state: SessionState,
    hooks: Option<ZoomRecoveryHookAllocation>,
) -> Option<PendingZoomCleanup> {
    match record {
        Some(r) => Some(
            PendingZoomCleanup { window: r.window, pane: r.pane, hooks: Some(r.hooks) },
        ),
        None => selection::owned_zoom(state, hooks),
    }
}

pub fn previous_owner(
    record: Option<ZoomRecord>,
    state: &SessionState,
    hooks: Option<ZoomRecoveryHookAllocation>,
) -> (r: Option<PendingZoomCleanup>)
    ensures
        r == previous_zoom(record, *state, hooks),
{
    match record {
        Some(r) => Some(
            PendingZoomCleanup { window: r.window, pane: r.pane, hooks: Some(r.hooks) },
        ),
        None => shared_zoom_cleanup_target(state, hooks),
    }
}

/// The first window with this id is zoomed.
pub open spec fn snapshot_zoomed(windows: Seq<WindowSnapshot>, window: u64) -> bool
    decreases windows.len(),
{
    if windows.len() == 0 {
        false
    } else if windows[0].window_id == window {
        windows[0].zoomed
    } else {
        snapshot_zoomed(windows.skip(1), window)
    }
}

pub open spec fn snapshot_lists(windows: Seq<WindowSnapshot>, window: u64) -> bool {
    exists|i: int| 0 <= i < windows.len() && (#[trigger] windows[i]).window_id == window
}

pub fn is_snapshot_zoomed(snapshot: &SessionSnapshot, window: u64) -> (r: bool)
    ensures
        r == snapshot_zoomed(snapshot.windows@, window),
{
    let mut i: usize = 0;
    assert(snapshot.windows@.skip(0) == snapshot.windows@);
    while i < snapshot.windows.len()
        invariant
            i <= snapshot.windows@.len(),
            snapshot_zoomed(snapshot.windows@.skip(i as int), window) == snapshot_zoomed(
                snapshot.windows@,
                window,
            ),
        decreases snapshot.windows@.len() - i,
    {
        assert(snapshot.windows@.skip(i as int).skip(1) == snapshot.windows@.skip(i + 1));
        if snapshot.windows[i].window_id == window {
            return snapshot.windows[i].zoomed;
        }
        i = i + 1;
    }
    assert(snapshot.windows@.skip(i as int).len() == 0);
    false
}

pub fn is_snapshot_listed(snapshot: &SessionSnapshot, window: u64) -> (r: bool)
    ensures
        r == snapshot_lists(snapshot.windows@, window),
{
    let mut i: usize = 0;
    while i < snapshot.windows.len()
        invariant
            i <= snapshot.windows@.len(),
            forall|j: int| 0 <= j < i ==> (#[trigger] snapshot.windows@[j]).window_id != window,
        decreases snapshot.windows@.len() - i,
    {
        if snapshot.windows[i].window_id == window {
            return true;
        }
        i = i + 1;
    }
    false
}

/// What the committed snapshot says of the target and of the earlier zoom.
#[derive(Clone, Copy, Debug, PartialEq, Eq, Structural)]
pub struct SharedView {
    pub target_zoomed: bool,
    pub previous_listed: bool,
}

pub open spec fn entering(s: Selection, phase: SelectPhase) -> Selection {
    Selection { phase, ..s }
}

/// The move itself, once any earlier zoom of ours is returned.
pub open spec fn moving(s: Selection, actor: ZoomActor, shared: SharedView) -> (
    Selection,
    ZoomActor,
    SelectAction,
) {
    let r = s.request;
    let desktop = selection::desktop_zoomed(
        r.observation,
        r.window,
        r.pane,
        shared.target_zoomed,
        s.previous is Some && s.previous->0.window == r.window,
    );
    let seen = Selection { desktop_zoom: desktop, ..s };
    if desktop {
        (
            entering(seen, SelectPhase::Moving),
            actor,
            SelectAction::Query {
                command: SelectCommand::KeepZoom {
                    window: r.window,
                    pane: r.pane,
                    remove: actor.zoom_hooks,
                },
                intent: None,
            },
        )
    } else {
        match actor.zoom_hooks {
            Some(hooks) => zooming(seen, actor, hooks),
            None => (
                entering(seen, SelectPhase::ReadingHooks),
                actor,
                SelectAction::Query { command: SelectCommand::ShowHooks, intent: None },
            ),
        }
    }
}

/// The zoom, guarded by the hooks of an allocation.
pub open spec fn zooming(s: Selection, actor: ZoomActor, hooks: ZoomRecoveryHookAllocation) -> (
    Selection,
    ZoomActor,
    SelectAction,
) {
    let r = s.request;
    let ownership = PendingZoomCleanup { window: r.window, pane: r.pane, hooks: Some(hooks) };
    (
        entering(s, SelectPhase::Moving),
        ZoomActor {
            zoom_hooks: Some(hooks),
            pending_ownership: if r.publish {
                actor.pending_ownership
            } else {
                Some(ownership)
            },
            ..actor
        },
        SelectAction::Query {
            command: SelectCommand::Zoom { hooks, window: r.window, pane: r.pane },
            intent: Some(ownership),
        },
    )
}

/// How a selection begins.
pub open spec fn selection_begun(
    request: SelectRequest,
    record: Option<ZoomRecord>,
    previous: Option<PendingZoomCleanup>,
    actor: ZoomActor,
    shared: SharedView,
) -> (Selection, ZoomActor, SelectAction) {
    let s = Selection { request, previous, phase: SelectPhase::Ended, desktop_zoom: false };
    let fresh = if request.publish {
        actor
    } else {
        ZoomActor { pending_ownership: None, ..actor }
    };
    match (record, previous) {
        (Some(r), _) => (
            entering(s, SelectPhase::Reconciling),
            fresh,
            SelectAction::Reconcile(r),
        ),
        (None, Some(p)) => if shared.previous_listed {
            (
                entering(s, SelectPhase::Restoring),
                fresh,
                SelectAction::Query {
                    command: SelectCommand::RestoreWindow(p.window),
                    intent: previous,
                },
            )
        } else {
            moving(s, fresh, shared)
        },
        (None, None) => moving(s, fresh, shared),
    }
}

pub open spec fn selection_failed(s: Selection, actor: ZoomActor, fact: SelectFact) -> (
    Selection,
    ZoomActor,
    SelectAction,
) {
    (
        entering(s, SelectPhase::Ended),
        actor,
        SelectAction::Failed(
            match fact {
                SelectFact::Failed(e) => e,
                _ => FlowFailure::TmuxProtocol,
            },
        ),
    )
}

/// The decision on what came back.
pub open spec fn selection_advanced(
    s: Selection,
    actor: ZoomActor,
    shared: SharedView,
    fact: SelectFact,
) -> (Selection, ZoomActor, SelectAction) {
    match (s.phase, fact) {
        (SelectPhase::Reconciling, SelectFact::Acknowledged) => moving(s, actor, shared),
        (SelectPhase::Restoring, SelectFact::Acknowledged) => moving(s, actor, shared),
        (SelectPhase::ReadingHooks, SelectFact::Free(free)) => match free {
            Some(hooks) => zooming(s, actor, hooks),
            None => selection_failed(s, actor, SelectFact::Failed(FlowFailure::Tmux)),
        },
        (SelectPhase::Moving, SelectFact::Acknowledged) => {
            let moved = if s.desktop_zoom {
                ZoomActor { zoom_hooks: None, ..actor }
            } else {
                actor
            };
            (
                entering(s, SelectPhase::Ended),
                if s.request.publish {
                    ZoomActor { pending_cleanup: None, pending_ownership: None, ..moved }
                } else {
                    moved
                },
                SelectAction::Done { desktop_zoom: s.desktop_zoom },
            )
        },
        _ => selection_failed(s, actor, fact),
    }
}

fn enter(s: Selection, phase: SelectPhase) -> (r: Selection)
    ensures
        r == entering(s, phase),
{
    let mut next = s;
    next.phase = phase;
    next
}

fn zoom(s: Selection, actor: ZoomActor, hooks: ZoomRecoveryHookAllocation) -> (r: (
    Selection,
    ZoomActor,
    SelectAction,
))
    ensures
        r == zooming(s, actor, hooks),
{
    let ownership = PendingZoomCleanup {
        window: s.request.window,
        pane: s.request.pane,
        hooks: Some(hooks),
    };
    let mut kept = actor;
    kept.zoom_hooks = Some(hooks);
    if !s.request.publish {
        kept.pending_ownership = Some(ownership);
    }
    (
        enter(s, SelectPhase::Moving),
        kept,
        SelectAction::Query {
            command: SelectCommand::Zoom { hooks, window: s.request.window, pane: s.request.pane },
            intent: Some(ownership),
        },
    )
}

fn move_on(s: Selection, actor: ZoomActor, shared: SharedView) -> (r: (
    Selection,
    ZoomActor,
    SelectAction,
))
    ensures
        r == moving(s, actor, shared),
{
    let same = match s.previous {
        Some(p) => p.window == s.request.window,
        None => false,
    };
    let desktop = selection_is_zoomed(
        s.request.observation,
        s.request.window,
        s.request.pane,
        shared.target_zoomed,
        same,
    );
    let mut seen = s;
    seen.desktop_zoom = desktop;
    if desktop {
        return (
            enter(seen, SelectPhase::Moving),
            actor,
            SelectAction::Query {
                command: SelectCommand::KeepZoom {
                    window: s.request.window,
                    pane: s.request.pane,
                    remove: actor.zoom_hooks,
                },
                intent: None,
            },
        );
    }
    match actor.zoom_hooks {
        Some(hooks) => zoom(seen, actor, hooks),
        None => (
            enter(seen, SelectPhase::ReadingHooks),
            actor,
            SelectAction::Query { command: SelectCommand::ShowHooks, intent: None },
        ),
    }
}

fn fail(s: Selection, actor: ZoomActor, fact: SelectFact) -> (r: (
    Selection,
    ZoomActor,
    SelectAction,
))
    ensures
        r == selection_failed(s, actor, fact),
{
    let e = match fact {
        SelectFact::Failed(e) => e,
        _ => FlowFailure::TmuxProtocol,
    };
    (enter(s, SelectPhase::Ended), actor, SelectAction::Failed(e))
}

impl Selection {
    /// Begins a selection.
    pub fn begin(
        request: SelectRequest,
        record: Option<ZoomRecord>,
        previous: Option<PendingZoomCleanup>,
        actor: ZoomActor,
        shared: SharedView,
    ) -> (r: (Self, ZoomActor, SelectAction))
        ensures
            r == selection_begun(request, record, previous, actor, shared),
    {
        let s = Selection { request, previous, phase: SelectPhase::Ended, desktop_zoom: false };
        let mut fresh = actor;
        if !request.publish {
            fresh.pending_ownership = None;
        }
        match (record, previous) {
            (Some(r), _) => (
                enter(s, SelectPhase::Reconciling),
                fresh,
                SelectAction::Reconcile(r),
            ),
            (None, Some(p)) => if shared.previous_listed {
                (
                    enter(s, SelectPhase::Restoring),
                    fresh,
                    SelectAction::Query {
                        command: SelectCommand::RestoreWindow(p.window),
                        intent: previous,
                    },
                )
            } else {
                move_on(s, fresh, shared)
            },
            (None, None) => move_on(s, fresh, shared),
        }
    }

    /// Decides on what came back.
    pub fn advance(self, actor: ZoomActor, shared: SharedView, fact: SelectFact) -> (r: (
        Self,
        ZoomActor,
        SelectAction,
    ))
        ensures
            r == selection_advanced(self, actor, shared, fact),
    {
        match (self.phase, fact) {
            (SelectPhase::Reconciling, SelectFact::Acknowledged) => move_on(self, actor, shared),
            (SelectPhase::Restoring, SelectFact::Acknowledged) => move_on(self, actor, shared),
            (SelectPhase::ReadingHooks, SelectFact::Free(free)) => match free {
                Some(hooks) => zoom(self, actor, hooks),
                None => fail(self, actor, SelectFact::Failed(FlowFailure::Tmux)),
            },
            (SelectPhase::Moving, SelectFact::Acknowledged) => {
                let mut moved = actor;
                if self.desktop_zoom {
                    moved.zoom_hooks = None;
                }
                if self.request.publish {
                    moved.pending_cleanup = None;
                    moved.pending_ownership = None;
                }
                (
                    enter(self, SelectPhase::Ended),
                    moved,
                    SelectAction::Done { desktop_zoom: self.desktop_zoom },
                )
            },
            _ => fail(self, actor, fact),
        }
    }
}

/// What a reply to a selection's command tells.
pub fn read_select_reply(phase: SelectPhase, blocks: &Vec<CommandBlock>) -> (r: SelectFact)
    ensures
        phase != SelectPhase::ReadingHooks ==> r == SelectFact::Acknowledged,
        phase == SelectPhase::ReadingHooks ==> (r matches SelectFact::Free(free) && ({
            let lines = hooks::hook_lines(topology::joined_lines(topology::block_lines(blocks@)));
            match free {
                Some(a) => !hooks::malformed(lines) && ZOOM_RECOVERY_HOOK_INDEX_START <= a.index
                    < ZOOM_RECOVERY_HOOK_INDEX_LIMIT && !hooks::index_used(lines, a.index) && forall|
                    i: u32,
                |
                    ZOOM_RECOVERY_HOOK_INDEX_START <= i < a.index ==> #[trigger] hooks::index_used(
                        lines,
                        i,
                    ),
                None => hooks::malformed(lines) || forall|i: u32|
                    ZOOM_RECOVERY_HOOK_INDEX_START <= i < ZOOM_RECOVERY_HOOK_INDEX_LIMIT
                        ==> #[trigger] hooks::index_used(lines, i),
            }
        })),
{
    match phase {
        SelectPhase::ReadingHooks => {
            let listing = joined_reply(blocks);
            SelectFact::Free(choose_zoom_recovery_hook(listing.as_slice()))
        },
        _ => SelectFact::Acknowledged,
    }
}

/// Two commands, one after the other, where both can be written.
pub open spec fn both(
    a: Result<Seq<char>, CommandArgumentError>,
    b: Result<Seq<char>, CommandArgumentError>,
) -> Result<Seq<char>, CommandArgumentError> {
    match (a, b) {
        (Ok(first), Ok(second)) => Ok(first + " ; "@ + second),
        (Err(e), _) => Err(e),
        (_, Err(e)) => Err(e),
    }
}

/// A selection's command in a session.
pub open spec fn select_text(command: SelectCommand, session: Seq<char>) -> Result<
    Seq<char>,
    CommandArgumentError,
> {
    match command {
        SelectCommand::RestoreWindow(window) => commands::restore_layout_for_session_window_text(
            session,
            window,
        ),
        SelectCommand::ShowHooks => cleanup::show_hooks_text(session),
        SelectCommand::KeepZoom { window, pane, remove } => match remove {
            Some(hooks) => both(
                commands::select_pane_for_session_text(session, None, window, pane),
                hooks::remove_for_session(session, hooks.index),
            ),
            None => commands::select_pane_for_session_text(session, None, window, pane),
        },
        SelectCommand::Zoom { hooks, window, pane } => both(
            hooks::install_for_session(session, hooks.index, window),
            commands::select_pane_for_session_text(session, None, window, pane),
        ),
    }
}

fn join(
    a: Result<String, CommandArgumentError>,
    b: Result<String, CommandArgumentError>,
) -> (r: Result<String, CommandArgumentError>)
    ensures
        quote::said(r) == both(quote::said(a), quote::said(b)),
{
    match a {
        Err(e) => Err(e),
        Ok(first) => match b {
            Err(e) => Err(e),
            Ok(second) => {
                let mut command = first;
                command.append(" ; ");
                command.append(second.as_str());
                Ok(command)
            },
        },
    }
}

impl SelectCommand {
    /// The text to send; a session that cannot be targeted is a protocol
    /// failure.
    pub fn render(self, session: &str) -> (r: Result<String, FlowFailure>)
        ensures
            match r {
                Ok(text) => select_text(self, session@) == Ok::<Seq<char>, CommandArgumentError>(
                    text@,
                ),
                Err(e) => e == FlowFailure::TmuxProtocol && select_text(self, session@) is Err,
            },
    {
        let text = match self {
            SelectCommand::RestoreWindow(window) => restore_layout_command_for_session_window(
                session,
                window,
            ),
            SelectCommand::ShowHooks => show_hooks_command(session),
            SelectCommand::KeepZoom { window, pane, remove } => match remove {
                Some(hooks) => join(
                    select_pane_command_for_session(session, None, window, pane),
                    remove_zoom_recovery_hooks_command_for_session(session, hooks),
                ),
                None => select_pane_command_for_session(session, None, window, pane),
            },
            SelectCommand::Zoom { hooks, window, pane } => join(
                install_zoom_recovery_hooks_command_for_session(session, hooks, window),
                select_pane_command_for_session(session, None, window, pane),
            ),
        };
        match text {
            Ok(text) => Ok(text),
            Err(_) => Err(FlowFailure::TmuxProtocol),
        }
    }
}

/// What a request does to the actor before anything is sent.  Its epoch must
/// be current, and an intent with hooks must have been accepted as the
/// durable record; then the intent becomes the actor's cleanup target.
pub open spec fn opened(
    actor: ZoomActor,
    intent: Option<PendingZoomCleanup>,
    epoch_current: bool,
    record_accepted: bool,
) -> Result<ZoomActor, FlowFailure> {
    if !epoch_current {
        Err(FlowFailure::Stale)
    } else if intent is Some && intent->0.hooks is Some && !record_accepted {
        Err(FlowFailure::TmuxRuntimeMissing)
    } else {
        Ok(
            ZoomActor {
                pending_cleanup: if intent is Some {
                    intent
                } else {
                    actor.pending_cleanup
                },
                ..actor
            },
        )
    }
}

pub fn open_query(
    actor: ZoomActor,
    intent: Option<PendingZoomCleanup>,
    epoch_current: bool,
    record_accepted: bool,
) -> (r: Result<ZoomActor, FlowFailure>)
    ensures
        r == opened(actor, intent, epoch_current, record_accepted),
{
    if !epoch_current {
        return Err(FlowFailure::Stale);
    }
    match intent {
        Some(i) => {
            if i.hooks.is_some() && !record_accepted {
                return Err(FlowFailure::TmuxRuntimeMissing);
            }
        },
        None => {},
    }
    let mut next = actor;
    next.pending_cleanup = pending_zoom_cleanup_before_send(actor.pending_cleanup, intent);
    Ok(next)
}

/// What the writer's answer, and the epoch read after it, make of a request.
pub open spec fn sent(
    actor: ZoomActor,
    intent: Option<PendingZoomCleanup>,
    writer_accepted: bool,
    epoch_current: bool,
) -> (ZoomActor, Result<(), FlowFailure>) {
    (
        ZoomActor {
            pending_cleanup: if writer_accepted && intent is Some {
                intent
            } else {
                actor.pending_cleanup
            },
            ..actor
        },
        if !writer_accepted {
            Err(FlowFailure::Transport)
        } else if !epoch_current {
            Err(FlowFailure::Stale)
        } else {
            Ok(())
        },
    )
}

pub fn sent_query(
    actor: ZoomActor,
    intent: Option<PendingZoomCleanup>,
    writer_accepted: bool,
    epoch_current: bool,
) -> (r: (ZoomActor, Result<(), FlowFailure>))
    ensures
        r == sent(actor, intent, writer_accepted, epoch_current),
{
    let mut next = actor;
    next.pending_cleanup = pending_zoom_cleanup_after_send(
        actor.pending_cleanup,
        intent,
        writer_accepted,
    );
    if !writer_accepted {
        (next, Err(FlowFailure::Transport))
    } else if !epoch_current {
        (next, Err(FlowFailure::Stale))
    } else {
        (next, Ok(()))
    }
}

/// A zoom of the desktop is kept without a claim: the command that keeps it
/// records no intent, whatever the selection and the actor were.
pub proof fn law_keeping_a_desktop_zoom_claims_nothing(
    s: Selection,
    actor: ZoomActor,
    shared: SharedView,
    fact: SelectFact,
)
    ensures
        selection_advanced(s, actor, shared, fact).2 matches SelectAction::Query { command, intent }
            ==> (command matches SelectCommand::KeepZoom { .. } ==> intent is None) && (
        command matches SelectCommand::Zoom { hooks, window, pane } ==> intent == Some(
            PendingZoomCleanup { window, pane, hooks: Some(hooks) },
        )),
{
}

/// Once a request was opened with an intent, no outcome of sending it loses
/// the intent: a rejected write and a stale epoch leave it to the cleanup.
pub proof fn law_recorded_intent_survives(
    actor: ZoomActor,
    intent: PendingZoomCleanup,
    record_accepted: bool,
    writer_accepted: bool,
    epoch_current: bool,
)
    ensures
        opened(actor, Some(intent), true, record_accepted) matches Ok(next) ==> sent(
            next,
            Some(intent),
            writer_accepted,
            epoch_current,
        ).0.pending_cleanup == Some(intent),
{
}

/// How far a selection is from its end.
pub open spec fn steps_left(phase: SelectPhase) -> nat {
    match phase {
        SelectPhase::Reconciling => 3,
        SelectPhase::Restoring => 3,
        SelectPhase::ReadingHooks => 2,
        SelectPhase::Moving => 1,
        SelectPhase::Ended => 0,
    }
}

/// Every selection ends, whatever comes back.
pub proof fn law_selection_ends(
    s: Selection,
    actor: ZoomActor,
    shared: SharedView,
    fact: SelectFact,
)
    requires
        s.phase != SelectPhase::Ended,
    ensures
        steps_left(selection_advanced(s, actor, shared, fact).0.phase) < steps_left(s.phase),
{
}

} // verus!
