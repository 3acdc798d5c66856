//! The tmux controller: how it starts, what it does with each request, and
//! how it ends.

use vstd::prelude::*;

use crate::tmux::decoder;
use crate::tmux::commands;
use crate::text;
use crate::ssh::topology;
use crate::ssh::selection;
use crate::ssh::query;
use crate::ssh::command::ControlCommand;
use crate::ssh::flow::{FlowFailure, ZoomCleanupOutcome};
use crate::ssh::query::{Dispatch, StreamState};
use crate::ssh::selection::window_of_pane;
use crate::ssh::topology::{
    first_pane_in_window, new_pane_id_since, new_window_id_since, read_topology, topology_is_safe,
    topology_session_is_safe,
};
use crate::text::same_text;
use crate::tmux::commands::{
    close_pane_command_for_session, close_workspace_command_for_session,
    create_pane_command_for_session, create_workspace_command_for_session,
    rename_pane_command_for_session, rename_workspace_command_for_session,
    send_bytes_command_for_session,
};
use crate::tmux::decoder::{CommandBlock, Decoder, Event, EventView};
use crate::tmux::error::CommandArgumentError;
use crate::tmux::records::{WindowTopology, WindowTopologyView};
use crate::tmux::snapshot::{PaneSnapshot, SessionSnapshot, WindowSnapshot};

verus! {

/// Which lifecycle boundary owns the controller's next exit.
#[derive(Clone, Copy, Debug, PartialEq, Eq, Structural)]
pub enum ControllerLoopExit {
    Cancellation,
    Recovery,
}

/// Decides on the controller's exit.  An explicit cancellation comes before a
/// recovery, so that the bounded cleanup stays available when the stopped
/// phase is visible before the cancellation is.  `explicit_requested` and
/// `cancelled_meanwhile` are read after `recovery_requires_exit`.
pub fn controller_loop_exit(
    cancelled: bool,
    recovery_requires_exit: bool,
    explicit_requested: bool,
    cancelled_meanwhile: bool,
) -> (r: Option<ControllerLoopExit>)
    ensures
        r == Some(ControllerLoopExit::Cancellation) <==> cancelled || explicit_requested || (
        recovery_requires_exit && cancelled_meanwhile),
        r == Some(ControllerLoopExit::Recovery) <==> recovery_requires_exit && !cancelled
            && !explicit_requested && !cancelled_meanwhile,
        r is None <==> !cancelled && !explicit_requested && !recovery_requires_exit,
{
    if cancelled {
        Some(ControllerLoopExit::Cancellation)
    } else if recovery_requires_exit {
        if explicit_requested || cancelled_meanwhile {
            Some(ControllerLoopExit::Cancellation)
        } else {
            Some(ControllerLoopExit::Recovery)
        }
    } else if explicit_requested {
        Some(ControllerLoopExit::Cancellation)
    } else {
        None
    }
}

/// Whether the ending controller restores the layout itself: an explicit end
/// was asked for, the connection is not yet torn down, and the remote session
/// still exists and is still ours.
pub fn controller_loop_cleanup_needed(
    explicit_requested: bool,
    cancelled: bool,
    remote_session_closed: bool,
    generation_current: bool,
) -> (r: bool)
    ensures
        r == (explicit_requested && !cancelled && !remote_session_closed && generation_current),
{
    explicit_requested && !cancelled && !remote_session_closed && generation_current
}

/// How the zoom cleanup of an ending controller is settled.
#[derive(Clone, Copy, Debug, PartialEq, Eq, Structural)]
pub enum FinalCleanup {
    /// Restore the layout on this stream and record what that proved.
    Restore,
    Record(ZoomCleanupOutcome),
}

/// Settles the zoom cleanup.  Without a readback on the same stream a cleanup
/// that was intended is never recorded as unneeded.
pub fn final_cleanup(
    cleanup_needed: bool,
    explicit_requested: bool,
    has_cleanup_intent: bool,
) -> (r: FinalCleanup)
    ensures
        r == (if cleanup_needed {
            FinalCleanup::Restore
        } else if explicit_requested && has_cleanup_intent {
            FinalCleanup::Record(ZoomCleanupOutcome::UnconfirmedOrFailed)
        } else {
            FinalCleanup::Record(ZoomCleanupOutcome::NotNeeded)
        }),
{
    if cleanup_needed {
        FinalCleanup::Restore
    } else if explicit_requested && has_cleanup_intent {
        FinalCleanup::Record(ZoomCleanupOutcome::UnconfirmedOrFailed)
    } else {
        FinalCleanup::Record(ZoomCleanupOutcome::NotNeeded)
    }
}

/// How the controller finds its session.
#[derive(Clone, Copy, Debug, PartialEq, Eq, Structural)]
pub enum Startup {
    /// Verify the selected identity and attach to it.
    VerifySelected,
    /// Resolve the configured name once, then attach to its identity.
    ResolveName,
}

/// Decides how to start.  A recovery needs the pane that was selected, and a
/// controller without a selected or named session never creates one.
pub fn plan_startup(
    has_identity: bool,
    has_name: bool,
    recovering: bool,
    selected_pane: Option<u64>,
) -> (r: Result<Startup, FlowFailure>)
    ensures
        r == (if recovering && selected_pane is None {
            Err::<Startup, FlowFailure>(FlowFailure::TmuxRuntimeMissing)
        } else if has_identity {
            Ok(Startup::VerifySelected)
        } else if has_name {
            Ok(Startup::ResolveName)
        } else {
            Err(FlowFailure::TmuxRuntimeMissing)
        }),
{
    if recovering && selected_pane.is_none() {
        Err(FlowFailure::TmuxRuntimeMissing)
    } else if has_identity {
        Ok(Startup::VerifySelected)
    } else if has_name {
        Ok(Startup::ResolveName)
    } else {
        Err(FlowFailure::TmuxRuntimeMissing)
    }
}

/// What arrives on the control channel.
pub enum ChannelMessage {
    Data(Vec<u8>),
    /// Diagnostic text, which is neither control mode nor terminal input.
    Diagnostics,
    Success,
    Failure,
    ExitStatus(u32),
    /// The channel ended.
    Closed,
    Other,
}

/// What a message before the start is accepted asks for.
pub enum ExecReply {
    Accepted,
    Events(Vec<Event>),
    Wait,
}

/// Handles a message that arrives before the start was accepted.
pub fn exec_reply(decoder: &mut Decoder, message: ChannelMessage) -> (r: Result<
    ExecReply,
    FlowFailure,
>)
    ensures
        match message {
            ChannelMessage::Data(data) => {
                &&& final(decoder)@ == decoder::fed(old(decoder)@, data@).0
                &&& match decoder::fed(old(decoder)@, data@).1 {
                    Ok(events) => r matches Ok(ExecReply::Events(out)) && decoder::event_views(out@)
                        == events,
                    Err(_) => r == Err::<ExecReply, FlowFailure>(FlowFailure::TmuxProtocol),
                }
            },
            ChannelMessage::Success => final(decoder)@ == old(decoder)@ && r == Ok::<
                ExecReply,
                FlowFailure,
            >(ExecReply::Accepted),
            ChannelMessage::Failure | ChannelMessage::Closed => final(decoder)@ == old(decoder)@
                && r == Err::<ExecReply, FlowFailure>(FlowFailure::Tmux),
            _ => final(decoder)@ == old(decoder)@ && r == Ok::<ExecReply, FlowFailure>(
                ExecReply::Wait,
            ),
        },
{
    match message {
        ChannelMessage::Data(data) => match decoder.feed(data.as_slice()) {
            Ok(events) => Ok(ExecReply::Events(events)),
            Err(_) => Err(FlowFailure::TmuxProtocol),
        },
        ChannelMessage::Success => Ok(ExecReply::Accepted),
        ChannelMessage::Failure | ChannelMessage::Closed => Err(FlowFailure::Tmux),
        _ => Ok(ExecReply::Wait),
    }
}

/// Handles a message of the running controller.  Data becomes events; the end
/// of the channel is reported as such only where no record was cut off.
pub fn channel_message(decoder: &mut Decoder, message: ChannelMessage) -> (r: Result<
    Vec<Event>,
    FlowFailure,
>)
    ensures
        match message {
            ChannelMessage::Data(data) => {
                &&& final(decoder)@ == decoder::fed(old(decoder)@, data@).0
                &&& match decoder::fed(old(decoder)@, data@).1 {
                    Ok(events) => r matches Ok(out) && decoder::event_views(out@) == events,
                    Err(_) => r == Err::<Vec<Event>, FlowFailure>(FlowFailure::TmuxProtocol),
                }
            },
            ChannelMessage::Closed => final(decoder)@ == old(decoder)@ && r == Err::<
                Vec<Event>,
                FlowFailure,
            >(
                if decoder::idle(old(decoder)@) {
                    FlowFailure::RemoteClosed
                } else {
                    FlowFailure::TmuxProtocol
                },
            ),
            ChannelMessage::ExitStatus(status) => final(decoder)@ == old(decoder)@ && if status
                != 0 {
                r == Err::<Vec<Event>, FlowFailure>(FlowFailure::Tmux)
            } else {
                r matches Ok(out) && out@.len() == 0
            },
            _ => final(decoder)@ == old(decoder)@ && (r matches Ok(out) && out@.len() == 0),
        },
{
    match message {
        ChannelMessage::Data(data) => match decoder.feed(data.as_slice()) {
            Ok(events) => Ok(events),
            Err(_) => Err(FlowFailure::TmuxProtocol),
        },
        ChannelMessage::Closed => match decoder.finish() {
            Ok(_) => Err(FlowFailure::RemoteClosed),
            Err(_) => Err(FlowFailure::TmuxProtocol),
        },
        ChannelMessage::ExitStatus(status) => if status != 0 {
            Err(FlowFailure::Tmux)
        } else {
            Ok(Vec::new())
        },
        _ => Ok(Vec::new()),
    }
}

/// What an event of tmux's startup block means.
#[derive(Clone, Copy, Debug, PartialEq, Eq, Structural)]
pub enum StartupStep {
    Attached,
    /// The event is no command block: dispatch it and go on.
    Dispatch,
    Fail(FlowFailure),
}

/// Reads the block that tmux answers the attach command with.  Attaching to an
/// exact session that fails means that the session is gone.
pub fn startup_event(event: &Event, exact_runtime: bool) -> (r: StartupStep)
    ensures
        r == (match *event {
            Event::Command(block) => if !block.error {
                StartupStep::Attached
            } else if exact_runtime {
                StartupStep::Fail(FlowFailure::TmuxRuntimeMissing)
            } else {
                StartupStep::Fail(FlowFailure::Tmux)
            },
            _ => StartupStep::Dispatch,
        }),
{
    match event {
        Event::Command(block) => if !block.error {
            StartupStep::Attached
        } else if exact_runtime {
            StartupStep::Fail(FlowFailure::TmuxRuntimeMissing)
        } else {
            StartupStep::Fail(FlowFailure::Tmux)
        },
        _ => StartupStep::Dispatch,
    }
}

/// What the controller does next.
#[derive(Clone, Copy, Debug, PartialEq, Eq, Structural)]
pub enum Turn {
    /// Dispatch the events that are already decoded.
    Drain,
    Leave(FlowFailure),
    /// Abort the routes and detach every terminal, then leave.
    DetachAndLeave(FlowFailure),
    Synchronize,
    /// Wait for a request, a pane or the channel.
    Wait,
}

/// Decides on the controller's next turn.
pub fn next_turn(has_events: bool, exit: Option<ControllerLoopExit>, dirty: bool) -> (r: Turn)
    ensures
        r == (if has_events {
            Turn::Drain
        } else {
            match exit {
                Some(ControllerLoopExit::Cancellation) => Turn::Leave(FlowFailure::Stale),
                Some(ControllerLoopExit::Recovery) => Turn::DetachAndLeave(FlowFailure::Transport),
                None => if dirty {
                    Turn::Synchronize
                } else {
                    Turn::Wait
                },
            }
        }),
{
    if has_events {
        return Turn::Drain;
    }
    match exit {
        Some(ControllerLoopExit::Cancellation) => Turn::Leave(FlowFailure::Stale),
        Some(ControllerLoopExit::Recovery) => Turn::DetachAndLeave(FlowFailure::Transport),
        None => if dirty {
            Turn::Synchronize
        } else {
            Turn::Wait
        },
    }
}

/// A change of the remote topology.
#[derive(Clone, Copy, Debug, PartialEq, Eq, Structural)]
pub enum Mutation {
    CreateWorkspace,
    RenameWorkspace { window: u64 },
    CloseWorkspace { window: u64 },
    CreatePane { window: u64 },
    RenamePane { window: u64, pane: u64 },
    /// `last` where no other pane is known.
    ClosePane { window: u64, pane: u64, last: bool },
}

/// What a request comes to.
#[derive(Clone, Copy, Debug, PartialEq, Eq, Structural)]
pub enum Program {
    Select { window: u64, pane: u64 },
    Mutate(Mutation),
    Refresh,
    Transfer { attachment: u64, remove: bool },
    /// The request belongs to another phase of the lifecycle.
    Ignore,
}

/// The program of a request, given the panes that are known.
pub open spec fn program_of(command: ControlCommand, panes: Seq<PaneSnapshot>) -> Result<
    Program,
    FlowFailure,
> {
    match command {
        ControlCommand::SelectPane { window_id, pane_id } => Ok(
            Program::Select { window: window_id, pane: pane_id },
        ),
        ControlCommand::CreateWorkspace { .. } => Ok(Program::Mutate(Mutation::CreateWorkspace)),
        ControlCommand::RenameWorkspace { window_id, .. } => Ok(
            Program::Mutate(Mutation::RenameWorkspace { window: window_id }),
        ),
        ControlCommand::CloseWorkspace { window_id } => Ok(
            Program::Mutate(Mutation::CloseWorkspace { window: window_id }),
        ),
        ControlCommand::CreatePane { window_id } => Ok(
            Program::Mutate(Mutation::CreatePane { window: window_id }),
        ),
        ControlCommand::RenamePane { pane_id, .. } => match selection::pane_window(panes, pane_id) {
            Some(window) => Ok(Program::Mutate(Mutation::RenamePane { window, pane: pane_id })),
            None => Err(FlowFailure::Stale),
        },
        ControlCommand::ClosePane { pane_id } => match selection::pane_window(panes, pane_id) {
            Some(window) => Ok(
                Program::Mutate(
                    Mutation::ClosePane { window, pane: pane_id, last: panes.len() == 1 },
                ),
            ),
            None => Err(FlowFailure::Stale),
        },
        ControlCommand::RefreshTerminal => Ok(Program::Refresh),
        ControlCommand::SftpUpload { attachment_id } => Ok(
            Program::Transfer { attachment: attachment_id, remove: false },
        ),
        ControlCommand::SftpRemove { attachment_id } => Ok(
            Program::Transfer { attachment: attachment_id, remove: true },
        ),
        ControlCommand::CreateGroup { .. } => Err(FlowFailure::TmuxProtocol),
        ControlCommand::RenameGroup { .. } => Err(FlowFailure::TmuxProtocol),
        ControlCommand::CloseGroup { .. } => Err(FlowFailure::TmuxProtocol),
        ControlCommand::SelectGroup { .. } => Err(FlowFailure::TmuxProtocol),
        _ => Ok(Program::Ignore),
    }
}

/// Reads a request.  tmux has no terminal groups; a picker's or a recovery's
/// request that was queued before is dropped.
pub fn plan_command(command: &ControlCommand, snapshot: &SessionSnapshot) -> (r: Result<
    Program,
    FlowFailure,
>)
    ensures
        r == program_of(*command, snapshot.panes@),
{
    match command {
        ControlCommand::SelectPane { window_id, pane_id } => Ok(
            Program::Select { window: *window_id, pane: *pane_id },
        ),
        ControlCommand::CreateWorkspace { .. } => Ok(Program::Mutate(Mutation::CreateWorkspace)),
        ControlCommand::RenameWorkspace { window_id, .. } => Ok(
            Program::Mutate(Mutation::RenameWorkspace { window: *window_id }),
        ),
        ControlCommand::CloseWorkspace { window_id } => Ok(
            Program::Mutate(Mutation::CloseWorkspace { window: *window_id }),
        ),
        ControlCommand::CreatePane { window_id } => Ok(
            Program::Mutate(Mutation::CreatePane { window: *window_id }),
        ),
        ControlCommand::RenamePane { pane_id, .. } => match window_of_pane(
            &snapshot.panes,
            *pane_id,
        ) {
            Some(window) => Ok(Program::Mutate(Mutation::RenamePane { window, pane: *pane_id })),
            None => Err(FlowFailure::Stale),
        },
        ControlCommand::ClosePane { pane_id } => match window_of_pane(&snapshot.panes, *pane_id) {
            Some(window) => Ok(
                Program::Mutate(
                    Mutation::ClosePane {
                        window,
                        pane: *pane_id,
                        last: snapshot.panes.len() == 1,
                    },
                ),
            ),
            None => Err(FlowFailure::Stale),
        },
        ControlCommand::RefreshTerminal => Ok(Program::Refresh),
        ControlCommand::SftpUpload { attachment_id } => Ok(
            Program::Transfer { attachment: *attachment_id, remove: false },
        ),
        ControlCommand::SftpRemove { attachment_id } => Ok(
            Program::Transfer { attachment: *attachment_id, remove: true },
        ),
        ControlCommand::CreateGroup { .. }
        | ControlCommand::RenameGroup { .. }
        | ControlCommand::CloseGroup { .. }
        | ControlCommand::SelectGroup { .. } => Err(FlowFailure::TmuxProtocol),
        _ => Ok(Program::Ignore),
    }
}

/// A rendered command, or the protocol failure that an unusable argument is.
pub open spec fn usable(r: Result<Seq<char>, CommandArgumentError>) -> Result<
    Seq<char>,
    FlowFailure,
> {
    match r {
        Ok(text) => Ok(text),
        Err(_) => Err(FlowFailure::TmuxProtocol),
    }
}

/// The command that makes a change; `name` is the new name, where it has one.
pub open spec fn mutation_text(mutation: Mutation, session: Seq<char>, name: Seq<char>) -> Result<
    Seq<char>,
    FlowFailure,
> {
    usable(
        match mutation {
            Mutation::CreateWorkspace => commands::create_workspace_for_session_text(session, name),
            Mutation::RenameWorkspace { window } => commands::rename_workspace_for_session_text(
                session,
                window,
                name,
            ),
            Mutation::CloseWorkspace { window } => commands::close_workspace_for_session_text(
                session,
                window,
            ),
            Mutation::CreatePane { window } => commands::create_pane_for_session_text(session, window),
            Mutation::RenamePane { window, pane } => commands::rename_pane_for_session_text(
                session,
                window,
                pane,
                name,
            ),
            Mutation::ClosePane { window, pane, .. } => commands::close_pane_for_session_text(
                session,
                window,
                pane,
            ),
        },
    )
}

/// A rendered command by its text.
pub open spec fn told_command(r: Result<String, FlowFailure>) -> Result<Seq<char>, FlowFailure> {
    match r {
        Ok(text) => Ok(text@),
        Err(e) => Err(e),
    }
}

/// The window of a change, where it touches one window only.
pub open spec fn touched_window(mutation: Mutation) -> Option<u64> {
    match mutation {
        Mutation::CreateWorkspace => None,
        Mutation::RenameWorkspace { window } => Some(window),
        Mutation::CloseWorkspace { window } => Some(window),
        Mutation::CreatePane { window } => Some(window),
        Mutation::RenamePane { window, .. } => Some(window),
        Mutation::ClosePane { window, .. } => Some(window),
    }
}

/// The entry is one that a change touches.
pub open spec fn touches(mutation: Mutation, entry: WindowTopologyView, session: Seq<char>) -> bool {
    &&& entry.session_id == session || entry.session_name == session
    &&& match touched_window(mutation) {
        Some(window) => entry.window_id == window,
        None => true,
    }
}

/// The topology shows what the change touches, and nothing of it is linked
/// into another session.
pub open spec fn guarded(mutation: Mutation, session: Seq<char>, reply: Seq<CommandBlock>) -> bool {
    &&& topology::topology_reply(reply) is Ok
    &&& exists|i: int|
        0 <= i < topology::topology_reply(reply)->Ok_0.len() && touches(
            mutation,
            #[trigger] topology::topology_reply(reply)->Ok_0[i],
            session,
        )
    &&& forall|i: int|
        0 <= i < topology::topology_reply(reply)->Ok_0.len() && touches(
            mutation,
            #[trigger] topology::topology_reply(reply)->Ok_0[i],
            session,
        ) ==> topology::topology_reply(reply)->Ok_0[i].linked_sessions <= 1
}

/// The window and pane that a change made.
pub open spec fn created_by(
    mutation: Mutation,
    before: SessionSnapshot,
    now: SessionSnapshot,
) -> Option<(u64, u64)> {
    match mutation {
        Mutation::CreateWorkspace => match topology::new_window(now.windows@, before.windows@) {
            None => None,
            Some(window) => match topology::window_lead(now.windows@, window) {
                None => None,
                Some(pane) => Some((window, pane)),
            },
        },
        Mutation::CreatePane { window } => match topology::new_pane(now.panes@, before.panes@, window) {
            None => None,
            Some(pane) => Some((window, pane)),
        },
        _ => None,
    }
}

proof fn lemma_guard(
    mutation: Mutation,
    session: Seq<char>,
    reply: Seq<CommandBlock>,
    entries: Seq<WindowTopology>,
)
    requires
        topology::topology_reply(reply) == Ok::<Seq<WindowTopologyView>, FlowFailure>(
            topology::topology_views(entries),
        ),
    ensures
        guarded(mutation, session, reply) == (match touched_window(mutation) {
            Some(window) => topology::window_is_private(entries, session, window),
            None => topology::session_is_private(entries, session),
        }),
{
    let views = topology::topology_views(entries);
    assert(topology::topology_reply(reply)->Ok_0 == views);
    assert forall|i: int| 0 <= i < entries.len() implies #[trigger] views[i] == entries[i]@ by {}
    match touched_window(mutation) {
        Some(window) => {
            if topology::window_is_private(entries, session, window) {
                let i = choose|i: int|
                    0 <= i < entries.len() && topology::of_session(#[trigger] entries[i], session)
                        && entries[i].window_id == window;
                assert(touches(mutation, views[i], session));
                assert(guarded(mutation, session, reply));
            }
            if guarded(mutation, session, reply) {
                let i = choose|i: int|
                    0 <= i < views.len() && touches(mutation, #[trigger] views[i], session);
                assert(topology::of_session(entries[i], session));
                assert forall|k: int|
                    0 <= k < entries.len() && topology::of_session(#[trigger] entries[k], session)
                        && entries[k].window_id == window implies entries[k].linked_sessions
                    <= 1 by {
                    assert(touches(mutation, views[k], session));
                }
            }
        },
        None => {
            if topology::session_is_private(entries, session) {
                let i = choose|i: int|
                    0 <= i < entries.len() && topology::of_session(#[trigger] entries[i], session);
                assert(touches(mutation, views[i], session));
                assert(guarded(mutation, session, reply));
            }
            if guarded(mutation, session, reply) {
                let i = choose|i: int|
                    0 <= i < views.len() && touches(mutation, #[trigger] views[i], session);
                assert(topology::of_session(entries[i], session));
                assert forall|k: int|
                    0 <= k < entries.len() && topology::of_session(
                        #[trigger] entries[k],
                        session,
                    ) implies entries[k].linked_sessions <= 1 by {
                    assert(touches(mutation, views[k], session));
                }
            }
        },
    }
}

impl Mutation {
    pub fn render(self, session: &str, name: &str) -> (r: Result<String, FlowFailure>)
        ensures
            told_command(r) == mutation_text(self, session@, name@),
    {
        let command = match self {
            Mutation::CreateWorkspace => create_workspace_command_for_session(session, name),
            Mutation::RenameWorkspace { window } => rename_workspace_command_for_session(
                session,
                window,
                name,
            ),
            Mutation::CloseWorkspace { window } => close_workspace_command_for_session(
                session,
                window,
            ),
            Mutation::CreatePane { window } => create_pane_command_for_session(session, window),
            Mutation::RenamePane { window, pane } => rename_pane_command_for_session(
                session,
                window,
                pane,
                name,
            ),
            Mutation::ClosePane { window, pane, .. } => close_pane_command_for_session(
                session,
                window,
                pane,
            ),
        };
        match command {
            Ok(text) => Ok(text),
            Err(_) => Err(FlowFailure::TmuxProtocol),
        }
    }

    /// Whether the topology that was just read allows the change: no window
    /// that it touches may be linked into another session.
    pub fn is_safe(self, session: &str, reply: &Vec<CommandBlock>) -> (r: Result<
        (),
        FlowFailure,
    >)
        ensures
            r == (if guarded(self, session@, reply@) {
                Ok::<(), FlowFailure>(())
            } else {
                Err(FlowFailure::TmuxTopologyUnsafe)
            }),
    {
        match read_topology(reply) {
            Err(_) => Err(FlowFailure::TmuxTopologyUnsafe),
            Ok(entries) => {
                proof {
                    lemma_guard(self, session@, reply@, entries@);
                }
                let safe = match self {
                    Mutation::CreateWorkspace => topology_session_is_safe(
                        entries.as_slice(),
                        session,
                    ),
                    Mutation::RenameWorkspace { window }
                    | Mutation::CloseWorkspace { window }
                    | Mutation::CreatePane { window }
                    | Mutation::RenamePane { window, .. }
                    | Mutation::ClosePane { window, .. } => topology_is_safe(
                        entries.as_slice(),
                        session,
                        window,
                    ),
                };
                if safe {
                    Ok(())
                } else {
                    Err(FlowFailure::TmuxTopologyUnsafe)
                }
            },
        }
    }

    /// The window and pane that the change made, found by comparing what is
    /// shown now with what was shown before.
    pub fn created(self, before: &SessionSnapshot, now: &SessionSnapshot) -> (r: Option<
        (u64, u64),
    >)
        ensures
            r == created_by(self, *before, *now),
    {
        match self {
            Mutation::CreateWorkspace => match new_window_id_since(now, before) {
                None => None,
                Some(window) => match first_pane_in_window(now, window) {
                    None => None,
                    Some(pane) => Some((window, pane)),
                },
            },
            Mutation::CreatePane { window } => match new_pane_id_since(now, before, window) {
                None => None,
                Some(pane) => Some((window, pane)),
            },
            _ => None,
        }
    }
}

/// The only window that is known is this one.
pub open spec fn only_window(windows: Seq<WindowSnapshot>, window: u64) -> bool {
    windows.len() == 1 && windows[0].window_id == window
}

pub fn is_final_window(snapshot: &SessionSnapshot, window: u64) -> (r: bool)
    ensures
        r == only_window(snapshot.windows@, window),
{
    snapshot.windows.len() == 1 && snapshot.windows[0].window_id == window
}

/// What a running request waits for.
#[derive(Clone, Copy, Debug, PartialEq, Eq, Structural)]
pub enum CommandPhase {
    /// The read of the topology that guards a change.
    Guarding,
    /// The answer to a change.
    Sending,
    /// The acknowledgement that the last session closed.
    Closing,
    /// The synchronization after a change.
    Reading,
    Selecting,
    Capturing,
    /// The last synchronization.
    Settling,
    Transferring,
    Ended,
}

/// What to do next.
#[derive(Clone, Copy, Debug, PartialEq, Eq, Structural)]
pub enum CommandAction {
    ReadTopology,
    /// Send the change and await its answer.
    Send,
    /// Send the change that ends the session and await the stream's end.
    SendLast,
    Synchronize,
    Select { window: u64, pane: u64 },
    /// Capture the selected pane, where it is routed.
    Capture,
    Transfer { attachment: u64, remove: bool },
    Done,
    /// The session is gone by the user's own request: cancel the connection.
    CancelAndFail(FlowFailure),
    Fail(FlowFailure),
}

/// What came back.
#[derive(Clone, Copy, Debug, PartialEq, Eq)]
pub enum CommandFact {
    Succeeded,
    /// The topology allows the change; the touched window is the only one, or
    /// not.
    Safe { final_window: bool },
    /// The synchronization after a change shows what it made, if anything.
    Found(Option<(u64, u64)>),
    Failed(FlowFailure),
}

/// A request under way.
#[derive(Clone, Copy, Debug, PartialEq, Eq, Structural)]
pub struct CommandFlow {
    pub program: Program,
    pub phase: CommandPhase,
}

/// The change would end the session.
pub open spec fn ends_session(mutation: Mutation, final_window: bool) -> bool {
    match mutation {
        Mutation::CloseWorkspace { .. } => final_window,
        Mutation::ClosePane { last, .. } => last,
        _ => false,
    }
}

pub open spec fn creates(mutation: Mutation) -> bool {
    mutation == Mutation::CreateWorkspace || mutation is CreatePane
}

pub open spec fn command_begun(program: Program) -> (CommandFlow, CommandAction) {
    match program {
        Program::Select { window, pane } => (
            CommandFlow { program, phase: CommandPhase::Selecting },
            CommandAction::Select { window, pane },
        ),
        Program::Mutate(_) => (
            CommandFlow { program, phase: CommandPhase::Guarding },
            CommandAction::ReadTopology,
        ),
        Program::Refresh => (
            CommandFlow { program, phase: CommandPhase::Capturing },
            CommandAction::Capture,
        ),
        Program::Transfer { attachment, remove } => (
            CommandFlow { program, phase: CommandPhase::Transferring },
            CommandAction::Transfer { attachment, remove },
        ),
        Program::Ignore => (
            CommandFlow { program, phase: CommandPhase::Ended },
            CommandAction::Done,
        ),
    }
}

/// The decision on what came back.
pub open spec fn command_advanced(f: CommandFlow, fact: CommandFact) -> (
    CommandFlow,
    CommandAction,
) {
    let to = |phase: CommandPhase, action: CommandAction|
        (CommandFlow { program: f.program, phase }, action);
    match (f.phase, fact, f.program) {
        (_, CommandFact::Failed(e), _) => to(CommandPhase::Ended, CommandAction::Fail(e)),
        (CommandPhase::Guarding, CommandFact::Safe { final_window }, Program::Mutate(mutation)) => {
            if ends_session(mutation, final_window) {
                to(CommandPhase::Closing, CommandAction::SendLast)
            } else {
                to(CommandPhase::Sending, CommandAction::Send)
            }
        },
        (CommandPhase::Sending, CommandFact::Succeeded, Program::Mutate(mutation)) => {
            if creates(mutation) {
                to(CommandPhase::Reading, CommandAction::Synchronize)
            } else {
                to(CommandPhase::Settling, CommandAction::Synchronize)
            }
        },
        (CommandPhase::Closing, CommandFact::Succeeded, _) => to(
            CommandPhase::Ended,
            CommandAction::CancelAndFail(FlowFailure::Stale),
        ),
        (CommandPhase::Reading, CommandFact::Found(found), _) => match found {
            Some((window, pane)) => to(
                CommandPhase::Selecting,
                CommandAction::Select { window, pane },
            ),
            None => to(CommandPhase::Ended, CommandAction::Done),
        },
        (CommandPhase::Selecting, CommandFact::Succeeded, _) => to(
            CommandPhase::Settling,
            CommandAction::Synchronize,
        ),
        (CommandPhase::Capturing, CommandFact::Succeeded, _) => to(
            CommandPhase::Settling,
            CommandAction::Synchronize,
        ),
        (CommandPhase::Settling, CommandFact::Succeeded, _) => to(
            CommandPhase::Ended,
            CommandAction::Done,
        ),
        (CommandPhase::Transferring, CommandFact::Succeeded, _) => to(
            CommandPhase::Ended,
            CommandAction::Done,
        ),
        _ => to(CommandPhase::Ended, CommandAction::Fail(FlowFailure::TmuxProtocol)),
    }
}

fn command_at(program: Program, phase: CommandPhase, action: CommandAction) -> (r: (
    CommandFlow,
    CommandAction,
))
    ensures
        r == (CommandFlow { program, phase }, action),
{
    (CommandFlow { program, phase }, action)
}

impl CommandFlow {
    pub fn begin(program: Program) -> (r: (Self, CommandAction))
        ensures
            r == command_begun(program),
    {
        match program {
            Program::Select { window, pane } => command_at(
                program,
                CommandPhase::Selecting,
                CommandAction::Select { window, pane },
            ),
            Program::Mutate(_) => command_at(
                program,
                CommandPhase::Guarding,
                CommandAction::ReadTopology,
            ),
            Program::Refresh => command_at(
                program,
                CommandPhase::Capturing,
                CommandAction::Capture,
            ),
            Program::Transfer { attachment, remove } => command_at(
                program,
                CommandPhase::Transferring,
                CommandAction::Transfer { attachment, remove },
            ),
            Program::Ignore => command_at(program, CommandPhase::Ended, CommandAction::Done),
        }
    }

    pub fn advance(self, fact: CommandFact) -> (r: (Self, CommandAction))
        ensures
            r == command_advanced(self, fact),
    {
        let p = self.program;
        match (self.phase, fact, p) {
            (_, CommandFact::Failed(e), _) => command_at(
                p,
                CommandPhase::Ended,
                CommandAction::Fail(e),
            ),
            (
                CommandPhase::Guarding,
                CommandFact::Safe { final_window },
                Program::Mutate(mutation),
            ) => {
                let last = match mutation {
                    Mutation::CloseWorkspace { .. } => final_window,
                    Mutation::ClosePane { last, .. } => last,
                    _ => false,
                };
                if last {
                    command_at(p, CommandPhase::Closing, CommandAction::SendLast)
                } else {
                    command_at(p, CommandPhase::Sending, CommandAction::Send)
                }
            },
            (CommandPhase::Sending, CommandFact::Succeeded, Program::Mutate(mutation)) => {
                match mutation {
                    Mutation::CreateWorkspace | Mutation::CreatePane { .. } => command_at(
                        p,
                        CommandPhase::Reading,
                        CommandAction::Synchronize,
                    ),
                    _ => command_at(p, CommandPhase::Settling, CommandAction::Synchronize),
                }
            },
            (CommandPhase::Closing, CommandFact::Succeeded, _) => command_at(
                p,
                CommandPhase::Ended,
                CommandAction::CancelAndFail(FlowFailure::Stale),
            ),
            (CommandPhase::Reading, CommandFact::Found(found), _) => match found {
                Some((window, pane)) => command_at(
                    p,
                    CommandPhase::Selecting,
                    CommandAction::Select { window, pane },
                ),
                None => command_at(p, CommandPhase::Ended, CommandAction::Done),
            },
            (CommandPhase::Selecting, CommandFact::Succeeded, _)
            | (CommandPhase::Capturing, CommandFact::Succeeded, _) => command_at(
                p,
                CommandPhase::Settling,
                CommandAction::Synchronize,
            ),
            (CommandPhase::Settling, CommandFact::Succeeded, _)
            | (CommandPhase::Transferring, CommandFact::Succeeded, _) => command_at(
                p,
                CommandPhase::Ended,
                CommandAction::Done,
            ),
            _ => command_at(
                p,
                CommandPhase::Ended,
                CommandAction::Fail(FlowFailure::TmuxProtocol),
            ),
        }
    }
}

/// A change of the topology is sent only right after the topology was read
/// and found to allow it.
pub proof fn law_changes_are_guarded(f: CommandFlow, fact: CommandFact)
    ensures
        command_begun(f.program).1 != CommandAction::Send,
        command_begun(f.program).1 != CommandAction::SendLast,
        command_advanced(f, fact).1 == CommandAction::Send || command_advanced(f, fact).1
            == CommandAction::SendLast ==> f.phase == CommandPhase::Guarding && fact is Safe,
{
}

/// A change that ends the session never waits for an answer that the ended
/// session cannot give, and after it the connection is not retried.
pub proof fn law_the_last_close_is_final(f: CommandFlow, fact: CommandFact)
    requires
        f.program is Mutate,
        fact matches CommandFact::Safe { final_window } && ends_session(
            f.program->Mutate_0,
            final_window,
        ),
        f.phase == CommandPhase::Guarding,
    ensures
        command_advanced(f, fact).1 == CommandAction::SendLast,
        command_advanced(command_advanced(f, fact).0, CommandFact::Succeeded).1
            == CommandAction::CancelAndFail(FlowFailure::Stale),
{
}

pub open spec fn command_left(phase: CommandPhase) -> nat {
    match phase {
        CommandPhase::Guarding => 6,
        CommandPhase::Sending => 5,
        CommandPhase::Closing => 1,
        CommandPhase::Reading => 4,
        CommandPhase::Selecting => 3,
        CommandPhase::Capturing => 3,
        CommandPhase::Settling => 2,
        CommandPhase::Transferring => 1,
        CommandPhase::Ended => 0,
    }
}

/// Every request ends, whatever comes back.
pub proof fn law_requests_end(f: CommandFlow, fact: CommandFact)
    requires
        f.phase != CommandPhase::Ended,
    ensures
        command_left(command_advanced(f, fact).0.phase) < command_left(f.phase),
{
}

/// What a routed terminal reports.
pub enum PaneEvent {
    Input { pane: u64, bytes: Vec<u8> },
    Resize { pane: u64, columns: u16, rows: u16 },
}

/// What a terminal's report asks for.
pub enum PaneAction {
    /// Send this command and await its answer.
    Send(String),
    /// Keep this viewport, resize the client to it and synchronize.
    Resize { columns: u16, rows: u16 },
    Nothing,
}

/// What the controller knows when a terminal reports.
#[derive(Clone, Copy, Debug, PartialEq, Eq)]
pub struct PaneContext {
    /// Terminal input is open in the current epoch.
    pub input_ready: bool,
    /// The reporting pane is routed.
    pub routed: bool,
    pub selected: Option<u64>,
    pub viewport: (u16, u16),
}

/// Handles a terminal's report.  Input is typed into a routed pane while input
/// is open; a resize counts for the selected pane and a new size only.
pub fn pane_event(event: &PaneEvent, context: PaneContext, session: &str) -> (r: Result<
    PaneAction,
    FlowFailure,
>)
    ensures
        match *event {
            PaneEvent::Input { pane, bytes } => if context.input_ready && context.routed {
                match commands::send_bytes_for_session_text(session@, pane, bytes@) {
                    Ok(text) => r matches Ok(PaneAction::Send(command)) && command@ == text,
                    Err(_) => r == Err::<PaneAction, FlowFailure>(FlowFailure::TmuxProtocol),
                }
            } else {
                r == Ok::<PaneAction, FlowFailure>(PaneAction::Nothing)
            },
            PaneEvent::Resize { pane, columns, rows } => if context.input_ready
                && context.selected == Some(pane) && context.viewport != (columns, rows) {
                r == Ok::<PaneAction, FlowFailure>(PaneAction::Resize { columns, rows })
            } else {
                r == Ok::<PaneAction, FlowFailure>(PaneAction::Nothing)
            },
        },
{
    match event {
        PaneEvent::Input { pane, bytes } => {
            if !context.input_ready || !context.routed {
                return Ok(PaneAction::Nothing);
            }
            match send_bytes_command_for_session(session, *pane, bytes.as_slice()) {
                Ok(command) => Ok(PaneAction::Send(command)),
                Err(_) => Err(FlowFailure::TmuxProtocol),
            }
        },
        PaneEvent::Resize { pane, columns, rows } => {
            let own = match context.selected {
                Some(selected) => selected == *pane,
                None => false,
            };
            if context.input_ready && own && (context.viewport.0 != *columns || context.viewport.1
                != *rows) {
                Ok(PaneAction::Resize { columns: *columns, rows: *rows })
            } else {
                Ok(PaneAction::Nothing)
            }
        },
    }
}

/// The request that ends the session: no answer is asked for.
pub fn close_request(command: &str) -> (r: Vec<u8>)
    ensures
        r@ == text::utf8(command@ + "\n"@),
{
    let mut request = String::from_str(command);
    request.append("\n");
    vstd::slice::slice_to_vec(request.as_str().as_bytes())
}

/// How far the ending of the session is.
pub enum CloseStep {
    Closed,
    Wait,
    Feed { native: u64, bytes: Vec<u8> },
}

/// An exit notification.
pub open spec fn is_exit(event: EventView) -> bool {
    event matches EventView::Notification { name, .. } && name == "exit"@
}

/// Handles what arrives after the session was asked to end.  Its exit, or the
/// end of the channel, is the acknowledgement; an error block is a failure.
pub fn close_step(
    stream: &mut StreamState,
    arrived: Result<Event, FlowFailure>,
    live: bool,
    route: Option<u64>,
) -> (r: Result<CloseStep, FlowFailure>)
    ensures
        match arrived {
            Err(e) => r == (if e == FlowFailure::RemoteClosed {
                Ok::<CloseStep, FlowFailure>(CloseStep::Closed)
            } else {
                Err(e)
            }),
            Ok(event) => if event@ matches EventView::Command { error, .. } && error {
                r == Err::<CloseStep, FlowFailure>(FlowFailure::Tmux)
            } else if is_exit(event@) {
                r == Ok::<CloseStep, FlowFailure>(CloseStep::Closed)
            } else if !live {
                r == Err::<CloseStep, FlowFailure>(FlowFailure::Stale)
            } else {
                match query::dispatch_failure(
                    old(stream).capturing,
                    old(stream).capture_complete,
                    old(stream).capture_output@,
                    event@,
                ) {
                    Some(e) => r == Err::<CloseStep, FlowFailure>(e),
                    None => match event {
                        Event::Output { pane_id, bytes } => if old(stream).capturing != Some(
                            pane_id,
                        ) && route is Some {
                            r == Ok::<CloseStep, FlowFailure>(
                                CloseStep::Feed { native: route->0, bytes },
                            )
                        } else {
                            r == Ok::<CloseStep, FlowFailure>(CloseStep::Wait)
                        },
                        _ => r == Ok::<CloseStep, FlowFailure>(CloseStep::Wait),
                    },
                }
            },
        },
        final(stream).capturing == old(stream).capturing,
        final(stream).capture_complete == old(stream).capture_complete,
        (final(stream).capture_output@, final(stream).dirty) == (match arrived {
            Ok(event) => if live && !is_exit(event@) && !(event@ is Command) {
                query::stream_after(
                    old(stream).capturing,
                    old(stream).capture_complete,
                    old(stream).capture_output@,
                    old(stream).dirty,
                    event@,
                )
            } else {
                (old(stream).capture_output@, old(stream).dirty)
            },
            Err(_) => (old(stream).capture_output@, old(stream).dirty),
        }),
{
    match arrived {
        Err(e) => if e == FlowFailure::RemoteClosed {
            Ok(CloseStep::Closed)
        } else {
            Err(e)
        },
        Ok(event) => {
            let (refused, exit) = match &event {
                Event::Command(block) => (block.error, false),
                Event::Notification { name, .. } => (false, same_text(name.as_str(), "exit")),
                Event::Output { .. } => (false, false),
            };
            if refused {
                return Err(FlowFailure::Tmux);
            }
            if exit {
                return Ok(CloseStep::Closed);
            }
            match stream.dispatch(event, live, route) {
                Ok(Dispatch::Feed { native, bytes }) => Ok(CloseStep::Feed { native, bytes }),
                Ok(Dispatch::Nothing) => Ok(CloseStep::Wait),
                Err(e) => Err(e),
            }
        },
    }
}

} // verus!
