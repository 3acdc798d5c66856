//! Which requests change what, and what guards them.

use vstd::prelude::*;

use crate::ssh::command::ControlCommand;
use crate::ssh::controller;
use crate::ssh::controller::{
    CommandAction, CommandFact, CommandFlow, CommandPhase, Mutation, Program,
};
use crate::ssh::flow::FlowFailure;
use crate::ssh::selection;
use crate::ssh::topology;
use crate::tmux::command_laws;
use crate::tmux::command_laws::session_window;
use crate::tmux::decoder::CommandBlock;
use crate::tmux::quote;
use crate::tmux::records::WindowTopologyView;
use crate::tmux::request_laws;
use crate::tmux::request_laws::{session_window_pane, session_word};
use crate::tmux::snapshot::{PaneSnapshot, SessionSnapshot, WindowSnapshot};

verus! {

/// The change reaches this window.
pub open spec fn reaches(mutation: Mutation, window: u64) -> bool {
    match mutation {
        Mutation::CreateWorkspace => true,
        Mutation::RenameWorkspace { window: w } => w == window,
        Mutation::CloseWorkspace { window: w } => w == window,
        Mutation::CreatePane { window: w } => w == window,
        Mutation::RenamePane { window: w, .. } => w == window,
        Mutation::ClosePane { window: w, .. } => w == window,
    }
}

/// The entry is a window of the session that the change reaches.
pub open spec fn concerns(mutation: Mutation, e: WindowTopologyView, session: Seq<char>) -> bool {
    (e.session_id == session || e.session_name == session) && reaches(mutation, e.window_id)
}

/// A window that is linked into another session is never changed.
pub proof fn law_a_linked_window_is_never_changed(
    mutation: Mutation,
    session: Seq<char>,
    reply: Seq<CommandBlock>,
    entries: Seq<WindowTopologyView>,
    i: int,
)
    requires
        topology::topology_reply(reply) == Ok::<Seq<WindowTopologyView>, FlowFailure>(entries),
        0 <= i < entries.len(),
        concerns(mutation, entries[i], session),
        entries[i].linked_sessions > 1,
    ensures
        !controller::guarded(mutation, session, reply),
{
    assert(controller::touches(mutation, topology::topology_reply(reply)->Ok_0[i], session));
}

/// A window that the topology does not show is never changed, and without a
/// readable topology nothing is.
pub proof fn law_an_unseen_window_is_never_changed(
    mutation: Mutation,
    session: Seq<char>,
    reply: Seq<CommandBlock>,
)
    requires
        topology::topology_reply(reply) matches Ok(entries) ==> forall|i: int|
            0 <= i < entries.len() ==> !concerns(mutation, #[trigger] entries[i], session),
    ensures
        !controller::guarded(mutation, session, reply),
{
    if controller::guarded(mutation, session, reply) {
        let entries = topology::topology_reply(reply)->Ok_0;
        let i = choose|i: int|
            0 <= i < entries.len() && controller::touches(mutation, #[trigger] entries[i], session);
        assert(concerns(mutation, entries[i], session));
    }
}

/// A window that the topology shows and that no other session has may be
/// changed.
pub proof fn law_an_own_window_may_be_changed(
    mutation: Mutation,
    session: Seq<char>,
    reply: Seq<CommandBlock>,
    entries: Seq<WindowTopologyView>,
    i: int,
)
    requires
        topology::topology_reply(reply) == Ok::<Seq<WindowTopologyView>, FlowFailure>(entries),
        0 <= i < entries.len(),
        concerns(mutation, entries[i], session),
        forall|j: int|
            0 <= j < entries.len() && concerns(mutation, #[trigger] entries[j], session)
                ==> entries[j].linked_sessions == 1,
    ensures
        controller::guarded(mutation, session, reply),
{
    assert(controller::touches(mutation, topology::topology_reply(reply)->Ok_0[i], session));
    assert forall|j: int|
        0 <= j < entries.len() && controller::touches(
            mutation,
            #[trigger] entries[j],
            session,
        ) implies entries[j].linked_sessions <= 1 by {
        assert(concerns(mutation, entries[j], session));
    }
}

/// The command of a change names what the request named, and its kind is the
/// request's.
pub proof fn law_a_change_does_what_was_asked(
    session: Seq<char>,
    name: Seq<char>,
    window: u64,
    pane: u64,
    last: bool,
)
    ensures
        controller::mutation_text((Mutation::CloseWorkspace { window }), session, name) matches Ok(
            line,
        ) ==> command_laws::commands_of(line) == Some(
            seq![seq!["kill-window"@, "-t"@, session_window(session, window)]],
        ),
        controller::mutation_text(
            (Mutation::ClosePane { window, pane, last }),
            session,
            name,
        ) matches Ok(line) ==> command_laws::commands_of(line) == Some(
            seq![seq!["kill-pane"@, "-t"@, session_window_pane(session, window, pane)]],
        ),
        controller::mutation_text((Mutation::CreatePane { window }), session, name) matches Ok(line)
            ==> command_laws::commands_of(line) == Some(
            seq![seq!["split-window"@, "-d"@, "-t"@, session_window(session, window)]],
        ),
        controller::mutation_text(Mutation::CreateWorkspace, session, name) matches Ok(line)
            ==> command_laws::commands_of(line) == Some(
            seq![
                seq![
                    "new-window"@,
                    "-d"@,
                    "-t"@,
                    session_word(session),
                    "-n"@,
                    quote::hashes_doubled(name),
                ],
            ],
        ),
        controller::mutation_text((Mutation::RenameWorkspace { window }), session, name) matches Ok(
            line,
        ) ==> command_laws::commands_of(line) == Some(
            seq![
                seq![
                    "rename-window"@,
                    "-t"@,
                    session_window(session, window),
                    quote::hashes_doubled(name),
                ],
            ],
        ),
        controller::mutation_text(
            (Mutation::RenamePane { window, pane }),
            session,
            name,
        ) matches Ok(line) ==> command_laws::commands_of(line) == Some(
            seq![
                seq![
                    "select-pane"@,
                    "-t"@,
                    session_window_pane(session, window, pane),
                    "-T"@,
                    quote::hashes_doubled(name),
                ],
            ],
        ),
{
    request_laws::law_window_commands_name_their_window(session, window, name);
    request_laws::law_pane_commands_name_their_pane(session, window, pane, name);
}

/// The pane is known once, at this place.
pub open spec fn known_once(panes: Seq<PaneSnapshot>, pane: u64, k: int) -> bool {
    &&& 0 <= k < panes.len()
    &&& panes[k].pane_id == pane
    &&& forall|j: int| 0 <= j < panes.len() && j != k ==> (#[trigger] panes[j]).pane_id != pane
}

proof fn lemma_pane_window(panes: Seq<PaneSnapshot>, pane: u64, k: int)
    requires
        known_once(panes, pane, k),
    ensures
        selection::pane_window(panes, pane) == Some(panes[k].window_id),
    decreases panes.len(),
{
    if k > 0 {
        let rest = panes.skip(1);
        assert(panes[0].pane_id != pane);
        assert(rest[k - 1] == panes[k]);
        assert forall|j: int| 0 <= j < rest.len() && j != k - 1 implies (
        #[trigger] rest[j]).pane_id != pane by {
            assert(rest[j] == panes[j + 1]);
        }
        lemma_pane_window(rest, pane, k - 1);
    }
}

proof fn lemma_no_window(panes: Seq<PaneSnapshot>, pane: u64)
    requires
        forall|j: int| 0 <= j < panes.len() ==> (#[trigger] panes[j]).pane_id != pane,
    ensures
        selection::pane_window(panes, pane) is None,
    decreases panes.len(),
{
    if panes.len() > 0 {
        let rest = panes.skip(1);
        assert(panes[0].pane_id != pane);
        assert forall|j: int| 0 <= j < rest.len() implies (#[trigger] rest[j]).pane_id != pane by {
            assert(rest[j] == panes[j + 1]);
        }
        lemma_no_window(rest, pane);
    }
}

/// A request on a pane is carried out in the window that holds the pane, and
/// is stale where no window does.  The close of the only pane is known as such.
pub proof fn law_a_pane_is_changed_in_its_window(
    panes: Seq<PaneSnapshot>,
    pane_id: u64,
    name: String,
    k: int,
)
    ensures
        known_once(panes, pane_id, k) ==> {
            &&& controller::program_of((ControlCommand::ClosePane { pane_id }), panes) == Ok::<
                Program,
                FlowFailure,
            >(
                Program::Mutate(
                    Mutation::ClosePane {
                        window: panes[k].window_id,
                        pane: pane_id,
                        last: panes.len() == 1,
                    },
                ),
            )
            &&& controller::program_of((ControlCommand::RenamePane { pane_id, name }), panes)
                == Ok::<Program, FlowFailure>(
                Program::Mutate(
                    Mutation::RenamePane { window: panes[k].window_id, pane: pane_id },
                ),
            )
        },
        (forall|j: int| 0 <= j < panes.len() ==> (#[trigger] panes[j]).pane_id != pane_id) ==> {
            &&& controller::program_of((ControlCommand::ClosePane { pane_id }), panes) == Err::<
                Program,
                FlowFailure,
            >(FlowFailure::Stale)
            &&& controller::program_of((ControlCommand::RenamePane { pane_id, name }), panes)
                == Err::<Program, FlowFailure>(FlowFailure::Stale)
        },
{
    if known_once(panes, pane_id, k) {
        lemma_pane_window(panes, pane_id, k);
    }
    if forall|j: int| 0 <= j < panes.len() ==> (#[trigger] panes[j]).pane_id != pane_id {
        lemma_no_window(panes, pane_id);
    }
}

/// A request on a window is carried out on that window.
pub proof fn law_a_window_request_keeps_its_window(
    panes: Seq<PaneSnapshot>,
    window_id: u64,
    pane_id: u64,
    name: String,
)
    ensures
        controller::program_of((ControlCommand::CloseWorkspace { window_id }), panes) == Ok::<
            Program,
            FlowFailure,
        >(Program::Mutate(Mutation::CloseWorkspace { window: window_id })),
        controller::program_of((ControlCommand::RenameWorkspace { window_id, name }), panes)
            == Ok::<Program, FlowFailure>(
            Program::Mutate(Mutation::RenameWorkspace { window: window_id }),
        ),
        controller::program_of((ControlCommand::CreatePane { window_id }), panes) == Ok::<
            Program,
            FlowFailure,
        >(Program::Mutate(Mutation::CreatePane { window: window_id })),
        controller::program_of((ControlCommand::SelectPane { window_id, pane_id }), panes) == Ok::<
            Program,
            FlowFailure,
        >(Program::Select { window: window_id, pane: pane_id }),
{
}

/// A change that leaves the session alive reads the topology, is sent, is read
/// back and ends; one that creates something also selects what it created.
pub proof fn law_a_change_is_read_back(
    mutation: Mutation,
    final_window: bool,
    window: u64,
    pane: u64,
)
    requires
        !controller::ends_session(mutation, final_window),
    ensures
        ({
            let begun = controller::command_begun(Program::Mutate(mutation));
            let sent = controller::command_advanced(
                begun.0,
                (CommandFact::Safe { final_window }),
            );
            let read = controller::command_advanced(sent.0, CommandFact::Succeeded);
            let found = controller::command_advanced(
                read.0,
                CommandFact::Found(Some((window, pane))),
            );
            let chosen = controller::command_advanced(found.0, CommandFact::Succeeded);
            &&& begun.1 == CommandAction::ReadTopology
            &&& sent.1 == CommandAction::Send
            &&& read.1 == CommandAction::Synchronize
            &&& if mutation == Mutation::CreateWorkspace || mutation is CreatePane {
                &&& found.1 == (CommandAction::Select { window, pane })
                &&& chosen.1 == CommandAction::Synchronize
                &&& controller::command_advanced(chosen.0, CommandFact::Succeeded).1
                    == CommandAction::Done
            } else {
                controller::command_advanced(read.0, CommandFact::Succeeded).1
                    == CommandAction::Done
            }
        }),
{
}

/// Only the close of the last window, or of the last pane, ends the session.
pub proof fn law_only_the_last_close_ends_the_session(mutation: Mutation, final_window: bool)
    ensures
        controller::ends_session(mutation, final_window) <==> (mutation is CloseWorkspace
            && final_window) || (mutation matches Mutation::ClosePane { last, .. } && last),
{
}

/// A failure ends a request as that failure.
pub proof fn law_a_failed_request_fails(f: CommandFlow, e: FlowFailure)
    ensures
        controller::command_advanced(f, CommandFact::Failed(e)).1 == CommandAction::Fail(e),
        controller::command_advanced(f, CommandFact::Failed(e)).0.phase == CommandPhase::Ended,
{
}

/// A request is done only after a last synchronization or transfer succeeded,
/// or where a creation shows nothing new.
pub proof fn law_a_request_is_done_at_its_end(f: CommandFlow, fact: CommandFact)
    ensures
        controller::command_advanced(f, fact).1 == CommandAction::Done ==> {
            ||| (f.phase == CommandPhase::Settling || f.phase == CommandPhase::Transferring) && fact
                == CommandFact::Succeeded
            ||| f.phase == CommandPhase::Reading && fact == CommandFact::Found(None)
        },
{
}

/// What a creation made is shown now and was not shown before; a pane is one
/// of the window that was split.
pub proof fn law_what_was_created_is_new(
    mutation: Mutation,
    before: SessionSnapshot,
    now: SessionSnapshot,
)
    ensures
        controller::created_by(mutation, before, now) matches Some(made) ==> {
            ||| mutation == Mutation::CreateWorkspace && (exists|i: int|
                0 <= i < now.windows@.len() && (#[trigger] now.windows@[i]).window_id == made.0)
                && (forall|i: int|
                0 <= i < before.windows@.len() ==> (#[trigger] before.windows@[i]).window_id
                    != made.0)
            ||| mutation == (Mutation::CreatePane { window: made.0 }) && (exists|i: int|
                0 <= i < now.panes@.len() && (#[trigger] now.panes@[i]).pane_id == made.1
                    && now.panes@[i].window_id == made.0) && (forall|i: int|
                0 <= i < before.panes@.len() ==> (#[trigger] before.panes@[i]).pane_id != made.1)
        },
{
    match mutation {
        Mutation::CreateWorkspace => lemma_new_window(now.windows@, before.windows@),
        Mutation::CreatePane { window } => lemma_new_pane(now.panes@, before.panes@, window),
        _ => {},
    }
}

proof fn lemma_new_window(windows: Seq<WindowSnapshot>, before: Seq<WindowSnapshot>)
    ensures
        topology::new_window(windows, before) matches Some(id) ==> (exists|i: int|
            0 <= i < windows.len() && (#[trigger] windows[i]).window_id == id) && forall|i: int|
            0 <= i < before.len() ==> (#[trigger] before[i]).window_id != id,
        topology::new_window(windows, before) is None ==> forall|i: int|
            0 <= i < windows.len() ==> exists|j: int|
                0 <= j < before.len() && (#[trigger] before[j]).window_id == (
                #[trigger] windows[i]).window_id,
    decreases windows.len(),
{
    if windows.len() > 0 {
        let rest = windows.skip(1);
        lemma_new_window(rest, before);
        match topology::new_window(windows, before) {
            Some(id) => {
                if !(exists|i: int|
                    0 <= i < before.len() && (#[trigger] before[i]).window_id
                        == windows[0].window_id) {
                    assert(windows[0].window_id == id);
                } else {
                    let i = choose|i: int|
                        0 <= i < rest.len() && (#[trigger] rest[i]).window_id == id;
                    assert(windows[i + 1].window_id == id);
                }
            },
            None => {
                assert forall|i: int| 0 <= i < windows.len() implies exists|j: int|
                    0 <= j < before.len() && (#[trigger] before[j]).window_id == (
                    #[trigger] windows[i]).window_id by {
                    if i > 0 {
                        assert(rest[i - 1] == windows[i]);
                    }
                }
            },
        }
    }
}

proof fn lemma_new_pane(panes: Seq<PaneSnapshot>, before: Seq<PaneSnapshot>, window: u64)
    ensures
        topology::new_pane(panes, before, window) matches Some(id) ==> (exists|i: int|
            0 <= i < panes.len() && (#[trigger] panes[i]).pane_id == id && panes[i].window_id
                == window) && forall|i: int|
            0 <= i < before.len() ==> (#[trigger] before[i]).pane_id != id,
    decreases panes.len(),
{
    if panes.len() > 0 {
        let rest = panes.skip(1);
        lemma_new_pane(rest, before, window);
        match topology::new_pane(panes, before, window) {
            Some(id) => {
                if panes[0].window_id == window && !(exists|i: int|
                    0 <= i < before.len() && (#[trigger] before[i]).pane_id == panes[0].pane_id) {
                    assert(panes[0].pane_id == id);
                } else {
                    let i = choose|i: int|
                        0 <= i < rest.len() && (#[trigger] rest[i]).pane_id == id
                            && rest[i].window_id == window;
                    assert(panes[i + 1] == rest[i]);
                    assert(panes[i + 1].pane_id == id);
                }
            },
            None => {},
        }
    }
}

/// The flat panes of a window are those that the snapshot shows in it, in
/// order.
pub proof fn law_a_window_shows_its_panes(
    flat: Seq<crate::tmux::snapshot::PaneSnapshotView>,
    window: u64,
    i: int,
)
    requires
        0 <= i < flat.len(),
    ensures
        topology::panes_in(flat, window).contains(flat[i]) <== flat[i].window_id == window,
        forall|k: int|
            0 <= k < topology::panes_in(flat, window).len() ==> (#[trigger] topology::panes_in(
                flat,
                window,
            )[k]).window_id == window,
    decreases flat.len(),
{
    let front = flat.drop_last();
    let all = topology::panes_in(flat, window);
    let kept = topology::panes_in(front, window);
    lemma_panes_in(flat, window);
    if flat[i].window_id == window {
        if i < front.len() {
            law_a_window_shows_its_panes(front, window, i);
            assert(front[i] == flat[i]);
            let k = choose|k: int| 0 <= k < kept.len() && kept[k] == flat[i];
            assert(all[k] == flat[i]);
        } else {
            assert(all.last() == flat[i]);
            assert(all[all.len() - 1] == flat[i]);
        }
    }
}

proof fn lemma_panes_in(flat: Seq<crate::tmux::snapshot::PaneSnapshotView>, window: u64)
    ensures
        forall|k: int|
            0 <= k < topology::panes_in(flat, window).len() ==> (#[trigger] topology::panes_in(
                flat,
                window,
            )[k]).window_id == window,
    decreases flat.len(),
{
    if flat.len() > 0 {
        let front = flat.drop_last();
        let kept = topology::panes_in(front, window);
        let all = topology::panes_in(flat, window);
        lemma_panes_in(front, window);
        assert forall|k: int| 0 <= k < all.len() implies (#[trigger] all[k]).window_id
            == window by {
            if k < kept.len() {
                assert(all[k] == kept[k]);
            }
        }
    }
}

/// A window is the last one exactly where no other is known beside it.
pub proof fn law_the_last_window_is_alone(windows: Seq<WindowSnapshot>, window: u64)
    requires
        exists|i: int| 0 <= i < windows.len() && (#[trigger] windows[i]).window_id == window,
        forall|i: int, j: int|
            0 <= i < j < windows.len() ==> (#[trigger] windows[i]).window_id != (
            #[trigger] windows[j]).window_id,
    ensures
        controller::only_window(windows, window) <==> forall|i: int|
            0 <= i < windows.len() ==> (#[trigger] windows[i]).window_id == window,
{
    if windows.len() > 1 {
        assert(windows[0].window_id != windows[1].window_id);
    }
}

} // verus!
