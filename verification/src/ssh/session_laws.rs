//! Which answers belong to which request, and which sessions are accepted.

use vstd::prelude::*;
use vstd::string::*;

use crate::bytes;
use crate::diagnostics;
use crate::ssh::answer;
use crate::ssh::answer::{AnswerStep, StreamView};
use crate::ssh::flow::FlowFailure;
use crate::ssh::query;
use crate::ssh::query::ReplyStep;
use crate::ssh::run;
use crate::ssh::run::{RunAction, RunFact, RunFlow, RunPhase};
use crate::ssh::runtime;
use crate::ssh::select_laws;
use crate::text;
use crate::tmux::command_laws;
use crate::tmux::command_laws::Quote;
use crate::tmux::decoder::{CommandBlock, Event, EventView};
use crate::tmux::records;
use crate::tmux::records::SessionIdentityView;

verus! {

/// A request is its command, then the print of its sentinel, on one line.
pub proof fn law_a_request_ends_with_its_sentinel(
    command: Seq<char>,
    marker: Seq<char>,
    all: Seq<Seq<Seq<char>>>,
)
    requires
        command.len() > 0,
        command.last() != '\\',
        command_laws::commands_of(command) == Some(all),
        !marker.contains('\''),
    ensures
        ({
            let request = query::request_text(command, marker);
            &&& request.last() == '\n'
            &&& command_laws::commands_of(request.drop_last()) == Some(
                all + seq![seq!["display-message"@, "-p"@, marker]],
            )
        }),
{
    let request = query::request_text(command, marker);
    let quoted = seq!['\''] + marker + seq!['\''];
    let print = "display-message"@ + (seq![' '] + ("-p"@ + (seq![' '] + quoted)));
    reveal_strlit("'\n");
    assert(" ; display-message -p '"@ =~= " ; "@ + ("display-message"@ + (seq![' '] + ("-p"@
        + seq![' ', '\''])))) by {
        reveal_strlit(" ; display-message -p '");
        reveal_strlit(" ; ");
        reveal_strlit("display-message");
        reveal_strlit("-p");
    }
    assert(request.drop_last() =~= command + (" ; "@ + print));
    assert(command_laws::plain("display-message"@) && "display-message"@.len() > 0) by {
        reveal_strlit("display-message");
    }
    assert(command_laws::plain("-p"@) && "-p"@.len() > 0) by {
        reveal_strlit("-p");
    }
    command_laws::lemma_word("display-message"@, "-p"@ + (seq![' '] + quoted));
    command_laws::lemma_word("-p"@, quoted);
    assert(command_laws::scanned(quoted, Quote::Outside, None) == Some(seq![seq![marker]])) by {
        let tail = seq!['\''];
        assert(quoted.skip(1) =~= marker + tail);
        command_laws::lemma_single(marker, tail, seq![]);
        assert(Seq::<char>::empty() + marker =~= marker);
        reveal_strlit("'");
        assert("'"@ =~= tail);
        command_laws::lemma_last(marker);
    }
    command_laws::lemma_three("display-message"@, "-p"@, marker, seq![]);
    select_laws::lemma_joined(
        command,
        print,
        Quote::Outside,
        None,
        all,
        seq![seq!["display-message"@, "-p"@, marker]],
    );
}

/// An answer is complete exactly at its own sentinel: one block with that one
/// line.
pub proof fn law_only_its_sentinel_completes_an_answer(
    collected: Seq<CommandBlock>,
    marker: Seq<u8>,
    block: CommandBlock,
)
    ensures
        query::block_step(collected, marker, block) is Complete <==> block.lines@.len() == 1
            && block.lines@[0]@ == marker,
        block.error && !(block.lines@.len() == 1 && block.lines@[0]@ == marker)
            ==> query::block_step(collected, marker, block) == ReplyStep::Failed(FlowFailure::Tmux),
        !block.error && query::reply_size(collected) + query::block_size(
            bytes::views(block.lines@),
        ) <= 33_554_432 && collected.len() < 4096 && !(block.lines@.len() == 1
            && block.lines@[0]@ == marker) ==> query::block_step(collected, marker, block)
            is More,
{
}

/// The sentinels of operations and of cleanups differ.
pub proof fn law_cleanups_have_sentinels_of_their_own(g: u64, a: u64, h: u64, b: u64)
    ensures
        query::done_marker(g, a) != query::cleanup_marker(h, b),
        !query::done_marker(g, a).contains('\''),
        !query::cleanup_marker(h, b).contains('\''),
{
    reveal_strlit("MEETERM_DONE_");
    reveal_strlit("MEETERM_CLEANUP_DONE_");
    reveal_strlit("_");
    assert(query::done_marker(g, a)[8] == 'D');
    assert(query::cleanup_marker(h, b)[8] == 'C');
    command_laws::lemma_decimal_plain(g as nat);
    command_laws::lemma_decimal_plain(a as nat);
    command_laws::lemma_decimal_plain(h as nat);
    command_laws::lemma_decimal_plain(b as nat);
    assert(command_laws::plain("MEETERM_DONE_"@));
    assert(command_laws::plain("MEETERM_CLEANUP_DONE_"@));
    assert(command_laws::plain("_"@));
    lemma_marker_plain("MEETERM_DONE_"@, g, a);
    lemma_marker_plain("MEETERM_CLEANUP_DONE_"@, h, b);
}

proof fn lemma_marker_plain(head: Seq<char>, g: u64, a: u64)
    requires
        command_laws::plain(head),
        command_laws::plain("_"@),
    ensures
        !(head + text::decimal(g as nat) + "_"@ + text::decimal(a as nat)).contains('\''),
{
    let x = text::decimal(g as nat);
    let y = text::decimal(a as nat);
    command_laws::lemma_decimal_plain(g as nat);
    command_laws::lemma_decimal_plain(a as nat);
    command_laws::lemma_plain_join(head, x);
    command_laws::lemma_plain_join(head + x, "_"@);
    command_laws::lemma_plain_join(head + x + "_"@, y);
    let m = head + x + "_"@ + y;
    if m.contains('\'') {
        let i = choose|i: int| 0 <= i < m.len() && m[i] == '\'';
        assert(command_laws::is_plain(m[i]));
    }
}

/// What changes windows makes the topology doubtful, and a doubt stays until
/// the topology is read again; output never raises one.
pub proof fn law_a_change_of_windows_is_noticed(s: StreamView, event: EventView)
    ensures
        event matches EventView::Notification { name, .. } ==> (name == "window-add"@ || name
            == "window-close"@ || name == "window-renamed"@ || name == "layout-change"@ || name
            == "window-pane-changed"@ || name == "session-window-changed"@ || name
            == "session-changed"@ || name == "sessions-changed"@ ==> answer::dispatched(
            s,
            event,
        ).dirty),
        s.dirty ==> answer::dispatched(s, event).dirty,
        event is Output ==> answer::dispatched(s, event).dirty == s.dirty,
        answer::dispatched(s, event).capturing == s.capturing,
        event matches EventView::Notification { name, .. } ==> (name == "exit"@
            ==> answer::failure_of(s, event) == Some(FlowFailure::RemoteClosed)),
        event matches EventView::Command { error, .. } ==> (error ==> answer::failure_of(s, event)
            == Some(FlowFailure::Tmux)),
{
}

/// Output beside an answer goes to the terminal of its pane, each byte as it
/// came; that of the pane under capture is not shown twice, and that of a pane
/// without a route is not shown at all.
pub proof fn law_output_goes_to_its_own_terminal(
    s: StreamView,
    pane_id: u64,
    output: Vec<u8>,
    route: Option<u64>,
)
    requires
        s.output.len() + output@.len() <= 33_554_432,
    ensures
        s.capturing != Some(pane_id) && route is Some ==> answer::beside(
            s,
            (Event::Output { pane_id, bytes: output }),
            true,
            route,
        ) == Ok::<AnswerStep, FlowFailure>(AnswerStep::Feed { native: route->0, bytes: output }),
        s.capturing == Some(pane_id) || route is None ==> answer::beside(
            s,
            (Event::Output { pane_id, bytes: output }),
            true,
            route,
        ) == Ok::<AnswerStep, FlowFailure>(AnswerStep::More),
        answer::beside(s, (Event::Output { pane_id, bytes: output }), false, route) == Err::<
            AnswerStep,
            FlowFailure,
        >(FlowFailure::Stale),
{
}

/// Sessions are taken from a listing that succeeded, and from nothing else; only
/// a server that verifiably does not run has none.
pub proof fn law_a_doubtful_listing_lists_nothing(
    status: Option<u32>,
    stdout: Seq<u8>,
    diagnostic: Seq<char>,
)
    ensures
        runtime::discovered(status, stdout, diagnostic) matches Ok(sessions) ==> {
            ||| status == Some(0u32) && runtime::listed_in(stdout) == Some(sessions)
            ||| status == Some(1u32) && diagnostics::says_no_server(diagnostic) && sessions.len()
                == 0
        },
        status == Some(0u32) && runtime::listed_in(stdout) is Some ==> runtime::discovered(
            status,
            stdout,
            diagnostic,
        ) == Ok::<Seq<SessionIdentityView>, FlowFailure>(runtime::listed_in(stdout)->0),
        status == Some(127u32) ==> runtime::discovered(status, stdout, diagnostic) == Err::<
            Seq<SessionIdentityView>,
            FlowFailure,
        >(FlowFailure::TmuxDiscoveryMissing),
        status is None ==> runtime::discovered(status, stdout, diagnostic) is Err,
{
}

/// A creation is believed only where it succeeded and reports exactly one
/// session, of the name that was asked for.
pub proof fn law_a_creation_reports_its_session(
    status: Option<u32>,
    stdout: Seq<u8>,
    diagnostic: Seq<char>,
    name: Seq<char>,
)
    ensures
        runtime::created_session(status, stdout, diagnostic, name) matches Ok(session) ==> {
            &&& status == Some(0u32)
            &&& session.name == name
            &&& runtime::listed_in(stdout) == Some(seq![session])
        },
        status == Some(0u32) && (runtime::listed_in(stdout) matches Some(sessions)
            && sessions.len() == 1 && sessions[0].name == name) ==> runtime::created_session(
            status,
            stdout,
            diagnostic,
            name,
        ) is Ok,
{
    if runtime::created_session(status, stdout, diagnostic, name) is Ok {
        let sessions = runtime::listed_in(stdout)->0;
        assert(sessions =~= seq![sessions[0]]);
    }
}

/// A name resolves to a listed session of that very name.
pub proof fn law_a_name_resolves_to_its_session(
    sessions: Seq<SessionIdentityView>,
    name: Seq<char>,
)
    ensures
        match runtime::named(sessions, name) {
            Some(found) => found.name == name && sessions.contains(found),
            None => forall|i: int|
                0 <= i < sessions.len() ==> (#[trigger] sessions[i]).name != name,
        },
    decreases sessions.len(),
{
    if sessions.len() > 0 {
        let rest = sessions.drop_first();
        law_a_name_resolves_to_its_session(rest, name);
        match runtime::named(sessions, name) {
            Some(found) => {
                if sessions[0].name == name {
                    assert(sessions[0] == found);
                } else {
                    let i = choose|i: int| 0 <= i < rest.len() && rest[i] == found;
                    assert(sessions[i + 1] == found);
                }
            },
            None => {
                assert forall|i: int| 0 <= i < sessions.len() implies (
                #[trigger] sessions[i]).name != name by {
                    if i > 0 {
                        assert(rest[i - 1] == sessions[i]);
                    }
                }
            },
        }
    }
}

/// The attached session is the selected one only where the id, the server's
/// process and its start all agree; the name does not count.
pub proof fn law_the_attached_session_is_the_selected_one(
    blocks: Seq<CommandBlock>,
    expected: SessionIdentityView,
)
    ensures
        runtime::attached(blocks, expected) ==> blocks.len() == 1 && blocks[0].lines@.len() == 1
            && (records::session_epoch_line(blocks[0].lines@[0]@) matches Ok(epoch)
            && epoch.session_id == expected.session_id && epoch.server_pid == expected.server_pid
            && epoch.server_start_time == expected.server_start_time),
{
}

/// A controller prepares, opens, executes, is accepted, attaches, proves its
/// session, settles an earlier zoom and reads the topology, in this order.
pub proof fn law_a_controller_starts_in_order()
    ensures
        ({
            let ok = RunFact::Succeeded;
            let a = run::run_advanced(
                (RunFlow { phase: RunPhase::Preparing, failure: None }),
                ok,
            );
            let b = run::run_advanced(a.0, ok);
            let c = run::run_advanced(b.0, ok);
            let d = run::run_advanced(c.0, ok);
            let e = run::run_advanced(d.0, ok);
            let f = run::run_advanced(e.0, ok);
            let g = run::run_advanced(f.0, ok);
            let h = run::run_advanced(g.0, ok);
            &&& a.1 == RunAction::OpenChannel
            &&& b.1 == RunAction::Execute
            &&& c.1 == RunAction::AwaitAcceptance
            &&& d.1 == RunAction::AwaitAttach
            &&& e.1 == RunAction::VerifyAttached
            &&& f.1 == RunAction::InheritZoom
            &&& g.1 == RunAction::Synchronize
            &&& h.1 == RunAction::Turn
            &&& run::run_advanced(h.0, ok).1 == RunAction::Turn
        }),
{
}

} // verus!
