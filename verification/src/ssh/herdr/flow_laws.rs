//! In which order a Herdr controller works.

use vstd::prelude::*;
use vstd::string::*;

use crate::bytes;
use crate::ssh::command::ControlCommand;
use crate::ssh::flow::FlowFailure;
use crate::ssh::herdr::command;
use crate::ssh::herdr::command::{HerdrAction, HerdrFact, HerdrFlow, HerdrProgram};
use crate::ssh::herdr::exchange;
use crate::ssh::herdr::exchange::{ExchangeAction, ExchangeFact, ExchangeKind};
use crate::ssh::herdr::records;
use crate::ssh::herdr::run;
use crate::ssh::herdr::run::{HerdrRun, HerdrRunAction, HerdrRunFact, HerdrRunPhase};
use crate::ssh::herdr::terminal;
use crate::ssh::herdr::terminal::{FrameState, FrameStep};
use crate::ssh::state::SessionState;
use crate::text;

verus! {

/// The flow after a step that succeeded.
pub open spec fn on(f: HerdrFlow) -> (HerdrFlow, HerdrAction) {
    command::herdr_advanced(f, HerdrFact::Succeeded)
}

/// Selecting a pane commits that pane, releases the terminal of the other one,
/// and attaches that very pane.
pub proof fn law_a_selected_pane_is_attached(window_id: u64, pane_id: u64)
    ensures
        ({
            let begun = command::herdr_begun(
                command::herdr_program((ControlCommand::SelectPane { window_id, pane_id })),
            );
            &&& begun.1 == (HerdrAction::CommitPane { window: window_id, pane: pane_id })
            &&& on(begun.0).1 == HerdrAction::Release
            &&& on(on(begun.0).0).1 == HerdrAction::Activate(Some(pane_id))
            &&& on(on(on(begun.0).0).0).1 == HerdrAction::Done
        }),
{
}

/// Selecting a group commits it and attaches what it shows.
pub proof fn law_a_selected_group_is_shown(group_id: u64)
    ensures
        ({
            let begun = command::herdr_begun(
                command::herdr_program((ControlCommand::SelectGroup { group_id })),
            );
            &&& begun.1 == (HerdrAction::CommitGroup { group: group_id })
            &&& on(begun.0).1 == HerdrAction::Activate(None)
            &&& on(on(begun.0).0).1 == HerdrAction::Done
        }),
{
}

/// A change is built, its terminal given back where it has to be, sent, read
/// back, what it made is selected, and the selection attached; what closes more
/// than it names reads the membership again before all of that.
pub proof fn law_a_change_is_read_back_and_shown(reread: bool, release: bool)
    ensures
        ({
            let begun = command::herdr_begun((HerdrProgram::Change { reread }));
            let ready = if reread {
                on(begun.0)
            } else {
                begun
            };
            let built = command::herdr_advanced(ready.0, (HerdrFact::Built { release }));
            let sent = if release {
                on(built.0)
            } else {
                built
            };
            let read = on(sent.0);
            let chosen = on(read.0);
            let shown = on(chosen.0);
            &&& reread ==> begun.1 == HerdrAction::Synchronize
            &&& ready.1 == HerdrAction::BuildRequest
            &&& release ==> built.1 == HerdrAction::Release
            &&& sent.1 == HerdrAction::SendRequest
            &&& read.1 == HerdrAction::Synchronize
            &&& chosen.1 == HerdrAction::SelectCreated
            &&& shown.1 == HerdrAction::Activate(None)
            &&& on(shown.0).1 == HerdrAction::Done
        }),
{
}

/// A failure ends a request as that failure, and a request is sent only once it
/// was built.
pub proof fn law_a_failed_change_fails(f: HerdrFlow, e: FlowFailure, fact: HerdrFact)
    ensures
        command::herdr_advanced(f, HerdrFact::Failed(e)).1 == HerdrAction::Fail(e),
        command::herdr_advanced(f, fact).1 == HerdrAction::SendRequest ==> fact == (
        HerdrFact::Built { release: false }) || (fact == HerdrFact::Succeeded && f.phase
            == command::HerdrPhase::Freeing),
{
}

/// A controller resolves its executable, probes the status, subscribes, reads
/// the topology and attaches, in this order, and waits; without a terminal to
/// attach it is marked ready, unless it recovers one.
pub proof fn law_a_controller_subscribes_before_it_reads(strict: bool, attached: bool)
    ensures
        ({
            let ok = HerdrRunFact::Succeeded { epoch_current: true };
            let start = HerdrRun { phase: HerdrRunPhase::Resolving, strict, failure: None };
            let probe = run::herdr_advanced(start, ok);
            let subscribe = run::herdr_advanced(probe.0, ok);
            let read = run::herdr_advanced(subscribe.0, ok);
            let attach = run::herdr_advanced(read.0, ok);
            let waits = run::herdr_advanced(
                attach.0,
                (HerdrRunFact::Activated { attached }),
            );
            &&& probe.1 == HerdrRunAction::ProbeStatus
            &&& subscribe.1 == HerdrRunAction::Subscribe
            &&& read.1 == HerdrRunAction::Synchronize
            &&& attach.1 == HerdrRunAction::Activate
            &&& attached || strict ==> waits.1 == HerdrRunAction::Wait
            &&& !attached && !strict ==> waits.1 == HerdrRunAction::MarkReady
        }),
{
}

/// A waiting controller handles each frame and request, and looks at its
/// terminal again when it is woken in the foreground.  A record that is no
/// event, and a stream that ends, end it.
pub proof fn law_a_waiting_controller_answers(x: HerdrRun, e: FlowFailure)
    requires
        x.phase == HerdrRunPhase::Waiting,
    ensures
        run::herdr_advanced(x, HerdrRunFact::Frame).1 == HerdrRunAction::HandleFrame,
        run::herdr_advanced(x, HerdrRunFact::Request).1 == HerdrRunAction::HandleRequest,
        run::herdr_advanced(x, (HerdrRunFact::Woken { foreground: true })).1
            == HerdrRunAction::Activate,
        run::herdr_advanced(x, (HerdrRunFact::Woken { foreground: false })).1
            == HerdrRunAction::Wait,
        run::herdr_advanced(x, (HerdrRunFact::Record { event: false })).1 == HerdrRunAction::Fail(
            FlowFailure::HerdrProtocol,
        ),
        run::herdr_advanced(x, HerdrRunFact::StreamFailed(e)).1 == HerdrRunAction::Release,
{
}

/// An exchange opens its channel, sends, awaits and delivers; a request closes
/// its channel afterwards, a subscription keeps it.
pub proof fn law_an_exchange_goes_in_order(kind: ExchangeKind)
    ensures
        ({
            let ok = ExchangeFact::Done { epoch_current: true };
            let open = exchange::exchange_begun(kind, true);
            let send = exchange::exchange_advanced(open.0, ok);
            let wait = exchange::exchange_advanced(send.0, ok);
            let reply = exchange::exchange_advanced(wait.0, ok);
            &&& open.1 == ExchangeAction::Open
            &&& send.1 == ExchangeAction::Send
            &&& wait.1 == ExchangeAction::Await
            &&& kind == ExchangeKind::Request ==> reply.1 == (ExchangeAction::Deliver {
                close: true,
            })
            &&& kind != ExchangeKind::Request ==> reply.1 == (ExchangeAction::Deliver {
                close: false,
            })
        }),
        exchange::exchange_begun(kind, false).1 == ExchangeAction::Fail(FlowFailure::Stale),
{
}

/// Once a terminal is shown, a complete frame replaces the display and a
/// difference is fed, each with a number that is new.
pub proof fn law_frames_replace_or_add(frame: FrameState, seq: u64, staged: bool, marked: bool)
    requires
        !frame.strict || frame.ready,
        frame.seq is None || seq > frame.seq->0,
    ensures
        terminal::frame_order(frame, seq, true, staged) == Ok::<FrameStep, FlowFailure>(
            FrameStep::Restore,
        ),
        frame.seq is Some ==> terminal::frame_order(frame, seq, false, staged) == Ok::<
            FrameStep,
            FlowFailure,
        >(FrameStep::Feed),
        terminal::frame_after(frame, seq, FrameStep::Feed, marked).seq == Some(seq),
        frame.ready ==> terminal::frame_after(frame, seq, FrameStep::Feed, marked).ready,
        marked ==> terminal::frame_after(frame, seq, FrameStep::Restore, marked).ready,
        !frame.ready && !marked ==> !terminal::frame_after(
            frame,
            seq,
            FrameStep::Restore,
            marked,
        ).ready,
{
}

/// A frame counts only for the pane that is selected, and only while the
/// terminal is visible or a recovery waits for it.
pub proof fn law_a_frame_counts_for_the_selected_pane(
    state: SessionState,
    pane: u64,
    strict: bool,
)
    ensures
        terminal::frame_fits(state, pane, strict) <==> state.selected_pane is Some
            && state.selected_pane->0 == pane && (state.terminal_visible || strict),
{
}

/// A terminal that another client took over is told apart from one that ended,
/// wherever the reason says so.
pub proof fn law_a_takeover_is_told_apart(
    before: Seq<char>,
    after: Seq<char>,
    reason: &str,
)
    requires
        reason@ == before + "taken over"@ + after || reason@ == before
            + "already has an attached client"@ + after,
    ensures
        terminal::closing_failure(Some(reason)) == FlowFailure::HerdrController,
        terminal::closing_failure(None) == FlowFailure::RemoteClosed,
{
    if reason@ == before + "taken over"@ + after {
        lemma_occurs(before, "taken over"@, after);
    } else {
        lemma_occurs(before, "already has an attached client"@, after);
    }
}

proof fn lemma_occurs(a: Seq<char>, b: Seq<char>, c: Seq<char>)
    ensures
        bytes::occurs_in(text::utf8(b), text::utf8(a + b + c)),
{
    text::lemma_utf8_join(a + b, c);
    text::lemma_utf8_join(a, b);
    let hay = text::utf8(a) + text::utf8(b) + text::utf8(c);
    let at = text::utf8(a).len() as int;
    assert(hay.subrange(at, at + text::utf8(b).len()) =~= text::utf8(b));
}

/// A record that ends in a line feed is delivered as it is, and nothing of it
/// is left.
pub proof fn law_a_record_is_its_line(record: Seq<u8>)
    requires
        record.len() > 0,
        !record.contains(0x0a),
    ensures
        records::records_of(record.push(0x0a)) == seq![record],
        records::rest_of(record.push(0x0a)) == Seq::<u8>::empty(),
        records::records_of(record) == Seq::<Seq<u8>>::empty(),
        records::rest_of(record) == record,
{
    let d = bytes::Delimiter::Byte(0x0a);
    let none = Seq::<u8>::empty();
    assert forall|j: int| 0 <= j < record.len() implies !d.matches(#[trigger] record[j]) by {
        assert(record.contains(record[j]));
    }
    assert(record.push(0x0a) =~= record + seq![0x0au8] + none);
    bytes::lemma_split_first(record, 0x0a, none, d);
    bytes::lemma_split_last(none, d);
    bytes::lemma_split_last(record, d);
    let lines = seq![record] + seq![none];
    assert(lines.drop_last() =~= seq![record]);
    assert(lines.last() == none);
    bytes::lemma_nonempty_all(seq![record]);
    assert(seq![record].drop_last() =~= Seq::<Seq<u8>>::empty());
    assert(bytes::nonempty(Seq::<Seq<u8>>::empty()) =~= Seq::<Seq<u8>>::empty());
}

} // verus!
