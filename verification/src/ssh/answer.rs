//! Events that arrive while a request waits for its answer, and the capture of
//! a pane with the output that is newer than it.

use vstd::prelude::*;

use crate::ssh::capture::{capture_screen, StagedCapture};
use crate::ssh::flow::FlowFailure;
use crate::ssh::query::{Dispatch, Reply, ReplyStep, StreamState, MAX_REPLY_BYTES};
use crate::tmux::decoder::{CommandBlock, Event, EventView};
use crate::ssh::{capture, query};

verus! {

/// What an event asks for while an answer is collected.
pub enum AnswerStep {
    /// The answer goes on.
    More,
    Complete,
    /// Show bytes in a native terminal; the answer goes on.
    Feed { native: u64, bytes: Vec<u8> },
}

/// The stream as a value.
#[verifier::ext_equal]
pub struct StreamView {
    pub capturing: Option<u64>,
    pub capture_complete: bool,
    pub output: Seq<u8>,
    pub dirty: bool,
}

impl View for StreamState {
    type V = StreamView;

    open spec fn view(&self) -> StreamView {
        StreamView {
            capturing: self.capturing,
            capture_complete: self.capture_complete,
            output: self.capture_output@,
            dirty: self.dirty,
        }
    }
}

/// The stream after an event that is no part of an answer.
pub open spec fn dispatched(s: StreamView, event: EventView) -> StreamView {
    let after = query::stream_after(s.capturing, s.capture_complete, s.output, s.dirty, event);
    StreamView { output: after.0, dirty: after.1, ..s }
}

/// The stream after a block of an answer: a capture has its screen.
pub open spec fn block_kept(s: StreamView) -> StreamView {
    StreamView { capture_complete: s.capture_complete || s.capturing is Some, ..s }
}

pub open spec fn failure_of(s: StreamView, event: EventView) -> Option<FlowFailure> {
    query::dispatch_failure(s.capturing, s.capture_complete, s.output, event)
}

/// What an event beside the answer comes to.
pub open spec fn beside(s: StreamView, event: Event, live: bool, route: Option<u64>) -> Result<
    AnswerStep,
    FlowFailure,
> {
    if !live {
        Err(FlowFailure::Stale)
    } else {
        match failure_of(s, event@) {
            Some(e) => Err(e),
            None => match event {
                Event::Output { pane_id, bytes } => if s.capturing != Some(pane_id)
                    && route is Some {
                    Ok(AnswerStep::Feed { native: route->0, bytes })
                } else {
                    Ok(AnswerStep::More)
                },
                _ => Ok(AnswerStep::More),
            },
        }
    }
}

impl StreamState {
    /// Begins the capture of a pane.
    pub fn begin_capture(&mut self, pane: u64)
        ensures
            final(self)@ == (StreamView {
                capturing: Some(pane),
                capture_complete: false,
                output: seq![],
                dirty: old(self)@.dirty,
            }),
    {
        self.capturing = Some(pane);
        self.capture_complete = false;
        self.capture_output = Vec::new();
    }

    /// Takes an event while an answer is collected.  The blocks belong to the
    /// answer; everything else is handled beside it.
    pub fn answer(&mut self, reply: Reply, event: Event, live: bool, route: Option<u64>) -> (r: (
        Reply,
        Result<AnswerStep, FlowFailure>,
    ))
        ensures
            r.0.marker_bytes() == reply.marker_bytes(),
            match event {
                Event::Command(block) => match query::block_step(
                    reply.collected(),
                    reply.marker_bytes(),
                    block,
                ) {
                    ReplyStep::More => {
                        &&& r.1 == Ok::<AnswerStep, FlowFailure>(AnswerStep::More)
                        &&& r.0.collected() == reply.collected().push(block)
                        &&& final(self)@ == block_kept(old(self)@)
                    },
                    ReplyStep::Complete => {
                        &&& r.1 == Ok::<AnswerStep, FlowFailure>(AnswerStep::Complete)
                        &&& r.0.collected() == reply.collected()
                        &&& final(self)@ == old(self)@
                    },
                    ReplyStep::Failed(e) => {
                        &&& r.1 == Err::<AnswerStep, FlowFailure>(e)
                        &&& r.0.collected() == reply.collected()
                        &&& final(self)@ == old(self)@
                    },
                    ReplyStep::Other(_) => false,
                },
                _ => {
                    &&& r.0.collected() == reply.collected()
                    &&& r.1 == beside(old(self)@, event, live, route)
                    &&& final(self)@ == (if live {
                        dispatched(old(self)@, event@)
                    } else {
                        old(self)@
                    })
                },
            },
    {
        let (reply, step) = reply.accept(event);
        match step {
            ReplyStep::More => {
                if self.capturing.is_some() {
                    self.capture_complete = true;
                }
                (reply, Ok(AnswerStep::More))
            },
            ReplyStep::Complete => (reply, Ok(AnswerStep::Complete)),
            ReplyStep::Failed(e) => (reply, Err(e)),
            ReplyStep::Other(event) => match self.dispatch(event, live, route) {
                Ok(Dispatch::Feed { native, bytes }) => (
                    reply,
                    Ok(AnswerStep::Feed { native, bytes }),
                ),
                Ok(Dispatch::Nothing) => (reply, Ok(AnswerStep::More)),
                Err(e) => (reply, Err(e)),
            },
        }
    }

    /// Ends a capture with its answer.  `native` is the terminal of the pane.
    /// The output that is newer than the screen goes along once.
    pub fn finish_capture(&mut self, native: Option<u64>, blocks: &Vec<CommandBlock>) -> (r: Result<
        StagedCapture,
        FlowFailure,
    >)
        ensures
            match r {
                Ok(staged) => {
                    &&& native == Some(staged.native)
                    &&& capture::captured(blocks@) == Ok::<
                        capture::CapturedScreenView,
                        FlowFailure,
                    >(
                        capture::CapturedScreenView {
                            columns: staged.columns,
                            rows: staged.rows,
                            bytes: staged.bytes@,
                        },
                    )
                    &&& staged.trailing_output@ == old(self)@.output
                    &&& final(self)@ == (StreamView {
                        capturing: None,
                        output: seq![],
                        ..old(self)@
                    })
                },
                Err(e) => {
                    &&& final(self)@ == old(self)@
                    &&& match capture::captured(blocks@) {
                        Err(failure) => e == failure,
                        Ok(_) => native is None && e == FlowFailure::Stale,
                    }
                },
            },
    {
        match capture_screen(blocks) {
            Err(e) => Err(e),
            Ok(screen) => match native {
                None => Err(FlowFailure::Stale),
                Some(native) => {
                    let mut trailing_output: Vec<u8> = Vec::new();
                    trailing_output.append(&mut self.capture_output);
                    self.capturing = None;
                    assert(trailing_output@ =~= old(self)@.output);
                    Ok(
                        StagedCapture {
                            native,
                            columns: screen.columns,
                            rows: screen.rows,
                            bytes: screen.bytes,
                            trailing_output,
                        },
                    )
                },
            },
        }
    }
}

/// The output of a pane among events, in their order.
pub open spec fn output_of(pane: u64, events: Seq<EventView>) -> Seq<u8>
    decreases events.len(),
{
    if events.len() == 0 {
        seq![]
    } else {
        let front = output_of(pane, events.drop_last());
        match events.last() {
            EventView::Output { pane_id, bytes } => if pane_id == pane {
                front + bytes
            } else {
                front
            },
            _ => front,
        }
    }
}

/// The stream after events beside the answer.
pub open spec fn streamed(s: StreamView, events: Seq<EventView>) -> StreamView
    decreases events.len(),
{
    if events.len() == 0 {
        s
    } else {
        dispatched(streamed(s, events.drop_last()), events.last())
    }
}

/// Once a capture has its screen, it keeps all of its pane's output, each byte
/// once and in its order, until the bound of an answer.
pub proof fn law_output_beside_a_capture_is_kept_once(
    s: StreamView,
    pane: u64,
    events: Seq<EventView>,
)
    requires
        s.capturing == Some(pane),
        s.capture_complete,
        s.output.len() + output_of(pane, events).len() <= MAX_REPLY_BYTES,
    ensures
        streamed(s, events).output == s.output + output_of(pane, events),
        streamed(s, events).capturing == s.capturing,
        streamed(s, events).capture_complete,
    decreases events.len(),
{
    if events.len() == 0 {
        assert(s.output + output_of(pane, events) =~= s.output);
    } else {
        let front = events.drop_last();
        assert(output_of(pane, front).len() <= output_of(pane, events).len());
        law_output_beside_a_capture_is_kept_once(s, pane, front);
        assert(streamed(s, events).output =~= s.output + output_of(pane, events));
    }
}

/// The terminal to draw again: the selected pane, where it is routed.
pub fn refresh_target(selected: Option<u64>, routed: bool) -> (r: Option<u64>)
    ensures
        r == (if routed {
            selected
        } else {
            None
        }),
{
    if routed {
        selected
    } else {
        None
    }
}

} // verus!
