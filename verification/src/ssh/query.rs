//! One command on the control-mode stream, and the events around it.
//!
//! tmux answers with one block per command, nested ones included.  A trailing
//! sentinel delimits the whole request, so that one request's answer cannot
//! be mistaken for another's.

use vstd::prelude::*;
use vstd::string::*;

use crate::text;
use crate::bytes;
use crate::bytes::bytes_equal;
use crate::ssh::flow::FlowFailure;
use crate::text::{push_decimal, same_text};
use crate::tmux::decoder::{CommandBlock, Event, EventView};

verus! {

/// The most bytes that one answer, or the output beside a capture, may hold.
pub const MAX_REPLY_BYTES: usize = 33_554_432;

/// The most blocks that one answer may hold.
pub const MAX_REPLY_BLOCKS: usize = 4096;

/// The sentinel of a request of an operation.
pub open spec fn done_marker(generation: u64, number: u64) -> Seq<char> {
    "MEETERM_DONE_"@ + text::decimal(generation as nat) + "_"@ + text::decimal(number as nat)
}

/// The sentinel of a request of a cleanup.
pub open spec fn cleanup_marker(generation: u64, number: u64) -> Seq<char> {
    "MEETERM_CLEANUP_DONE_"@ + text::decimal(generation as nat) + "_"@ + text::decimal(number as nat)
}

/// A command with its sentinel, as it goes on the stream.
pub open spec fn request_text(command: Seq<char>, marker: Seq<char>) -> Seq<char> {
    command + " ; display-message -p '"@ + marker + "'\n"@
}

pub fn query_marker(generation: u64, number: u64) -> (r: String)
    ensures
        r@ == done_marker(generation, number),
{
    let mut marker = String::from_str("MEETERM_DONE_");
    push_decimal(&mut marker, generation);
    marker.append("_");
    push_decimal(&mut marker, number);
    marker
}

pub fn cleanup_query_marker(generation: u64, number: u64) -> (r: String)
    ensures
        r@ == cleanup_marker(generation, number),
{
    let mut marker = String::from_str("MEETERM_CLEANUP_DONE_");
    push_decimal(&mut marker, generation);
    marker.append("_");
    push_decimal(&mut marker, number);
    marker
}

pub fn query_request(command: &str, marker: &str) -> (r: Vec<u8>)
    ensures
        r@ == text::utf8(request_text(command@, marker@)),
{
    let mut request = String::from_str(command);
    request.append(" ; display-message -p '");
    request.append(marker);
    request.append("'\n");
    vstd::slice::slice_to_vec(request.as_str().as_bytes())
}

/// Which epoch an operation belongs to: its command's, else the epoch of the
/// strict recovery that it is part of, else the current one.
pub fn expected_epoch(
    command_epoch: Option<u64>,
    strict_recovery: bool,
    operation_epoch: u64,
    current_epoch: u64,
) -> (r: u64)
    ensures
        r == (match command_epoch {
            Some(epoch) => epoch,
            None => if strict_recovery {
                operation_epoch
            } else {
                current_epoch
            },
        }),
{
    match command_epoch {
        Some(epoch) => epoch,
        None => if strict_recovery {
            operation_epoch
        } else {
            current_epoch
        },
    }
}

/// The bytes of a block's lines.
pub open spec fn block_size(lines: Seq<Seq<u8>>) -> nat
    decreases lines.len(),
{
    if lines.len() == 0 {
        0
    } else {
        block_size(lines.drop_last()) + lines.last().len()
    }
}

/// The bytes of all blocks.
pub open spec fn reply_size(blocks: Seq<CommandBlock>) -> nat
    decreases blocks.len(),
{
    if blocks.len() == 0 {
        0
    } else {
        reply_size(blocks.drop_last()) + block_size(bytes::views(blocks.last().lines@))
    }
}

/// An answer that is being collected.
pub struct Reply {
    marker: Vec<u8>,
    blocks: Vec<CommandBlock>,
    bytes: usize,
}

/// What an event means for the answer.
pub enum ReplyStep {
    /// The answer goes on.
    More,
    /// The sentinel came: the answer is complete.
    Complete,
    Failed(FlowFailure),
    /// The event is no part of the answer.
    Other(Event),
}

/// The block is the sentinel.
pub open spec fn is_sentinel(block: CommandBlock, marker: Seq<u8>) -> bool {
    block.lines@.len() == 1 && block.lines@[0]@ == marker
}

/// What a block of the stream means while an answer is collected.
pub open spec fn block_step(
    collected: Seq<CommandBlock>,
    marker: Seq<u8>,
    block: CommandBlock,
) -> ReplyStep {
    if is_sentinel(block, marker) {
        ReplyStep::Complete
    } else if block.error {
        ReplyStep::Failed(FlowFailure::Tmux)
    } else if reply_size(collected) + block_size(bytes::views(block.lines@)) > MAX_REPLY_BYTES
        || collected.len() >= MAX_REPLY_BLOCKS {
        ReplyStep::Failed(FlowFailure::TmuxProtocol)
    } else {
        ReplyStep::More
    }
}

impl Reply {
    pub closed spec fn marker_bytes(&self) -> Seq<u8> {
        self.marker@
    }

    pub closed spec fn collected(&self) -> Seq<CommandBlock> {
        self.blocks@
    }

    #[verifier::type_invariant]
    spec fn counted(&self) -> bool {
        self.bytes == reply_size(self.blocks@) && self.bytes <= MAX_REPLY_BYTES
    }

    pub fn new(marker: &str) -> (r: Self)
        ensures
            r.marker_bytes() == text::utf8(marker@),
            r.collected() == Seq::<CommandBlock>::empty(),
    {
        Reply { marker: vstd::slice::slice_to_vec(marker.as_bytes()), blocks: Vec::new(), bytes: 0 }
    }

    /// The blocks of a complete answer.
    pub fn into_blocks(self) -> (r: Vec<CommandBlock>)
        ensures
            r@ == self.collected(),
    {
        self.blocks
    }

    /// Takes one event of the stream.
    pub fn accept(self, event: Event) -> (r: (Self, ReplyStep))
        ensures
            r.0.marker_bytes() == self.marker_bytes(),
            match event {
                Event::Command(block) => {
                    &&& r.1 == block_step(self.collected(), self.marker_bytes(), block)
                    &&& r.0.collected() == (if r.1 is More {
                        self.collected().push(block)
                    } else {
                        self.collected()
                    })
                },
                _ => r.1 == ReplyStep::Other(event) && r.0.collected() == self.collected(),
            },
    {
        proof {
            use_type_invariant(&self);
        }
        match event {
            Event::Command(block) => {
                if block.lines.len() == 1 && bytes_equal(
                    block.lines[0].as_slice(),
                    self.marker.as_slice(),
                ) {
                    return (self, ReplyStep::Complete);
                }
                assert(!is_sentinel(block, self.marker@));
                if block.error {
                    return (self, ReplyStep::Failed(FlowFailure::Tmux));
                }
                let limit: usize = MAX_REPLY_BYTES - self.bytes;
                match sized(&block.lines, limit) {
                    Some(size) => {
                        if self.blocks.len() >= MAX_REPLY_BLOCKS {
                            return (self, ReplyStep::Failed(FlowFailure::TmuxProtocol));
                        }
                        let Reply { marker, blocks, bytes } = self;
                        let mut more = blocks;
                        let ghost before = more@;
                        more.push(block);
                        assert(more@.drop_last() == before);
                        (Reply { marker, blocks: more, bytes: bytes + size }, ReplyStep::More)
                    },
                    None => (self, ReplyStep::Failed(FlowFailure::TmuxProtocol)),
                }
            },
            other => (self, ReplyStep::Other(other)),
        }
    }
}

proof fn lemma_block_size_grows(lines: Seq<Seq<u8>>, i: int)
    requires
        0 <= i <= lines.len(),
    ensures
        block_size(lines.take(i)) <= block_size(lines),
    decreases lines.len() - i,
{
    if i == lines.len() {
        assert(lines.take(i) == lines);
    } else {
        lemma_block_size_grows(lines, i + 1);
        assert(lines.take(i + 1).drop_last() == lines.take(i));
    }
}

/// The bytes of the lines, where they are at most `limit`.
fn sized(lines: &Vec<Vec<u8>>, limit: usize) -> (r: Option<usize>)
    ensures
        match r {
            Some(size) => size == block_size(bytes::views(lines@)) && size <= limit,
            None => block_size(bytes::views(lines@)) > limit,
        },
{
    let ghost all = bytes::views(lines@);
    let mut total: usize = 0;
    let mut i: usize = 0;
    assert(all.take(0) == Seq::<Seq<u8>>::empty());
    while i < lines.len()
        invariant
            i <= lines@.len(),
            all == bytes::views(lines@),
            total == block_size(all.take(i as int)),
            total <= limit,
        decreases lines@.len() - i,
    {
        assert(all.take(i + 1).drop_last() == all.take(i as int));
        assert(all.take(i + 1).last() == lines@[i as int]@);
        let length: usize = lines[i].len();
        if length > limit - total {
            proof {
                lemma_block_size_grows(all, i + 1);
            }
            return None;
        }
        total = total + length;
        i = i + 1;
    }
    assert(all.take(i as int) == all);
    Some(total)
}

/// Two requests of one kind in one generation have different sentinels.
pub proof fn law_sentinels_differ(generation: u64, a: u64, b: u64)
    requires
        done_marker(generation, a) == done_marker(generation, b) || cleanup_marker(generation, a)
            == cleanup_marker(generation, b),
    ensures
        a == b,
{
    let da = text::decimal(a as nat);
    let db = text::decimal(b as nat);
    let front = if done_marker(generation, a) == done_marker(generation, b) {
        "MEETERM_DONE_"@ + text::decimal(generation as nat) + "_"@
    } else {
        "MEETERM_CLEANUP_DONE_"@ + text::decimal(generation as nat) + "_"@
    };
    assert(front + da == front + db);
    assert((front + da).skip(front.len() as int) == da);
    assert((front + db).skip(front.len() as int) == db);
    crate::text::law_decimal_reads_back(a as nat, u64::MAX as nat);
    crate::text::law_decimal_reads_back(b as nat, u64::MAX as nat);
}

/// What the stream is doing besides the current request.
pub struct StreamState {
    /// The pane whose capture is under way.
    pub capturing: Option<u64>,
    /// The capture's first block has arrived.
    pub capture_complete: bool,
    /// Output of the captured pane that is newer than the capture.
    pub capture_output: Vec<u8>,
    /// The topology must be read again.
    pub dirty: bool,
}

/// What an event asks for.
pub enum Dispatch {
    Nothing,
    /// Show bytes in a native terminal.
    Feed { native: u64, bytes: Vec<u8> },
}

/// A notification that makes the known topology doubtful.
pub open spec fn changes_topology(name: Seq<char>) -> bool {
    ||| name == "window-add"@
    ||| name == "window-close"@
    ||| name == "window-renamed"@
    ||| name == "window-pane-changed"@
    ||| name == "layout-change"@
    ||| name == "session-window-changed"@
    ||| name == "session-changed"@
    ||| name == "sessions-changed"@
}

fn is_topology_change(name: &str) -> (r: bool)
    ensures
        r == changes_topology(name@),
{
    same_text(name, "window-add") || same_text(name, "window-close") || same_text(
        name,
        "window-renamed",
    ) || same_text(name, "window-pane-changed") || same_text(name, "layout-change") || same_text(
        name,
        "session-window-changed",
    ) || same_text(name, "session-changed") || same_text(name, "sessions-changed")
}

/// What becomes of the stream state by an event.
pub open spec fn stream_after(
    capturing: Option<u64>,
    capture_complete: bool,
    output: Seq<u8>,
    dirty: bool,
    event: EventView,
) -> (Seq<u8>, bool) {
    match event {
        EventView::Output { pane_id, bytes } => (
            if capturing == Some(pane_id) && capture_complete && output.len() + bytes.len()
                <= MAX_REPLY_BYTES {
                output + bytes
            } else {
                output
            },
            dirty,
        ),
        EventView::Notification { name, .. } => (output, dirty || changes_topology(name)),
        EventView::Command { .. } => (output, dirty),
    }
}

/// Why an event ends the flow, if it does.
pub open spec fn dispatch_failure(
    capturing: Option<u64>,
    capture_complete: bool,
    output: Seq<u8>,
    event: EventView,
) -> Option<FlowFailure> {
    match event {
        EventView::Output { pane_id, bytes } => if capturing == Some(pane_id) && capture_complete
            && output.len() + bytes.len() > MAX_REPLY_BYTES {
            Some(FlowFailure::TmuxProtocol)
        } else {
            None
        },
        EventView::Notification { name, .. } => if name == "exit"@ {
            Some(FlowFailure::RemoteClosed)
        } else {
            None
        },
        EventView::Command { error, .. } => if error {
            Some(FlowFailure::Tmux)
        } else {
            None
        },
    }
}

impl StreamState {
    pub fn new() -> (r: Self)
        ensures
            r.capturing is None,
            !r.capture_complete,
            r.capture_output@.len() == 0,
            !r.dirty,
    {
        StreamState {
            capturing: None,
            capture_complete: false,
            capture_output: Vec::new(),
            dirty: false,
        }
    }

    /// Handles an event that is no part of an answer.  `live` says that the
    /// generation is current and not cancelled; `route` is the native
    /// terminal of the event's pane, where the pane has one and is routed.
    /// Output of a pane without a route is part of its first capture.
    pub fn dispatch(&mut self, event: Event, live: bool, route: Option<u64>) -> (r: Result<
        Dispatch,
        FlowFailure,
    >)
        ensures
            final(self).capturing == old(self).capturing,
            final(self).capture_complete == old(self).capture_complete,
            !live ==> r == Err::<Dispatch, FlowFailure>(FlowFailure::Stale)
                && final(self).capture_output@ == old(self).capture_output@ && final(self).dirty
                == old(self).dirty,
            live ==> (final(self).capture_output@, final(self).dirty) == stream_after(
                old(self).capturing,
                old(self).capture_complete,
                old(self).capture_output@,
                old(self).dirty,
                event@,
            ),
            live ==> match dispatch_failure(
                old(self).capturing,
                old(self).capture_complete,
                old(self).capture_output@,
                event@,
            ) {
                Some(e) => r == Err::<Dispatch, FlowFailure>(e),
                None => match event {
                    Event::Output { pane_id, bytes } => if old(self).capturing != Some(pane_id)
                        && route is Some {
                        r == Ok::<Dispatch, FlowFailure>(
                            Dispatch::Feed { native: route->0, bytes },
                        )
                    } else {
                        r == Ok::<Dispatch, FlowFailure>(Dispatch::Nothing)
                    },
                    _ => r == Ok::<Dispatch, FlowFailure>(Dispatch::Nothing),
                },
            },
    {
        if !live {
            return Err(FlowFailure::Stale);
        }
        match event {
            Event::Output { pane_id, bytes } => {
                let own = match self.capturing {
                    Some(pane) => pane == pane_id,
                    None => false,
                };
                if own {
                    if self.capture_complete {
                        if bytes.len() > MAX_REPLY_BYTES || self.capture_output.len()
                            > MAX_REPLY_BYTES - bytes.len() {
                            return Err(FlowFailure::TmuxProtocol);
                        }
                        let mut more = bytes;
                        self.capture_output.append(&mut more);
                    }
                    return Ok(Dispatch::Nothing);
                }
                match route {
                    Some(native) => Ok(Dispatch::Feed { native, bytes }),
                    None => Ok(Dispatch::Nothing),
                }
            },
            Event::Notification { name, .. } => {
                if is_topology_change(name.as_str()) {
                    self.dirty = true;
                }
                if same_text(name.as_str(), "exit") {
                    return Err(FlowFailure::RemoteClosed);
                }
                Ok(Dispatch::Nothing)
            },
            Event::Command(block) => {
                if block.error {
                    return Err(FlowFailure::Tmux);
                }
                Ok(Dispatch::Nothing)
            },
        }
    }
}

} // verus!
