//! Incremental parser for the bytes of a tmux `-C` client.

use vstd::prelude::*;
use vstd::slice::*;
use vstd::string::*;
use vstd::utf8::*;

use crate::tmux::ids;
use crate::tmux::escape;
use crate::text;
use crate::bytes;
use crate::bytes::{
    bytes_equal, copy_range, find_byte, keep_nonempty, parse_decimal, split_bytes, starts_with,
    Delimiter,
};
use crate::text::same_text;
use crate::tmux::error::DecodeError;
use crate::tmux::escape::decode_octal;
use crate::tmux::ids::parse_pane_id;

verus! {

/// The longest line that the parser accepts.
pub const MAX_CONTROL_LINE: usize = 16_777_216;

/// The most bytes that the parser holds, in its buffer or in one block.
pub const MAX_CONTROL_BUFFER: usize = 33_554_432;

/// A command response block emitted by tmux Control Mode.
#[derive(Clone, Debug, PartialEq, Eq)]
pub struct CommandBlock {
    /// The command number assigned by tmux.
    pub number: u64,
    /// Lines between `%begin` and `%end`/`%error`, without line terminators.
    pub lines: Vec<Vec<u8>>,
    /// True when the block ended with `%error`.
    pub error: bool,
}

/// A decoded Control Mode event.
#[derive(Clone, Debug, PartialEq, Eq)]
pub enum Event {
    Command(CommandBlock),
    /// Pane output after tmux's octal escaping has been decoded.
    Output { pane_id: u64, bytes: Vec<u8> },
    /// A non-output notification.  The name comes without `%`; the remaining
    /// tokens retain their byte representation.
    Notification { name: String, arguments: Vec<Vec<u8>> },
}

struct CommandHeader {
    timestamp: Vec<u8>,
    number: u64,
    flags: Vec<u8>,
}

struct CommandBlockBuilder {
    header: CommandHeader,
    lines: Vec<Vec<u8>>,
    body_bytes: usize,
}

/// The parser: bytes of a line that is not complete yet, and the command
/// block that is open.
pub struct Decoder {
    buffer: Vec<u8>,
    block: Option<CommandBlockBuilder>,
}

/// What identifies a command block: its timestamp, number and flags.
#[verifier::ext_equal]
pub struct HeaderView {
    pub timestamp: Seq<u8>,
    pub number: u64,
    pub flags: Seq<u8>,
}

/// An open command block.
#[verifier::ext_equal]
pub struct BlockView {
    pub header: HeaderView,
    pub lines: Seq<Seq<u8>>,
    pub body_bytes: nat,
}

/// An event, by its contents.
#[verifier::ext_equal]
pub enum EventView {
    Command { number: u64, lines: Seq<Seq<u8>>, error: bool },
    Output { pane_id: u64, bytes: Seq<u8> },
    Notification { name: Seq<char>, arguments: Seq<Seq<u8>> },
}

/// The state of the parser.
#[verifier::ext_equal]
pub struct DecoderView {
    pub buffer: Seq<u8>,
    pub block: Option<BlockView>,
}

impl View for CommandBlock {
    type V = EventView;

    open spec fn view(&self) -> EventView {
        EventView::Command { number: self.number, lines: bytes::views(self.lines@), error: self.error }
    }
}

impl View for Event {
    type V = EventView;

    open spec fn view(&self) -> EventView {
        match self {
            Event::Command(block) => block@,
            Event::Output { pane_id, bytes } => EventView::Output {
                pane_id: *pane_id,
                bytes: bytes@,
            },
            Event::Notification { name, arguments } => EventView::Notification {
                name: name@,
                arguments: bytes::views(arguments@),
            },
        }
    }
}

impl View for CommandHeader {
    type V = HeaderView;

    closed spec fn view(&self) -> HeaderView {
        HeaderView { timestamp: self.timestamp@, number: self.number, flags: self.flags@ }
    }
}

impl View for CommandBlockBuilder {
    type V = BlockView;

    closed spec fn view(&self) -> BlockView {
        BlockView {
            header: self.header@,
            lines: bytes::views(self.lines@),
            body_bytes: self.body_bytes as nat,
        }
    }
}

impl View for Decoder {
    type V = DecoderView;

    closed spec fn view(&self) -> DecoderView {
        DecoderView {
            buffer: self.buffer@,
            block: match self.block {
                Some(b) => Some(b@),
                None => None,
            },
        }
    }
}

/// The contents of a list of events.
pub open spec fn event_views(events: Seq<Event>) -> Seq<EventView> {
    Seq::new(events.len(), |i: int| events[i]@)
}

/// A `%begin`, `%end` or `%error` line: the tag and three fields.
pub open spec fn block_header(line: Seq<u8>) -> Result<HeaderView, DecodeError> {
    let fields = bytes::nonempty(bytes::split(line, Delimiter::Whitespace));
    if fields.len() != 4 || !(fields[0] == text::utf8("%begin"@) || fields[0] == text::utf8("%end"@)
        || fields[0] == text::utf8("%error"@)) {
        Err(DecodeError::InvalidHeader)
    } else {
        match bytes::decimal_number(fields[2], u64::MAX as nat) {
            Some(n) => Ok(
                HeaderView { timestamp: fields[1], number: n as u64, flags: fields[3] },
            ),
            None => Err(DecodeError::InvalidCommandNumber),
        }
    }
}

/// Output for a pane, from the pane's id and the escaped payload.
pub open spec fn output_event(id: Seq<u8>, payload: Seq<u8>) -> Result<EventView, DecodeError> {
    match ids::pane_id(id) {
        Err(e) => Err(e),
        Ok(pane) => match escape::octal_decoded(payload) {
            Err(e) => Err(e),
            Ok(bytes) => Ok(EventView::Output { pane_id: pane, bytes }),
        },
    }
}

/// `%output %N payload`.  The payload may be empty and may hold spaces.
pub open spec fn output_line(line: Seq<u8>) -> Result<EventView, DecodeError> {
    if !text::utf8("%output "@).is_prefix_of(line) {
        Err(DecodeError::InvalidNotification)
    } else {
        let rest = line.skip(text::utf8("%output "@).len() as int);
        match bytes::find(rest, Delimiter::Byte(0x20)) {
            None => Err(DecodeError::InvalidNotification),
            Some(i) => output_event(rest.take(i), rest.skip(i + 1)),
        }
    }
}

/// `%extended-output %N age ... : payload`.  The first colon ends the
/// fields; it stands behind a space, and the payload behind another.
pub open spec fn extended_output_line(
    line: Seq<u8>,
    arguments: Seq<Seq<u8>>,
) -> Result<EventView, DecodeError> {
    if arguments.len() < 2 {
        Err(DecodeError::InvalidNotification)
    } else {
        match ids::pane_id(arguments[0]) {
            Err(e) => Err(e),
            Ok(_) => match bytes::find(line, Delimiter::Byte(0x3a)) {
                None => Err(DecodeError::InvalidNotification),
                Some(colon) => if colon == 0 || line[colon - 1] != 0x20 {
                    Err(DecodeError::InvalidNotification)
                } else if colon + 1 < line.len() && line[colon + 1] == 0x20 {
                    output_event(arguments[0], line.skip(colon + 2))
                } else {
                    output_event(arguments[0], seq![])
                },
            },
        }
    }
}

/// A line outside of any command block.
pub open spec fn notification(line: Seq<u8>) -> Result<EventView, DecodeError> {
    let fields = bytes::split(line, Delimiter::Byte(0x20));
    let head = fields[0];
    if head.len() < 2 || head[0] != 0x25 || !valid_utf8(head.skip(1)) {
        Err(DecodeError::InvalidNotification)
    } else {
        let name = decode_utf8(head.skip(1));
        let arguments = bytes::nonempty(fields.skip(1));
        if name == "output"@ {
            output_line(line)
        } else if name == "extended-output"@ {
            extended_output_line(line, arguments)
        } else {
            Ok(EventView::Notification { name, arguments })
        }
    }
}

pub open spec fn starts_end(line: Seq<u8>) -> bool {
    text::utf8("%end "@).is_prefix_of(line)
}

pub open spec fn starts_error(line: Seq<u8>) -> bool {
    text::utf8("%error "@).is_prefix_of(line)
}

/// Pane data in a response is arbitrary, so only a well-formed marker that
/// repeats the block's own header ends the block.
pub open spec fn closes(header: HeaderView, line: Seq<u8>) -> bool {
    (starts_end(line) || starts_error(line)) && block_header(line) == Ok::<
        HeaderView,
        DecodeError,
    >(header)
}

/// One complete line: the block that is open afterwards, and the event that
/// the line completes.
pub open spec fn line_step(block: Option<BlockView>, line: Seq<u8>) -> (
    Option<BlockView>,
    Result<Option<EventView>, DecodeError>,
) {
    match block {
        Some(b) => if closes(b.header, line) {
            (
                None,
                Ok(
                    Some(
                        EventView::Command {
                            number: b.header.number,
                            lines: b.lines,
                            error: starts_error(line),
                        },
                    ),
                ),
            )
        } else if b.body_bytes + line.len() + 1 > MAX_CONTROL_BUFFER {
            (block, Err(DecodeError::BufferTooLarge))
        } else {
            (
                Some(
                    BlockView {
                        header: b.header,
                        lines: b.lines.push(line),
                        body_bytes: b.body_bytes + line.len() + 1,
                    },
                ),
                Ok(None),
            )
        },
        None => if text::utf8("%begin "@).is_prefix_of(line) {
            match block_header(line) {
                Ok(header) => (
                    Some(BlockView { header, lines: seq![], body_bytes: 0 }),
                    Ok(None),
                ),
                Err(e) => (None, Err(e)),
            }
        } else if starts_end(line) || starts_error(line) {
            (None, Err(DecodeError::UnexpectedCommandEnd))
        } else {
            match notification(line) {
                Ok(event) => (None, Ok(Some(event))),
                Err(e) => (None, Err(e)),
            }
        },
    }
}

/// A line without its carriage return.
pub open spec fn without_cr(line: Seq<u8>) -> Seq<u8> {
    if line.len() > 0 && line.last() == 0x0d {
        line.drop_last()
    } else {
        line
    }
}

pub open spec fn event_list(event: Option<EventView>) -> Seq<EventView> {
    match event {
        Some(e) => seq![e],
        None => seq![],
    }
}

/// Events in front of those that the rest gives.
pub open spec fn then_events(
    events: Seq<EventView>,
    rest: Result<Seq<EventView>, DecodeError>,
) -> Result<Seq<EventView>, DecodeError> {
    match rest {
        Ok(more) => Ok(events + more),
        Err(e) => Err(e),
    }
}

/// Takes every complete line out of the buffer.
pub open spec fn drained(s: DecoderView) -> (DecoderView, Result<Seq<EventView>, DecodeError>)
    decreases s.buffer.len(),
{
    match bytes::find(s.buffer, Delimiter::Byte(0x0a)) {
        None => if s.buffer.len() > MAX_CONTROL_LINE {
            (s, Err(DecodeError::BufferTooLarge))
        } else {
            (s, Ok(seq![]))
        },
        Some(n) => if n > MAX_CONTROL_LINE || n < 0 || n >= s.buffer.len() {
            (s, Err(DecodeError::BufferTooLarge))
        } else {
            let (block, step) = line_step(s.block, without_cr(s.buffer.take(n)));
            let next = DecoderView { buffer: s.buffer.skip(n + 1), block };
            match step {
                Err(e) => (next, Err(e)),
                Ok(event) => {
                    let (last, rest) = drained(next);
                    (last, then_events(event_list(event), rest))
                },
            }
        },
    }
}

/// The state after one chunk, and the events that the chunk completes.
pub open spec fn fed(s: DecoderView, chunk: Seq<u8>) -> (
    DecoderView,
    Result<Seq<EventView>, DecodeError>,
) {
    if s.buffer.len() + chunk.len() > MAX_CONTROL_BUFFER {
        (s, Err(DecodeError::BufferTooLarge))
    } else {
        drained(DecoderView { buffer: s.buffer + chunk, block: s.block })
    }
}

/// Neither a line nor a block is open.
pub open spec fn idle(s: DecoderView) -> bool {
    s.buffer.len() == 0 && s.block is None
}

fn has_prefix(line: &[u8], prefix: &str) -> (r: bool)
    ensures
        r == text::utf8(prefix@).is_prefix_of(line@),
{
    starts_with(line, prefix.as_bytes())
}

fn is_text(bytes: &[u8], text: &str) -> (r: bool)
    ensures
        r == (bytes@ == text::utf8(text@)),
{
    bytes_equal(bytes, text.as_bytes())
}

fn parse_block_header(line: &[u8]) -> (r: Result<CommandHeader, DecodeError>)
    ensures
        match r {
            Ok(h) => block_header(line@) == Ok::<HeaderView, DecodeError>(h@),
            Err(e) => block_header(line@) == Err::<HeaderView, DecodeError>(e),
        },
{
    let fields = keep_nonempty(split_bytes(line, Delimiter::Whitespace));
    let ghost parts = bytes::views(fields@);
    if fields.len() != 4 {
        return Err(DecodeError::InvalidHeader);
    }
    assert(parts[0] == fields@[0]@ && parts[1] == fields@[1]@ && parts[2] == fields@[2]@
        && parts[3] == fields@[3]@);
    if !is_text(fields[0].as_slice(), "%begin") && !is_text(fields[0].as_slice(), "%end")
        && !is_text(fields[0].as_slice(), "%error") {
        return Err(DecodeError::InvalidHeader);
    }
    match parse_decimal(fields[2].as_slice(), u64::MAX) {
        None => Err(DecodeError::InvalidCommandNumber),
        Some(number) => {
            let timestamp = copy_range(fields[1].as_slice(), 0, fields[1].len());
            let flags = copy_range(fields[3].as_slice(), 0, fields[3].len());
            assert(timestamp@ == parts[1] && flags@ == parts[3]);
            Ok(CommandHeader { timestamp, number, flags })
        },
    }
}

fn parse_output(id: &[u8], payload: &[u8]) -> (r: Result<Event, DecodeError>)
    ensures
        match r {
            Ok(event) => output_event(id@, payload@) == Ok::<EventView, DecodeError>(event@),
            Err(e) => output_event(id@, payload@) == Err::<EventView, DecodeError>(e),
        },
{
    match parse_pane_id(id) {
        Err(e) => Err(e),
        Ok(pane_id) => match decode_octal(payload) {
            Err(e) => Err(e),
            Ok(bytes) => Ok(Event::Output { pane_id, bytes }),
        },
    }
}

fn parse_output_line(line: &[u8]) -> (r: Result<Event, DecodeError>)
    ensures
        match r {
            Ok(event) => output_line(line@) == Ok::<EventView, DecodeError>(event@),
            Err(e) => output_line(line@) == Err::<EventView, DecodeError>(e),
        },
{
    if !has_prefix(line, "%output ") {
        return Err(DecodeError::InvalidNotification);
    }
    let prefix: usize = "%output ".as_bytes().len();
    let rest = slice_subrange(line, prefix, line.len());
    assert(rest@ == line@.skip(prefix as int));
    match find_byte(rest, Delimiter::Byte(0x20)) {
        None => Err(DecodeError::InvalidNotification),
        Some(separator) => {
            let id = slice_subrange(rest, 0, separator);
            let payload = slice_subrange(rest, separator + 1, rest.len());
            assert(id@ == rest@.take(separator as int));
            assert(payload@ == rest@.skip(separator + 1));
            parse_output(id, payload)
        },
    }
}

fn parse_extended_output(line: &[u8], arguments: &Vec<Vec<u8>>) -> (r: Result<Event, DecodeError>)
    ensures
        match r {
            Ok(event) => extended_output_line(line@, bytes::views(arguments@)) == Ok::<
                EventView,
                DecodeError,
            >(event@),
            Err(e) => extended_output_line(line@, bytes::views(arguments@)) == Err::<
                EventView,
                DecodeError,
            >(e),
        },
{
    if arguments.len() < 2 {
        return Err(DecodeError::InvalidNotification);
    }
    let id = arguments[0].as_slice();
    assert(bytes::views(arguments@)[0] == id@);
    match parse_pane_id(id) {
        Err(e) => {
            return Err(e);
        },
        Ok(_) => {},
    }
    match find_byte(line, Delimiter::Byte(0x3a)) {
        None => Err(DecodeError::InvalidNotification),
        Some(colon) => if colon == 0 || line[colon - 1] != 0x20 {
            Err(DecodeError::InvalidNotification)
        } else if line.len() - colon > 1 && line[colon + 1] == 0x20 {
            let payload = slice_subrange(line, colon + 2, line.len());
            assert(payload@ == line@.skip(colon + 2));
            parse_output(id, payload)
        } else {
            let payload = slice_subrange(line, 0, 0);
            assert(payload@ == Seq::<u8>::empty());
            parse_output(id, payload)
        },
    }
}

fn parse_notification(line: &[u8]) -> (r: Result<Event, DecodeError>)
    ensures
        match r {
            Ok(event) => notification(line@) == Ok::<EventView, DecodeError>(event@),
            Err(e) => notification(line@) == Err::<EventView, DecodeError>(e),
        },
{
    let mut fields = split_bytes(line, Delimiter::Byte(0x20));
    let ghost parts = bytes::views(fields@);
    assert(parts.len() > 0);
    let tail = fields.split_off(1);
    assert(bytes::views(tail@) == parts.skip(1));
    assert(parts[0] == fields@[0]@);
    let head = fields[0].as_slice();
    if head.len() < 2 || head[0] != 0x25 {
        return Err(DecodeError::InvalidNotification);
    }
    let name_bytes = slice_subrange(head, 1, head.len());
    assert(name_bytes@ == parts[0].skip(1));
    let name = match core::str::from_utf8(name_bytes) {
        Ok(name) => name,
        Err(_) => {
            return Err(DecodeError::InvalidNotification);
        },
    };
    let arguments = keep_nonempty(tail);
    let name = name.to_owned();
    if same_text(name.as_str(), "output") {
        parse_output_line(line)
    } else if same_text(name.as_str(), "extended-output") {
        parse_extended_output(line, &arguments)
    } else {
        Ok(Event::Notification { name, arguments })
    }
}

impl Decoder {
    pub fn new() -> (r: Self)
        ensures
            idle(r@),
    {
        Decoder { buffer: Vec::new(), block: None }
    }

    /// Feeds one arbitrary channel chunk and returns all complete events.
    pub fn feed(&mut self, bytes: &[u8]) -> (r: Result<Vec<Event>, DecodeError>)
        ensures
            final(self)@ == fed(old(self)@, bytes@).0,
            match r {
                Ok(events) => fed(old(self)@, bytes@).1 == Ok::<Seq<EventView>, DecodeError>(
                    event_views(events@),
                ),
                Err(e) => fed(old(self)@, bytes@).1 == Err::<Seq<EventView>, DecodeError>(e),
            },
    {
        if bytes.len() > MAX_CONTROL_BUFFER || self.buffer.len() > MAX_CONTROL_BUFFER
            - bytes.len() {
            return Err(DecodeError::BufferTooLarge);
        }
        let mut piece = slice_to_vec(bytes);
        self.buffer.append(&mut piece);
        let ghost start = self@;
        let mut events: Vec<Event> = Vec::new();
        proof {
            match drained(start).1 {
                Ok(all) => assert(event_views(events@) + all == all),
                Err(_) => {},
            }
        }
        loop
            invariant
                fed(old(self)@, bytes@) == drained(start),
                drained(start) == (drained(self@).0, then_events(
                    event_views(events@),
                    drained(self@).1,
                )),
            decreases self.buffer@.len(),
        {
            let ghost here = self@;
            match find_byte(self.buffer.as_slice(), Delimiter::Byte(0x0a)) {
                None => {
                    if self.buffer.len() > MAX_CONTROL_LINE {
                        return Err(DecodeError::BufferTooLarge);
                    }
                    assert(event_views(events@) + Seq::<EventView>::empty() == event_views(
                        events@,
                    ));
                    return Ok(events);
                },
                Some(newline) => {
                    if newline > MAX_CONTROL_LINE {
                        return Err(DecodeError::BufferTooLarge);
                    }
                    let rest = self.buffer.split_off(newline + 1);
                    assert(rest@ == here.buffer.skip(newline + 1));
                    let mut end: usize = newline;
                    if end > 0 && self.buffer[end - 1] == 0x0d {
                        end = end - 1;
                    }
                    let line = copy_range(self.buffer.as_slice(), 0, end);
                    assert(line@ == without_cr(here.buffer.take(newline as int)));
                    self.buffer = rest;
                    assert(self@.buffer == here.buffer.skip(newline + 1));
                    let ghost before = events@;
                    match self.consume_line(line) {
                        Err(e) => {
                            return Err(e);
                        },
                        Ok(None) => {
                            proof {
                                lemma_then_events(
                                    event_views(before),
                                    seq![],
                                    drained(self@).1,
                                );
                            }
                        },
                        Ok(Some(event)) => {
                            proof {
                                lemma_then_events(
                                    event_views(before),
                                    seq![event@],
                                    drained(self@).1,
                                );
                                assert(event_views(before.push(event)) == event_views(before)
                                    + seq![event@]);
                            }
                            events.push(event);
                        },
                    }
                },
            }
        }
    }

    /// Rejects a truncated line or command block when the channel closes.
    pub fn finish(&self) -> (r: Result<(), DecodeError>)
        ensures
            r is Ok <==> idle(self@),
            r matches Err(e) ==> e == DecodeError::UnexpectedCommandEnd,
    {
        if self.block.is_some() || self.buffer.len() > 0 {
            return Err(DecodeError::UnexpectedCommandEnd);
        }
        Ok(())
    }

    fn consume_line(&mut self, line: Vec<u8>) -> (r: Result<Option<Event>, DecodeError>)
        ensures
            final(self)@.buffer == old(self)@.buffer,
            final(self)@.block == line_step(old(self)@.block, line@).0,
            match r {
                Ok(Some(event)) => line_step(old(self)@.block, line@).1 == Ok::<
                    Option<EventView>,
                    DecodeError,
                >(Some(event@)),
                Ok(None) => line_step(old(self)@.block, line@).1 == Ok::<
                    Option<EventView>,
                    DecodeError,
                >(None),
                Err(e) => line_step(old(self)@.block, line@).1 == Err::<
                    Option<EventView>,
                    DecodeError,
                >(e),
            },
    {
        let end = has_prefix(line.as_slice(), "%end ");
        let error = has_prefix(line.as_slice(), "%error ");
        match self.block.take() {
            Some(open) => {
                let mut block = open;
                if end || error {
                    if let Ok(header) = parse_block_header(line.as_slice()) {
                        if header.number == block.header.number && bytes_equal(
                            header.timestamp.as_slice(),
                            block.header.timestamp.as_slice(),
                        ) && bytes_equal(header.flags.as_slice(), block.header.flags.as_slice()) {
                            assert(header@ == block.header@);
                            return Ok(
                                Some(
                                    Event::Command(
                                        CommandBlock {
                                            number: block.header.number,
                                            lines: block.lines,
                                            error,
                                        },
                                    ),
                                ),
                            );
                        }
                    }
                }
                assert(!closes(block.header@, line@));
                if line.len() >= MAX_CONTROL_BUFFER || block.body_bytes > MAX_CONTROL_BUFFER - (
                line.len() + 1) {
                    self.block = Some(block);
                    return Err(DecodeError::BufferTooLarge);
                }
                block.body_bytes = block.body_bytes + (line.len() + 1);
                let ghost before = block.lines@;
                block.lines.push(line);
                assert(bytes::views(block.lines@) == bytes::views(before).push(line@));
                self.block = Some(block);
                Ok(None)
            },
            None => {
                if has_prefix(line.as_slice(), "%begin ") {
                    match parse_block_header(line.as_slice()) {
                        Err(e) => Err(e),
                        Ok(header) => {
                            let lines: Vec<Vec<u8>> = Vec::new();
                            assert(bytes::views(lines@) == Seq::<Seq<u8>>::empty());
                            self.block = Some(CommandBlockBuilder { header, lines, body_bytes: 0 });
                            Ok(None)
                        },
                    }
                } else if end || error {
                    Err(DecodeError::UnexpectedCommandEnd)
                } else {
                    match parse_notification(line.as_slice()) {
                        Ok(event) => Ok(Some(event)),
                        Err(e) => Err(e),
                    }
                }
            },
        }
    }
}

proof fn lemma_then_events(
    a: Seq<EventView>,
    b: Seq<EventView>,
    rest: Result<Seq<EventView>, DecodeError>,
)
    ensures
        then_events(a, then_events(b, rest)) == then_events(a + b, rest),
        b.len() == 0 ==> a + b == a,
{
    match rest {
        Ok(more) => assert(a + (b + more) == a + b + more),
        Err(_) => {},
    }
    if b.len() == 0 {
        assert(a + b == a);
    }
}

} // verus!
