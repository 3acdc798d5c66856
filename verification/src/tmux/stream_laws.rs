//! What holds of a control-mode stream as a whole: chunk boundaries do not
//! matter, a response is framed by its own markers, pane output arrives as it
//! was sent, and a stream that was cut off is noticed.

use vstd::prelude::*;

use crate::tmux::escape;
use crate::tmux::decoder;
use crate::text;
use crate::bytes;
use crate::bytes::Delimiter;
use crate::tmux::decoder::{
    BlockView, DecoderView, EventView, HeaderView, MAX_CONTROL_BUFFER, MAX_CONTROL_LINE,
};
use crate::tmux::error::DecodeError;

verus! {

proof fn lemma_drained_more(s: DecoderView, more: Seq<u8>)
    ensures
        ({
            let longer = DecoderView { buffer: s.buffer + more, block: s.block };
            let (after, events) = decoder::drained(s);
            let rest = DecoderView { buffer: after.buffer + more, block: after.block };
            &&& after.buffer.len() <= s.buffer.len()
            &&& match events {
                Ok(first) => decoder::drained(longer) == (decoder::drained(rest).0, decoder::then_events(
                    first,
                    decoder::drained(rest).1,
                )),
                Err(e) => decoder::drained(longer).1 == Err::<Seq<EventView>, DecodeError>(e),
            }
        }),
    decreases s.buffer.len(),
{
    let d = Delimiter::Byte(0x0a);
    let longer = DecoderView { buffer: s.buffer + more, block: s.block };
    bytes::lemma_find(s.buffer, d);
    bytes::lemma_find(longer.buffer, d);
    match bytes::find(s.buffer, d) {
        None => {
            if s.buffer.len() > MAX_CONTROL_LINE {
                match bytes::find(longer.buffer, d) {
                    Some(n) => {
                        assert(n >= s.buffer.len()) by {
                            if n < s.buffer.len() {
                                assert(longer.buffer[n] == s.buffer[n]);
                            }
                        }
                    },
                    None => {},
                }
            } else {
                match decoder::drained(longer).1 {
                    Ok(all) => assert(Seq::<EventView>::empty() + all == all),
                    Err(_) => {},
                }
            }
        },
        Some(n) => {
            assert(forall|j: int| 0 <= j < s.buffer.len() ==> longer.buffer[j] == s.buffer[j]);
            bytes::lemma_find_is(longer.buffer, d, n);
            assert(longer.buffer.take(n) == s.buffer.take(n));
            assert(longer.buffer.skip(n + 1) == s.buffer.skip(n + 1) + more);
            if n <= MAX_CONTROL_LINE {
                let (block, step) = decoder::line_step(s.block, decoder::without_cr(s.buffer.take(n)));
                let next = DecoderView { buffer: s.buffer.skip(n + 1), block };
                match step {
                    Err(_) => {},
                    Ok(event) => {
                        lemma_drained_more(next, more);
                        let (after, rest_events) = decoder::drained(next);
                        match rest_events {
                            Ok(first) => {
                                let rest = DecoderView {
                                    buffer: after.buffer + more,
                                    block: after.block,
                                };
                                match decoder::drained(rest).1 {
                                    Ok(all) => assert(decoder::event_list(event) + (first + all)
                                        == decoder::event_list(event) + first + all),
                                    Err(_) => {},
                                }
                            },
                            Err(_) => {},
                        }
                    },
                }
            }
        },
    }
}

/// Chunk boundaries do not matter: feeding `a` and then `b` gives the same
/// events, the same state and the same error as feeding them in one piece,
/// as long as one piece is within the buffer limit.
pub proof fn law_chunk_boundaries_do_not_matter(s: DecoderView, a: Seq<u8>, b: Seq<u8>)
    requires
        s.buffer.len() + a.len() + b.len() <= MAX_CONTROL_BUFFER,
    ensures
        match decoder::fed(s, a).1 {
            Ok(first) => decoder::fed(s, a + b) == (decoder::fed(decoder::fed(s, a).0, b).0, decoder::then_events(
                first,
                decoder::fed(decoder::fed(s, a).0, b).1,
            )),
            Err(e) => decoder::fed(s, a + b).1 == Err::<Seq<EventView>, DecodeError>(e),
        },
{
    let once = DecoderView { buffer: s.buffer + a, block: s.block };
    lemma_drained_more(once, b);
    assert(s.buffer + (a + b) == s.buffer + a + b);
}

/// While a block is open, every line that does not repeat the block's own
/// header in a closing marker is body data, however much it looks like a
/// marker or a notification.
pub proof fn law_only_its_own_marker_closes_a_block(block: BlockView, line: Seq<u8>)
    requires
        decoder::block_header(line) != Ok::<HeaderView, DecodeError>(block.header),
        block.body_bytes + line.len() + 1 <= MAX_CONTROL_BUFFER,
    ensures
        decoder::line_step(Some(block), line) == (
            Some(
                BlockView {
                    header: block.header,
                    lines: block.lines.push(line),
                    body_bytes: block.body_bytes + line.len() + 1,
                },
            ),
            Ok::<Option<EventView>, DecodeError>(None),
        ),
{
}

/// A line that can travel: no line feed in it, no carriage return at its
/// end, and short enough.
pub open spec fn carries(line: Seq<u8>) -> bool {
    &&& line.len() <= MAX_CONTROL_LINE
    &&& forall|j: int| 0 <= j < line.len() ==> #[trigger] line[j] != 0x0a
    &&& line.len() > 0 ==> line.last() != 0x0d
}

proof fn lemma_drained_line(block: Option<BlockView>, line: Seq<u8>, rest: Seq<u8>)
    requires
        carries(line),
    ensures
        ({
            let s = DecoderView { buffer: line + seq![0x0au8] + rest, block };
            let (next, step) = decoder::line_step(block, line);
            let after = decoder::drained(DecoderView { buffer: rest, block: next });
            match step {
                Ok(event) => decoder::drained(s) == (after.0, decoder::then_events(decoder::event_list(event), after.1)),
                Err(e) => decoder::drained(s).1 == Err::<Seq<EventView>, DecodeError>(e),
            }
        }),
{
    let d = Delimiter::Byte(0x0a);
    let s = DecoderView { buffer: line + seq![0x0au8] + rest, block };
    let n = line.len() as int;
    assert(forall|j: int| 0 <= j < n ==> s.buffer[j] == line[j]);
    bytes::lemma_find_is(s.buffer, d, n);
    assert(s.buffer.take(n) == line);
    assert(s.buffer.skip(n + 1) == rest);
}

/// A word: at least one byte, none of them whitespace.
pub open spec fn is_word(s: Seq<u8>) -> bool {
    s.len() > 0 && forall|j: int| 0 <= j < s.len() ==> !bytes::is_whitespace_byte(#[trigger] s[j])
}

/// The marker line with the given tag and header.
pub open spec fn marker(tag: Seq<char>, header: HeaderView) -> Seq<u8> {
    text::utf8(tag) + seq![0x20u8] + (header.timestamp + seq![0x20u8] + (text::utf8(
        text::decimal(header.number as nat),
    ) + seq![0x20u8] + header.flags))
}

proof fn lemma_marker(tag: Seq<char>, header: HeaderView)
    requires
        tag == "%begin"@ || tag == "%end"@ || tag == "%error"@,
        is_word(header.timestamp),
        is_word(header.flags),
    ensures
        decoder::block_header(marker(tag, header)) == Ok::<HeaderView, DecodeError>(header),
        marker(tag, header).last() == header.flags.last(),
        forall|j: int|
            0 <= j < marker(tag, header).len() ==> #[trigger] marker(tag, header)[j] != 0x0a,
        text::utf8("%begin "@).is_prefix_of(marker(tag, header)) <==> tag == "%begin"@,
        decoder::starts_end(marker(tag, header)) <==> tag == "%end"@,
        decoder::starts_error(marker(tag, header)) <==> tag == "%error"@,
        marker(tag, header).len() == text::utf8(tag).len() + header.timestamp.len() + text::utf8(
            text::decimal(header.number as nat),
        ).len() + header.flags.len() + 3,
        text::utf8(tag).len() <= 6,
{
    let d = Delimiter::Whitespace;
    reveal_strlit("%begin");
    reveal_strlit("%end");
    reveal_strlit("%error");
    reveal_strlit("%begin ");
    reveal_strlit("%end ");
    reveal_strlit("%error ");
    text::lemma_utf8_ascii("%begin"@);
    text::lemma_utf8_ascii("%end"@);
    text::lemma_utf8_ascii("%error"@);
    text::lemma_utf8_ascii("%begin "@);
    text::lemma_utf8_ascii("%end "@);
    text::lemma_utf8_ascii("%error "@);
    let number = text::utf8(text::decimal(header.number as nat));
    text::law_decimal_reads_back(header.number as nat, u64::MAX as nat);
    assert forall|j: int| 0 <= j < number.len() implies !d.matches(#[trigger] number[j]) by {
        assert(bytes::is_digit(number[j]));
    }
    let tag_bytes = text::utf8(tag);
    let tail2 = number + seq![0x20u8] + header.flags;
    let tail1 = header.timestamp + seq![0x20u8] + tail2;
    let line = marker(tag, header);
    bytes::lemma_split_last(header.flags, d);
    bytes::lemma_split_first(number, 0x20, header.flags, d);
    bytes::lemma_split_first(header.timestamp, 0x20, tail2, d);
    bytes::lemma_split_first(tag_bytes, 0x20, tail1, d);
    let fields = seq![tag_bytes, header.timestamp, number, header.flags];
    assert(bytes::split(line, d) =~= fields);
    assert forall|i: int| 0 <= i < fields.len() implies (#[trigger] fields[i]).len() > 0 by {}
    bytes::lemma_nonempty_all(fields);
    assert(line[0] == tag_bytes[0] && line[1] == tag_bytes[1] && line[2] == tag_bytes[2]);
    assert(line[tag_bytes.len() as int] == 0x20);
    assert(line.subrange(0, tag_bytes.len() as int + 1) =~= tag_bytes + seq![0x20u8]);
    assert(text::utf8("%begin "@) =~= text::utf8("%begin"@) + seq![0x20u8]);
    assert(text::utf8("%end "@) =~= text::utf8("%end"@) + seq![0x20u8]);
    assert(text::utf8("%error "@) =~= text::utf8("%error"@) + seq![0x20u8]);
    if tag != "%begin"@ && text::utf8("%begin "@).is_prefix_of(line) {
        assert(line[1] == text::utf8("%begin "@)[1]);
    }
    if tag != "%end"@ && decoder::starts_end(line) {
        assert(line[1] == text::utf8("%end "@)[1]);
        assert(line[2] == text::utf8("%end "@)[2]);
    }
    if tag != "%error"@ && decoder::starts_error(line) {
        assert(line[1] == text::utf8("%error "@)[1]);
        assert(line[2] == text::utf8("%error "@)[2]);
    }
}

/// Lines, each with its line feed.
pub open spec fn joined(lines: Seq<Seq<u8>>) -> Seq<u8>
    decreases lines.len(),
{
    if lines.len() == 0 {
        seq![]
    } else {
        lines[0] + seq![0x0au8] + joined(lines.skip(1))
    }
}

/// How much room the lines of a block take.
pub open spec fn body_size(lines: Seq<Seq<u8>>) -> nat
    decreases lines.len(),
{
    if lines.len() == 0 {
        0
    } else {
        lines[0].len() + 1 + body_size(lines.skip(1))
    }
}

proof fn lemma_body(block: BlockView, lines: Seq<Seq<u8>>, rest: Seq<u8>)
    requires
        forall|i: int| 0 <= i < lines.len() ==> carries(#[trigger] lines[i]) && !decoder::closes(
            block.header,
            lines[i],
        ),
        block.body_bytes + body_size(lines) <= MAX_CONTROL_BUFFER,
    ensures
        decoder::drained(DecoderView { buffer: joined(lines) + rest, block: Some(block) }) == decoder::drained(
            DecoderView {
                buffer: rest,
                block: Some(
                    BlockView {
                        header: block.header,
                        lines: block.lines + lines,
                        body_bytes: block.body_bytes + body_size(lines),
                    },
                ),
            },
        ),
    decreases lines.len(),
{
    if lines.len() == 0 {
        assert(joined(lines) + rest == rest);
        assert(block.lines + lines == block.lines);
    } else {
        let line = lines[0];
        let tail = lines.skip(1);
        assert(carries(line) && !decoder::closes(block.header, line));
        let next = BlockView {
            header: block.header,
            lines: block.lines.push(line),
            body_bytes: block.body_bytes + line.len() + 1,
        };
        assert forall|i: int| 0 <= i < tail.len() implies carries(#[trigger] tail[i]) && !decoder::closes(
            next.header,
            tail[i],
        ) by {
            assert(tail[i] == lines[i + 1]);
        }
        lemma_body(next, tail, rest);
        lemma_drained_line(Some(block), line, joined(tail) + rest);
        assert(joined(lines) + rest == line + seq![0x0au8] + (joined(tail) + rest));
        assert(block.lines.push(line) + tail == block.lines + lines);
        let after = decoder::drained(DecoderView { buffer: joined(tail) + rest, block: Some(next) });
        match after.1 {
            Ok(all) => assert(Seq::<EventView>::empty() + all == all),
            Err(_) => {},
        }
    }
}

/// A command response is framed by its own markers: between idle states it
/// becomes exactly one event with exactly the lines in between, and what
/// follows is read as if the response had not been there.
pub proof fn law_response_is_framed(
    header: HeaderView,
    lines: Seq<Seq<u8>>,
    error: bool,
    rest: Seq<u8>,
)
    requires
        is_word(header.timestamp),
        is_word(header.flags),
        header.timestamp.len() + header.flags.len() + 40 <= MAX_CONTROL_LINE,
        forall|i: int| 0 <= i < lines.len() ==> carries(#[trigger] lines[i]) && !decoder::closes(
            header,
            lines[i],
        ),
        body_size(lines) <= MAX_CONTROL_BUFFER,
    ensures
        ({
            let begin = marker("%begin"@, header) + seq![0x0au8];
            let end = marker(
                if error {
                    "%error"@
                } else {
                    "%end"@
                },
                header,
            ) + seq![0x0au8];
            let after = decoder::drained(DecoderView { buffer: rest, block: None });
            decoder::drained(DecoderView { buffer: begin + (joined(lines) + (end + rest)), block: None })
                == (after.0, decoder::then_events(
                seq![EventView::Command { number: header.number, lines, error }],
                after.1,
            ))
        }),
{
    let tag = if error {
        "%error"@
    } else {
        "%end"@
    };
    let begin = marker("%begin"@, header);
    let end = marker(tag, header);
    lemma_marker("%begin"@, header);
    lemma_marker(tag, header);
    lemma_decimal_short(header.number);
    assert("%end"@ != "%error"@) by {
        reveal_strlit("%end");
        reveal_strlit("%error");
    }
    assert(carries(begin));
    assert(carries(end));
    let open = BlockView { header, lines: seq![], body_bytes: 0 };
    let full = BlockView { header, lines, body_bytes: body_size(lines) };
    let tail = joined(lines) + (end + seq![0x0au8] + rest);
    lemma_drained_line(None, begin, tail);
    assert(decoder::line_step(None, begin) == (Some(open), Ok::<Option<EventView>, DecodeError>(None)));
    lemma_body(open, lines, end + seq![0x0au8] + rest);
    assert(open.lines + lines == lines);
    lemma_drained_line(Some(full), end, rest);
    assert(decoder::closes(header, end));
    assert(begin + seq![0x0au8] + tail == begin + seq![0x0au8] + (joined(lines) + ((end
        + seq![0x0au8]) + rest)));
    match decoder::drained(DecoderView { buffer: tail, block: Some(open) }).1 {
        Ok(all) => assert(Seq::<EventView>::empty() + all == all),
        Err(_) => {},
    }
}

proof fn lemma_decimal_short(n: u64)
    ensures
        text::utf8(text::decimal(n as nat)).len() <= 20,
{
    lemma_decimal_len(n as nat, 20);
    text::law_decimal_reads_back(n as nat, u64::MAX as nat);
    lemma_decimal_ascii(n as nat);
    text::lemma_utf8_ascii(text::decimal(n as nat));
}

proof fn lemma_decimal_ascii(n: nat)
    ensures
        vstd::utf8::is_ascii_chars(text::decimal(n)),
    decreases n,
{
    if n >= 10 {
        lemma_decimal_ascii(n / 10);
    }
}

spec fn pow10(k: nat) -> nat
    decreases k,
{
    if k == 0 {
        1
    } else {
        10 * pow10((k - 1) as nat)
    }
}

proof fn lemma_decimal_len(n: nat, k: nat)
    requires
        1 <= k <= 20,
        n < pow10(k) || k == 20 && n <= u64::MAX,
    ensures
        text::decimal(n).len() <= k,
    decreases k,
{
    reveal_with_fuel(pow10, 21);
    if n >= 10 {
        lemma_decimal_len(n / 10, (k - 1) as nat);
    }
}

/// The line that tells of a pane's output.
pub open spec fn output_line(pane: u64, bytes: Seq<u8>, escaped: Set<u8>) -> Seq<u8> {
    text::utf8("%output "@) + (seq![0x25u8] + text::utf8(text::decimal(pane as nat)) + seq![0x20u8]
        + escape::octal_encoded(bytes, escaped))
}

#[verifier::spinoff_prover]
proof fn lemma_output_notification(pane: u64, bytes: Seq<u8>, escaped: Set<u8>)
    requires
        escaped.contains(0x5c),
    ensures
        decoder::notification(output_line(pane, bytes, escaped)) == Ok::<EventView, DecodeError>(
            EventView::Output { pane_id: pane, bytes },
        ),
{
    let payload = escape::octal_encoded(bytes, escaped);
    let digits = text::utf8(text::decimal(pane as nat));
    let id = seq![0x25u8] + digits;
    let after_prefix = id + seq![0x20u8] + payload;
    let prefix = text::utf8("%output "@);
    let line = prefix + after_prefix;
    reveal_strlit("%output ");
    reveal_strlit("output");
    text::lemma_utf8_ascii("%output "@);
    text::lemma_utf8_ascii("output"@);
    text::law_decimal_reads_back(pane as nat, u64::MAX as nat);
    escape::law_output_reads_back(bytes, escaped);
    let space = Delimiter::Byte(0x20);
    // The name of the notification.
    let head = seq![0x25u8] + text::utf8("output"@);
    assert(prefix =~= head + seq![0x20u8]);
    assert(line =~= head + seq![0x20u8] + after_prefix);
    bytes::lemma_split_first(head, 0x20, after_prefix, space);
    assert(bytes::split(line, space)[0] == head);
    assert(head.skip(1) =~= text::utf8("output"@));
    vstd::utf8::encode_utf8_valid_utf8("output"@);
    vstd::utf8::encode_utf8_decode_utf8("output"@);
    // The pane and its payload.
    assert(line.subrange(0, prefix.len() as int) =~= prefix);
    assert(line.skip(prefix.len() as int) =~= after_prefix);
    assert(forall|j: int| 0 <= j < digits.len() ==> bytes::is_digit(#[trigger] digits[j]));
    assert forall|j: int| 0 <= j < id.len() implies #[trigger] after_prefix[j] != 0x20 by {
        if j > 0 {
            assert(after_prefix[j] == digits[j - 1]);
            assert(bytes::is_digit(digits[j - 1]));
        }
    }
    bytes::lemma_find_is(after_prefix, space, id.len() as int);
    assert(after_prefix.take(id.len() as int) =~= id);
    assert(after_prefix.skip(id.len() as int + 1) =~= payload);
    assert(id.skip(1) =~= digits);
    assert(decoder::output_event(id, payload) == Ok::<EventView, DecodeError>(
        EventView::Output { pane_id: pane, bytes },
    ));
}

/// The line travels, and opens or closes no block.
#[verifier::spinoff_prover]
proof fn lemma_output_carries(pane: u64, bytes: Seq<u8>, escaped: Set<u8>)
    requires
        escaped.contains(0x0a),
        escaped.contains(0x0d),
        4 * bytes.len() + 40 <= MAX_CONTROL_LINE,
    ensures
        carries(output_line(pane, bytes, escaped)),
        output_line(pane, bytes, escaped).len() > 1,
        output_line(pane, bytes, escaped)[0] == 0x25,
        output_line(pane, bytes, escaped)[1] == 0x6f,
{
    let payload = escape::octal_encoded(bytes, escaped);
    let digits = text::utf8(text::decimal(pane as nat));
    let id = seq![0x25u8] + digits;
    let prefix = text::utf8("%output "@);
    let line = output_line(pane, bytes, escaped);
    reveal_strlit("%output ");
    text::lemma_utf8_ascii("%output "@);
    text::law_decimal_reads_back(pane as nat, u64::MAX as nat);
    lemma_decimal_short(pane);
    lemma_encoded_plain(bytes, escaped);
    assert(forall|j: int| 0 <= j < digits.len() ==> bytes::is_digit(#[trigger] digits[j]));
    assert forall|j: int| 0 <= j < line.len() implies #[trigger] line[j] != 0x0a by {
        let k = j - prefix.len();
        if j < prefix.len() {
            assert(line[j] == prefix[j]);
        } else if k < id.len() {
            assert(line[j] == id[k]);
            if k > 0 {
                assert(bytes::is_digit(digits[k - 1]));
            }
        } else if k > id.len() {
            assert(line[j] == payload[k - id.len() - 1]);
        }
    }
    if payload.len() > 0 {
        assert(line.last() == payload.last());
    } else {
        assert(line.last() == 0x20);
    }
}

/// Pane output arrives as it was sent: a `%output` line with the pane's id
/// and the escaped bytes becomes one output event for that pane with those
/// bytes, and what follows is read on its own.
#[verifier::spinoff_prover]
pub proof fn law_output_is_delivered(pane: u64, bytes: Seq<u8>, escaped: Set<u8>, rest: Seq<u8>)
    requires
        escaped.contains(0x5c),
        escaped.contains(0x0a),
        escaped.contains(0x0d),
        4 * bytes.len() + 40 <= MAX_CONTROL_LINE,
    ensures
        ({
            let line = output_line(pane, bytes, escaped);
            let after = decoder::drained(DecoderView { buffer: rest, block: None });
            decoder::drained(DecoderView { buffer: line + seq![0x0au8] + rest, block: None }) == (
                after.0,
                decoder::then_events(seq![EventView::Output { pane_id: pane, bytes }], after.1),
            )
        }),
{
    let line = output_line(pane, bytes, escaped);
    lemma_output_notification(pane, bytes, escaped);
    lemma_output_carries(pane, bytes, escaped);
    reveal_strlit("%begin ");
    reveal_strlit("%end ");
    reveal_strlit("%error ");
    text::lemma_utf8_ascii("%begin "@);
    text::lemma_utf8_ascii("%end "@);
    text::lemma_utf8_ascii("%error "@);
    assert(text::utf8("%begin "@)[1] == 0x62 && text::utf8("%end "@)[1] == 0x65 && text::utf8(
        "%error "@,
    )[1] == 0x65);
    lemma_drained_line(None, line, rest);
}

proof fn lemma_encoded_plain(bytes: Seq<u8>, escaped: Set<u8>)
    requires
        escaped.contains(0x0a),
        escaped.contains(0x0d),
    ensures
        forall|j: int|
            0 <= j < escape::octal_encoded(bytes, escaped).len() ==> #[trigger] escape::octal_encoded(
                bytes,
                escaped,
            )[j] != 0x0a && escape::octal_encoded(bytes, escaped)[j] != 0x0d,
        escape::octal_encoded(bytes, escaped).len() <= 4 * bytes.len(),
    decreases bytes.len(),
{
    if bytes.len() > 0 {
        lemma_encoded_plain(bytes.skip(1), escaped);
        let all = escape::octal_encoded(bytes, escaped);
        let rest = escape::octal_encoded(bytes.skip(1), escaped);
        let first = if escaped.contains(bytes[0]) {
            escape::octal_escape(bytes[0])
        } else {
            seq![bytes[0]]
        };
        assert forall|j: int| 0 <= j < all.len() implies #[trigger] all[j] != 0x0a && all[j]
            != 0x0d by {
            if j < first.len() {
                assert(all[j] == first[j]);
            } else {
                assert(all[j] == rest[j - first.len()]);
            }
        }
    }
}

/// The bytes of a stream that arrives in chunks.
pub open spec fn stream(chunks: Seq<Seq<u8>>) -> Seq<u8>
    decreases chunks.len(),
{
    if chunks.len() == 0 {
        seq![]
    } else {
        stream(chunks.drop_last()) + chunks.last()
    }
}

/// The decoder after the chunks, if it took every one of them.
pub open spec fn taken(start: DecoderView, chunks: Seq<Seq<u8>>) -> Option<DecoderView>
    decreases chunks.len(),
{
    if chunks.len() == 0 {
        Some(start)
    } else {
        match taken(start, chunks.drop_last()) {
            Some(before) => if decoder::fed(before, chunks.last()).1 is Ok {
                Some(decoder::fed(before, chunks.last()).0)
            } else {
                None
            },
            None => None,
        }
    }
}

/// The lines of a stream that have their line feed.
pub open spec fn complete_lines(stream: Seq<u8>) -> Seq<Seq<u8>> {
    let fields = bytes::split(stream, Delimiter::Byte(0x0a));
    Seq::new((fields.len() - 1) as nat, |i: int| decoder::without_cr(fields[i]))
}

/// The header of the `%begin` that still waits for its own `%end` or `%error`
/// after the lines, where there is one.
pub open spec fn waiting(open: Option<HeaderView>, lines: Seq<Seq<u8>>) -> Option<HeaderView>
    decreases lines.len(),
{
    if lines.len() == 0 {
        open
    } else {
        let line = lines.last();
        match waiting(open, lines.drop_last()) {
            Some(header) => if decoder::closes(header, line) {
                None
            } else {
                Some(header)
            },
            None => if text::utf8("%begin "@).is_prefix_of(line) && decoder::block_header(line) is Ok {
                Some(decoder::block_header(line)->Ok_0)
            } else {
                None
            },
        }
    }
}

spec fn header_of(block: Option<BlockView>) -> Option<HeaderView> {
    match block {
        Some(block) => Some(block.header),
        None => None,
    }
}

proof fn lemma_waiting_join(open: Option<HeaderView>, a: Seq<Seq<u8>>, b: Seq<Seq<u8>>)
    ensures
        waiting(open, a + b) == waiting(waiting(open, a), b),
    decreases b.len(),
{
    if b.len() == 0 {
        assert(a + b == a);
    } else {
        lemma_waiting_join(open, a, b.drop_last());
        assert((a + b).drop_last() == a + b.drop_last());
        assert((a + b).last() == b.last());
    }
}

/// What is drained out of a buffer are its complete lines.
proof fn lemma_drained_lines(s: DecoderView)
    requires
        decoder::drained(s).1 is Ok,
    ensures
        decoder::drained(s).0.buffer == bytes::split(s.buffer, Delimiter::Byte(0x0a)).last(),
        header_of(decoder::drained(s).0.block) == waiting(
            header_of(s.block),
            complete_lines(s.buffer),
        ),
    decreases s.buffer.len(),
{
    let d = Delimiter::Byte(0x0a);
    bytes::lemma_find(s.buffer, d);
    match bytes::find(s.buffer, d) {
        None => {
            assert(complete_lines(s.buffer) =~= Seq::<Seq<u8>>::empty());
        },
        Some(n) => {
            let line = decoder::without_cr(s.buffer.take(n));
            let (block, step) = decoder::line_step(s.block, line);
            let next = DecoderView { buffer: s.buffer.skip(n + 1), block };
            assert(step is Ok);
            lemma_drained_lines(next);
            let fields = bytes::split(s.buffer, d);
            let rest = bytes::split(next.buffer, d);
            assert(fields == seq![s.buffer.take(n)] + rest);
            assert(fields.last() == rest.last());
            assert(complete_lines(s.buffer) =~= seq![line] + complete_lines(next.buffer));
            lemma_waiting_join(header_of(s.block), seq![line], complete_lines(next.buffer));
            assert(waiting(header_of(s.block), seq![line]) == header_of(block)) by {
                assert(seq![line].drop_last() =~= Seq::<Seq<u8>>::empty());
                assert(waiting(header_of(s.block), seq![line].drop_last()) == header_of(s.block));
            }
        },
    }
}

proof fn lemma_split_more(a: Seq<u8>, b: Seq<u8>, d: Delimiter)
    ensures
        bytes::split(a + b, d) == bytes::split(a, d).drop_last() + bytes::split(
            bytes::split(a, d).last() + b,
            d,
        ),
    decreases a.len(),
{
    bytes::lemma_find(a, d);
    match bytes::find(a, d) {
        None => {
            assert(seq![a].drop_last() =~= Seq::<Seq<u8>>::empty());
            assert(bytes::split(a, d).drop_last() + bytes::split(a + b, d) =~= bytes::split(
                a + b,
                d,
            ));
        },
        Some(n) => {
            let rest = a.skip(n + 1);
            lemma_split_more(rest, b, d);
            assert(forall|j: int| 0 <= j < a.len() ==> (a + b)[j] == a[j]);
            bytes::lemma_find_is(a + b, d, n);
            assert((a + b).take(n) =~= a.take(n));
            assert((a + b).skip(n + 1) =~= rest + b);
            let fields = bytes::split(rest, d);
            let all = bytes::split(a, d);
            assert(all == seq![a.take(n)] + fields);
            assert(all.last() == fields.last());
            assert(all.drop_last() =~= seq![a.take(n)] + fields.drop_last());
            let tail = bytes::split(fields.last() + b, d);
            assert(seq![a.take(n)] + (fields.drop_last() + tail) =~= all.drop_last() + tail);
        },
    }
}

proof fn lemma_split_end(s: Seq<u8>)
    ensures
        bytes::split(s, Delimiter::Byte(0x0a)).last().len() == 0 <==> s.len() == 0 || s.last()
            == 0x0a,
    decreases s.len(),
{
    let d = Delimiter::Byte(0x0a);
    bytes::lemma_find(s, d);
    match bytes::find(s, d) {
        None => {
            if s.len() > 0 {
                assert(!d.matches(s[s.len() - 1]));
            }
        },
        Some(n) => {
            let rest = s.skip(n + 1);
            lemma_split_end(rest);
            assert(bytes::split(s, d).last() == bytes::split(rest, d).last());
            if rest.len() > 0 {
                assert(rest.last() == s.last());
            } else {
                assert(s.last() == s[n]);
            }
        },
    }
}

/// The decoder after a stream holds the stream's last, unfinished line and the
/// block that still waits.
proof fn lemma_taken(start: DecoderView, chunks: Seq<Seq<u8>>)
    requires
        decoder::idle(start),
        taken(start, chunks) is Some,
    ensures
        taken(start, chunks)->0.buffer == bytes::split(
            stream(chunks),
            Delimiter::Byte(0x0a),
        ).last(),
        header_of(taken(start, chunks)->0.block) == waiting(None, complete_lines(stream(chunks))),
    decreases chunks.len(),
{
    let d = Delimiter::Byte(0x0a);
    if chunks.len() == 0 {
        bytes::lemma_split_last(stream(chunks), d);
        assert(complete_lines(stream(chunks)) =~= Seq::<Seq<u8>>::empty());
        assert(start.buffer =~= stream(chunks));
    } else {
        let front = stream(chunks.drop_last());
        let chunk = chunks.last();
        lemma_taken(start, chunks.drop_last());
        let before = taken(start, chunks.drop_last())->0;
        let joined = DecoderView { buffer: before.buffer + chunk, block: before.block };
        assert(decoder::fed(before, chunk) == decoder::drained(joined));
        lemma_drained_lines(joined);
        lemma_split_more(front, chunk, d);
        let old = bytes::split(front, d);
        let new = bytes::split(joined.buffer, d);
        let all = bytes::split(stream(chunks), d);
        assert(all == old.drop_last() + new);
        assert(all.last() == new.last());
        assert(complete_lines(stream(chunks)) =~= complete_lines(front) + complete_lines(
            joined.buffer,
        ));
        lemma_waiting_join(None, complete_lines(front), complete_lines(joined.buffer));
    }
}

/// A decoder that took a whole stream finds nothing cut off exactly when the
/// stream is empty or ends with a line feed, and no `%begin` still waits for
/// its own `%end` or `%error`: however the stream was cut into chunks.
pub proof fn law_a_stream_that_is_cut_off_is_noticed(start: DecoderView, chunks: Seq<Seq<u8>>)
    requires
        decoder::idle(start),
        taken(start, chunks) is Some,
    ensures
        decoder::idle(taken(start, chunks)->0) <==> (stream(chunks).len() == 0 || stream(
            chunks,
        ).last() == 0x0a) && waiting(None, complete_lines(stream(chunks))) is None,
{
    lemma_taken(start, chunks);
    lemma_split_end(stream(chunks));
}

} // verus!
