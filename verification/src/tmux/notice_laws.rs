//! What the lines between command blocks are read as.

use vstd::prelude::*;
use vstd::string::*;
use vstd::utf8::*;

use crate::bytes;
use crate::bytes::Delimiter;
use crate::text;
use crate::tmux::decoder;
use crate::tmux::decoder::{BlockView, EventView};
use crate::tmux::error::DecodeError;
use crate::tmux::escape;
use crate::tmux::record_laws;
use crate::tmux::record_laws::sigiled;

verus! {

/// A word and its arguments, with one blank in front of each.
pub open spec fn with_arguments(head: Seq<u8>, arguments: Seq<Seq<u8>>) -> Seq<u8>
    decreases arguments.len(),
{
    if arguments.len() == 0 {
        head
    } else {
        with_arguments(head, arguments.drop_last()) + seq![0x20u8] + arguments.last()
    }
}

/// Nothing of it is a blank.
pub open spec fn unblank(s: Seq<u8>) -> bool {
    !s.contains(0x20)
}

proof fn lemma_unblank(s: Seq<u8>)
    requires
        unblank(s),
    ensures
        forall|j: int| 0 <= j < s.len() ==> !Delimiter::Byte(0x20).matches(#[trigger] s[j]),
{
    assert forall|j: int| 0 <= j < s.len() implies !Delimiter::Byte(0x20).matches(
        #[trigger] s[j],
    ) by {
        assert(s.contains(s[j]));
    }
}

proof fn lemma_words(head: Seq<u8>, arguments: Seq<Seq<u8>>)
    requires
        unblank(head),
        forall|i: int| 0 <= i < arguments.len() ==> unblank(#[trigger] arguments[i]),
    ensures
        bytes::split(with_arguments(head, arguments), Delimiter::Byte(0x20)) == seq![head]
            + arguments,
    decreases arguments.len(),
{
    let d = Delimiter::Byte(0x20);
    if arguments.len() == 0 {
        lemma_unblank(head);
        bytes::lemma_split_last(head, d);
        assert(seq![head] + arguments =~= seq![head]);
    } else {
        let front = arguments.drop_last();
        assert forall|i: int| 0 <= i < front.len() implies unblank(#[trigger] front[i]) by {
            assert(front[i] == arguments[i]);
        }
        lemma_words(head, front);
        assert(unblank(arguments[arguments.len() - 1]));
        lemma_unblank(arguments.last());
        bytes::lemma_split_back(with_arguments(head, front), 0x20, arguments.last(), d);
        assert((seq![head] + front).push(arguments.last()) =~= seq![head] + arguments);
    }
}

/// A notification comes with its name and its arguments, in their order.
pub proof fn law_a_notification_keeps_its_arguments(
    name: Seq<char>,
    arguments: Seq<Seq<u8>>,
)
    requires
        name.len() > 0,
        unblank(text::utf8(name)),
        name != "output"@,
        name != "extended-output"@,
        forall|i: int|
            0 <= i < arguments.len() ==> unblank(#[trigger] arguments[i]) && arguments[i].len() > 0,
    ensures
        decoder::notification(
            with_arguments(seq![0x25u8] + text::utf8(name), arguments),
        ) == Ok::<EventView, DecodeError>(EventView::Notification { name, arguments }),
{
    let head = seq![0x25u8] + text::utf8(name);
    assert(unblank(head)) by {
        if head.contains(0x20) {
            let i = choose|i: int| 0 <= i < head.len() && head[i] == 0x20;
            assert(text::utf8(name)[i - 1] == 0x20);
        }
    }
    lemma_words(head, arguments);
    bytes::lemma_nonempty_all(arguments);
    encode_utf8_decode_utf8(name);
    encode_utf8_valid_utf8(name);
    crate::tmux::records::lemma_utf8_empty(name);
    let fields = seq![head] + arguments;
    assert(fields[0] == head);
    assert(fields.skip(1) =~= arguments);
    assert(head.skip(1) =~= text::utf8(name));
}

proof fn lemma_nonempty_front(a: Seq<u8>, b: Seq<u8>, rest: Seq<Seq<u8>>)
    requires
        a.len() > 0,
        b.len() > 0,
    ensures
        bytes::nonempty(seq![a, b] + rest).len() >= 2,
        bytes::nonempty(seq![a, b] + rest)[0] == a,
    decreases rest.len(),
{
    let all = seq![a, b] + rest;
    if rest.len() == 0 {
        assert(all =~= seq![a, b]);
        bytes::lemma_nonempty_all(all);
    } else {
        assert(all.drop_last() =~= seq![a, b] + rest.drop_last());
        lemma_nonempty_front(a, b, rest.drop_last());
    }
}

/// Output that comes with its age is delivered like plain output: to its pane,
/// each byte as it was, whichever bytes tmux escapes.
pub proof fn law_extended_output_is_delivered(
    pane: u64,
    age: Seq<u8>,
    output: Seq<u8>,
    escaped: Set<u8>,
)
    requires
        escaped.contains(0x5c),
        age.len() > 0,
        unblank(age),
        !age.contains(0x3a),
    ensures
        decoder::notification(
            text::utf8("%extended-output"@) + seq![0x20u8] + (text::utf8(
                sigiled('%', pane as nat),
            ) + seq![0x20u8] + (age + seq![0x20u8] + (seq![0x3au8, 0x20u8]
                + escape::octal_encoded(output, escaped)))),
        ) == Ok::<EventView, DecodeError>(EventView::Output { pane_id: pane, bytes: output }),
{
    let d = Delimiter::Byte(0x20);
    let head = text::utf8("%extended-output"@);
    let id = text::utf8(sigiled('%', pane as nat));
    let payload = escape::octal_encoded(output, escaped);
    let tail = seq![0x3au8, 0x20u8] + payload;
    let r2 = age + seq![0x20u8] + tail;
    let r1 = id + seq![0x20u8] + r2;
    let line = head + seq![0x20u8] + r1;
    reveal_strlit("%extended-output");
    reveal_strlit("extended-output");
    reveal_strlit("output");
    text::lemma_utf8_ascii("%extended-output"@);
    text::lemma_utf8_ascii("extended-output"@);
    assert(head.skip(1) =~= text::utf8("extended-output"@));
    encode_utf8_decode_utf8("extended-output"@);
    encode_utf8_valid_utf8("extended-output"@);
    assert("extended-output"@.len() != "output"@.len());
    assert(head[0] == 0x25);
    assert(unblank(head));
    lemma_unblank(head);
    record_laws::lemma_sigiled('%', pane, 0x20);
    record_laws::lemma_sigiled('%', pane, 0x3a);
    lemma_unblank(id);
    lemma_unblank(age);
    bytes::lemma_split_first(head, 0x20, r1, d);
    bytes::lemma_split_first(id, 0x20, r2, d);
    bytes::lemma_split_first(age, 0x20, tail, d);
    let more = bytes::split(tail, d);
    let fields = bytes::split(line, d);
    assert(fields[0] == head);
    assert(fields.skip(1) =~= seq![id, age] + more);
    assert(id.len() > 0) by {
        assert(crate::tmux::ids::sigil_number(id, 0x25) is Some);
    }
    lemma_nonempty_front(id, age, more);
    let at: int = head.len() as int + 1 + id.len() + 1 + age.len() + 1;
    assert(line[at] == 0x3a);
    assert(line[at - 1] == 0x20);
    assert(line[at + 1] == 0x20);
    let colon = Delimiter::Byte(0x3a);
    assert forall|j: int| 0 <= j < at implies !colon.matches(#[trigger] line[j]) by {
        if line[j] == 0x3a {
            if j < head.len() {
                assert(head[j] == 0x3a);
            } else if head.len() < j < head.len() + 1 + id.len() {
                assert(id[j - head.len() - 1] == 0x3a);
            } else if head.len() + 1 + id.len() < j < at - 1 {
                assert(age[j - head.len() - id.len() - 2] == 0x3a);
            }
        }
    }
    bytes::lemma_find_is(line, colon, at);
    assert(line.skip(at + 2) =~= payload);
    escape::law_output_reads_back(output, escaped);
}

/// A line of an answer is kept as it is, whatever it looks like, unless it is
/// the answer's own end.
pub proof fn law_a_line_of_an_answer_is_kept(block: BlockView, line: Seq<u8>)
    requires
        !decoder::closes(block.header, line),
        block.body_bytes + line.len() + 1 <= 33_554_432,
    ensures
        decoder::line_step(Some(block), line).1 == Ok::<Option<EventView>, DecodeError>(None),
        decoder::line_step(Some(block), line).0 is Some,
        decoder::line_step(Some(block), line).0->0.lines == block.lines.push(line),
        decoder::line_step(Some(block), line).0->0.header == block.header,
{
}

} // verus!
