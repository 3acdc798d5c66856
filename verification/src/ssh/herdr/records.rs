//! JSON records on a channel: one to a line, in whatever pieces they arrive.

use vstd::prelude::*;

use crate::bytes;
use crate::bytes::{keep_nonempty, split_bytes, Delimiter};
use crate::ssh::flow::FlowFailure;
use crate::ssh::herdr::request::{queue_records, MAX_JSON_BYTES, MAX_QUEUED_RECORDS};

verus! {

/// The lines of bytes: all but the last are complete.
pub open spec fn lines_of(s: Seq<u8>) -> Seq<Seq<u8>> {
    bytes::split(s, Delimiter::Byte(0x0a))
}

/// The complete records of bytes.
pub open spec fn records_of(s: Seq<u8>) -> Seq<Seq<u8>> {
    bytes::nonempty(lines_of(s).drop_last())
}

/// The bytes of a record that is not complete.
pub open spec fn rest_of(s: Seq<u8>) -> Seq<u8> {
    lines_of(s).last()
}

/// The record that has begun but not ended.
pub struct RecordBuffer {
    pending: Vec<u8>,
}

impl View for RecordBuffer {
    type V = Seq<u8>;

    closed spec fn view(&self) -> Seq<u8> {
        self.pending@
    }
}

fn last_line(lines: Vec<Vec<u8>>) -> (r: (Vec<Vec<u8>>, Vec<u8>))
    requires
        lines@.len() > 0,
    ensures
        bytes::views(r.0@) == bytes::views(lines@).drop_last(),
        r.1@ == bytes::views(lines@).last(),
{
    let mut front = lines;
    let ghost all = front@;
    match front.pop() {
        Some(last) => {
            assert(bytes::views(front@) =~= bytes::views(all).drop_last());
            (front, last)
        },
        None => (front, Vec::new()),
    }
}

impl RecordBuffer {
    #[verifier::type_invariant]
    spec fn bounded(&self) -> bool {
        self.pending@.len() <= MAX_JSON_BYTES
    }

    pub fn new() -> (r: Self)
        ensures
            r@ == Seq::<u8>::empty(),
    {
        RecordBuffer { pending: Vec::new() }
    }

    /// Takes bytes of the channel and gives the records that they complete.
    /// A record that grows too long, and too many records, are refused.
    /// `waiting` records were given before and not used yet.
    pub fn push(&mut self, data: &[u8], waiting: usize) -> (r: Result<Vec<Vec<u8>>, FlowFailure>)
        ensures
            ({
                let all = old(self)@ + data@;
                if data@.len() > usize::MAX - MAX_JSON_BYTES || rest_of(all).len() > MAX_JSON_BYTES
                    || waiting + records_of(all).len() > MAX_QUEUED_RECORDS {
                    r == Err::<Vec<Vec<u8>>, FlowFailure>(FlowFailure::HerdrProtocol)
                        && final(self)@ == old(self)@
                } else {
                    r matches Ok(records) && bytes::views(records@) == records_of(all)
                        && final(self)@ == rest_of(all)
                }
            }),
    {
        proof {
            use_type_invariant(&*self);
        }
        if data.len() > usize::MAX - MAX_JSON_BYTES {
            return Err(FlowFailure::HerdrProtocol);
        }
        let mut all = self.pending.clone();
        let mut more = vstd::slice::slice_to_vec(data);
        all.append(&mut more);
        assert(all@ =~= self.pending@ + data@);
        let lines = split_bytes(all.as_slice(), Delimiter::Byte(0x0a));
        proof {
            bytes::lemma_split_nonempty(all@, Delimiter::Byte(0x0a));
            assert(bytes::views(lines@).len() == lines@.len());
        }
        let (front, rest) = last_line(lines);
        if rest.len() > MAX_JSON_BYTES {
            return Err(FlowFailure::HerdrProtocol);
        }
        let records = keep_nonempty(front);
        assert(bytes::views(records@).len() == records@.len());
        match queue_records(waiting, records.len()) {
            Ok(_) => {},
            Err(e) => {
                return Err(e);
            },
        }
        self.pending = rest;
        Ok(records)
    }

    /// Why a channel that ended did so.  A record that was cut off breaks the
    /// protocol.
    pub fn finish(&self) -> (r: FlowFailure)
        ensures
            r == (if self@.len() == 0 {
                FlowFailure::RemoteClosed
            } else {
                FlowFailure::HerdrProtocol
            }),
    {
        if self.pending.len() == 0 {
            FlowFailure::RemoteClosed
        } else {
            FlowFailure::HerdrProtocol
        }
    }
}

proof fn lemma_nonempty_joined(a: Seq<Seq<u8>>, b: Seq<Seq<u8>>)
    ensures
        bytes::nonempty(a + b) == bytes::nonempty(a) + bytes::nonempty(b),
    decreases b.len(),
{
    if b.len() == 0 {
        assert(a + b =~= a);
        assert(bytes::nonempty(a) + bytes::nonempty(b) =~= bytes::nonempty(a));
    } else {
        assert((a + b).drop_last() =~= a + b.drop_last());
        lemma_nonempty_joined(a, b.drop_last());
        assert(bytes::nonempty(a + b) =~= bytes::nonempty(a) + bytes::nonempty(b));
    }
}

/// The lines of bytes in two pieces: the second piece goes on where the first
/// one ended.
proof fn lemma_lines_joined(a: Seq<u8>, b: Seq<u8>)
    ensures
        lines_of(a + b) == lines_of(a).drop_last() + lines_of(rest_of(a) + b),
        lines_of(a).len() > 0,
    decreases a.len(),
{
    let d = Delimiter::Byte(0x0a);
    bytes::lemma_split_nonempty(a, d);
    bytes::lemma_find(a, d);
    match bytes::find(a, d) {
        None => {
            assert(lines_of(a) =~= seq![a]);
            assert(lines_of(a).drop_last() + lines_of(rest_of(a) + b) =~= lines_of(a + b));
        },
        Some(i) => {
            let first = a.take(i);
            let rest = a.skip(i + 1);
            assert(a =~= first + seq![a[i]] + rest);
            assert(a + b =~= first + seq![a[i]] + (rest + b));
            bytes::lemma_split_first(first, a[i], rest, d);
            bytes::lemma_split_first(first, a[i], rest + b, d);
            lemma_lines_joined(rest, b);
            assert(lines_of(a) =~= seq![first] + lines_of(rest));
            assert(rest_of(a) == rest_of(rest));
            assert(lines_of(a).drop_last() =~= seq![first] + lines_of(rest).drop_last());
            assert(lines_of(a + b) =~= seq![first] + lines_of(rest + b));
            assert(lines_of(a).drop_last() + lines_of(rest_of(a) + b) =~= lines_of(a + b));
        },
    }
}

/// How the bytes of a channel are cut into pieces changes no record.
pub proof fn law_records_do_not_depend_on_the_pieces(a: Seq<u8>, b: Seq<u8>)
    ensures
        records_of(a + b) == records_of(a) + records_of(rest_of(a) + b),
        rest_of(a + b) == rest_of(rest_of(a) + b),
{
    lemma_lines_joined(a, b);
    bytes::lemma_split_nonempty(rest_of(a) + b, Delimiter::Byte(0x0a));
    let front = lines_of(a).drop_last();
    let back = lines_of(rest_of(a) + b);
    assert(lines_of(a + b).drop_last() =~= front + back.drop_last());
    lemma_nonempty_joined(front, back.drop_last());
}

/// A message of a record channel.
#[derive(Clone, Copy, Debug, PartialEq, Eq, Structural)]
pub enum RecordMessage {
    Data,
    /// What the remote command wrote as a diagnostic; it may name paths.
    Diagnostics,
    Failure,
    Closed,
    Other,
}

#[derive(Clone, Copy, Debug, PartialEq, Eq, Structural)]
pub enum RecordStep {
    Push,
    Ignore,
    Fail(FlowFailure),
}

impl RecordBuffer {
    /// What becomes of a message.
    pub fn step(&self, message: RecordMessage) -> (r: RecordStep)
        ensures
            r == (match message {
                RecordMessage::Data => RecordStep::Push,
                RecordMessage::Diagnostics | RecordMessage::Other => RecordStep::Ignore,
                RecordMessage::Failure => RecordStep::Fail(FlowFailure::HerdrOperation),
                RecordMessage::Closed => RecordStep::Fail(
                    if self@.len() == 0 {
                        FlowFailure::RemoteClosed
                    } else {
                        FlowFailure::HerdrProtocol
                    },
                ),
            }),
    {
        match message {
            RecordMessage::Data => RecordStep::Push,
            RecordMessage::Diagnostics | RecordMessage::Other => RecordStep::Ignore,
            RecordMessage::Failure => RecordStep::Fail(FlowFailure::HerdrOperation),
            RecordMessage::Closed => RecordStep::Fail(self.finish()),
        }
    }
}

} // verus!
