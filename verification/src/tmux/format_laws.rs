//! How tmux fills in the formats that commands ask with.

use vstd::prelude::*;

use crate::bytes;
use crate::bytes::Delimiter;
use crate::text;

verus! {

/// The length of a variable's name, up to the brace that closes it.
pub open spec fn name_length(s: Seq<char>) -> nat
    decreases s.len(),
{
    if s.len() > 0 && s[0] != '}' {
        1 + name_length(s.skip(1))
    } else {
        0
    }
}

/// How tmux expands a format: each `#{name}` is replaced by its value.
pub open spec fn expanded(env: Map<Seq<char>, Seq<char>>, format: Seq<char>) -> Seq<char>
    decreases format.len(),
{
    if format.len() == 0 {
        seq![]
    } else if format.len() >= 2 && format[0] == '#' && format[1] == '{' {
        let n = name_length(format.skip(2)) as int;
        if n + 2 < format.len() {
            env[format.subrange(2, n + 2)] + expanded(env, format.skip(n + 3))
        } else {
            seq![]
        }
    } else {
        seq![format[0]] + expanded(env, format.skip(1))
    }
}

proof fn lemma_name_length(s: Seq<char>, n: int)
    requires
        0 <= n < s.len(),
        s[n] == '}',
        forall|i: int| 0 <= i < n ==> #[trigger] s[i] != '}',
    ensures
        name_length(s) == n,
    decreases n,
{
    if n > 0 {
        let t = s.skip(1);
        assert(s[0] != '}');
        assert forall|i: int| 0 <= i < n - 1 implies #[trigger] t[i] != '}' by {
            assert(t[i] == s[i + 1]);
        }
        lemma_name_length(t, n - 1);
    }
}

pub proof fn lemma_named_field(env: Map<Seq<char>, Seq<char>>, s: Seq<char>, n: int)
    requires
        0 <= n < s.len() - 2,
        s[0] == '#',
        s[1] == '{',
        s[n + 2] == '}',
        forall|i: int| 2 <= i < n + 2 ==> #[trigger] s[i] != '}',
    ensures
        expanded(env, s) == env[s.subrange(2, n + 2)] + expanded(env, s.skip(n + 3)),
{
    let t = s.skip(2);
    assert forall|i: int| 0 <= i < n implies #[trigger] t[i] != '}' by {
        assert(t[i] == s[i + 2]);
    }
    lemma_name_length(t, n);
}

/// What stands between the last two apostrophes of a text that ends in one.
pub open spec fn last_quoted(s: Seq<char>) -> Seq<char>
{
    since_quote(s.drop_last())
}

pub open spec fn since_quote(s: Seq<char>) -> Seq<char>
    decreases s.len(),
{
    if s.len() == 0 || s.last() == '\'' {
        seq![]
    } else {
        since_quote(s.drop_last()).push(s.last())
    }
}

pub proof fn lemma_since_quote(a: Seq<char>, b: Seq<char>)
    requires
        a.len() > 0,
        a.last() == '\'',
        !b.contains('\''),
    ensures
        since_quote(a + b) == b,
    decreases b.len(),
{
    if b.len() == 0 {
        assert(a + b =~= a);
    } else {
        let front = b.drop_last();
        assert(!front.contains('\'')) by {
            if front.contains('\'') {
                let i = choose|i: int| 0 <= i < front.len() && front[i] == '\'';
                assert(b[i] == '\'');
            }
        }
        lemma_since_quote(a, front);
        assert(b.contains(b.last()));
        assert((a + b).drop_last() =~= a + front);
        assert(front.push(b.last()) =~= b);
    }
}

/// Values with one character between two of them.
pub open spec fn listing(values: Seq<Seq<char>>, between: char) -> Seq<char>
    decreases values.len(),
{
    if values.len() == 0 {
        seq![]
    } else if values.len() == 1 {
        values[0]
    } else {
        values[0] + (seq![between] + listing(values.skip(1), between))
    }
}

/// One field of a format, in front of the others.
pub proof fn lemma_format_field(
    env: Map<Seq<char>, Seq<char>>,
    f: Seq<char>,
    at: int,
    length: int,
    values: Seq<Seq<char>>,
    i: int,
    between: char,
)
    requires
        0 <= i < values.len(),
        0 <= at,
        0 <= length,
        at + length + 2 < f.len(),
        f[at] == '#',
        f[at + 1] == '{',
        f[at + 2 + length] == '}',
        forall|k: int| at + 2 <= k < at + 2 + length ==> #[trigger] f[k] != '}',
        env[f.subrange(at + 2, at + 2 + length)] == values[i],
        between != '#',
        i == values.len() - 1 ==> f.len() == at + length + 3,
        i < values.len() - 1 ==> f.len() > at + length + 3 && f[at + length + 3] == between
            && expanded(env, f.skip(at + length + 4)) == listing(values.skip(i + 1), between),
    ensures
        expanded(env, f.skip(at)) == listing(values.skip(i), between),
{
    let s = f.skip(at);
    assert forall|k: int| 2 <= k < length + 2 implies #[trigger] s[k] != '}' by {
        assert(s[k] == f[at + k]);
    }
    lemma_named_field(env, s, length);
    assert(s.subrange(2, length + 2) =~= f.subrange(at + 2, at + 2 + length));
    let rest = s.skip(length + 3);
    assert(values.skip(i)[0] == values[i]);
    if i == values.len() - 1 {
        assert(rest =~= Seq::<char>::empty());
        assert(expanded(env, rest) =~= Seq::<char>::empty());
        assert(values.skip(i).len() == 1);
        assert(values[i] + Seq::<char>::empty() =~= values[i]);
    } else {
        assert(rest[0] == between);
        assert(rest.skip(1) =~= f.skip(at + length + 4));
        assert(expanded(env, rest) == seq![between] + listing(values.skip(i + 1), between));
        assert(values.skip(i).skip(1) =~= values.skip(i + 1));
    }
}

/// The values of a listing are its fields, where none of them holds what
/// stands between them.
pub proof fn lemma_listing_fields(values: Seq<Seq<char>>, between: char)
    requires
        values.len() > 0,
        between < '\u{80}',
        forall|i: int| 0 <= i < values.len() ==> !text::utf8(#[trigger] values[i]).contains(between as u8),
    ensures
        bytes::split(text::utf8(listing(values, between)), Delimiter::Byte(between as u8))
            == Seq::new(values.len(), |i: int| text::utf8(values[i])),
    decreases values.len(),
{
    let d = Delimiter::Byte(between as u8);
    let first = text::utf8(values[0]);
    assert forall|j: int| 0 <= j < first.len() implies !d.matches(#[trigger] first[j]) by {
        assert(first.contains(first[j]));
    }
    if values.len() == 1 {
        bytes::lemma_split_last(first, d);
        assert(Seq::new(values.len(), |i: int| text::utf8(values[i])) =~= seq![first]);
    } else {
        let rest = values.skip(1);
        assert forall|i: int| 0 <= i < rest.len() implies !text::utf8(#[trigger] rest[i]).contains(
            between as u8,
        ) by {
            assert(rest[i] == values[i + 1]);
        }
        lemma_listing_fields(rest, between);
        let more = listing(rest, between);
        text::lemma_utf8_join(values[0], seq![between] + more);
        text::lemma_utf8_join(seq![between], more);
        text::lemma_utf8_ascii(seq![between]);
        assert(text::utf8(seq![between]) =~= seq![between as u8]);
        bytes::lemma_split_first(first, between as u8, text::utf8(more), d);
        assert(first + seq![between as u8] + text::utf8(more) =~= first + (seq![between as u8]
            + text::utf8(more)));
        assert(Seq::new(values.len(), |i: int| text::utf8(values[i])) =~= seq![first] + Seq::new(
            rest.len(),
            |i: int| text::utf8(rest[i]),
        ));
    }
}

} // verus!
