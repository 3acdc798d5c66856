//! A small vocabulary for byte sequences: searching, splitting, prefixes and
//! decimal numbers.  The wire formats of the other modules are stated in it.

use vstd::prelude::*;
use vstd::slice::*;

verus! {

/// What separates two fields of a line.
#[derive(Clone, Copy, Debug, PartialEq, Eq, Structural)]
pub enum Delimiter {
    /// One fixed byte.
    Byte(u8),
    /// Any ASCII whitespace byte.
    Whitespace,
}

/// Space, tab, line feed, form feed and carriage return.
pub open spec fn is_whitespace_byte(b: u8) -> bool {
    b == 0x20 || b == 0x09 || b == 0x0a || b == 0x0c || b == 0x0d
}

impl Delimiter {
    pub open spec fn matches(self, b: u8) -> bool {
        match self {
            Delimiter::Byte(d) => b == d,
            Delimiter::Whitespace => is_whitespace_byte(b),
        }
    }

    pub fn test(self, b: u8) -> (r: bool)
        ensures
            r == self.matches(b),
    {
        match self {
            Delimiter::Byte(d) => b == d,
            Delimiter::Whitespace => b == 0x20 || b == 0x09 || b == 0x0a || b == 0x0c || b == 0x0d,
        }
    }
}

/// The position of the first byte of `s` that `d` matches.
pub open spec fn find(s: Seq<u8>, d: Delimiter) -> Option<int>
    decreases s.len(),
{
    if s.len() == 0 {
        None
    } else if d.matches(s[0]) {
        Some(0)
    } else {
        match find(s.skip(1), d) {
            Some(i) => Some(i + 1),
            None => None,
        }
    }
}

/// The position of the last byte of `s` that `d` matches.
pub open spec fn rfind(s: Seq<u8>, d: Delimiter) -> Option<int>
    decreases s.len(),
{
    if s.len() == 0 {
        None
    } else if d.matches(s.last()) {
        Some(s.len() - 1)
    } else {
        rfind(s.drop_last(), d)
    }
}

/// The fields of `s`, cut at every byte that `d` matches.  There is always
/// one field more than there are delimiters.
pub open spec fn split(s: Seq<u8>, d: Delimiter) -> Seq<Seq<u8>>
    decreases s.len(),
{
    match find(s, d) {
        Some(i) => if 0 <= i < s.len() {
            seq![s.take(i)] + split(s.skip(i + 1), d)
        } else {
            seq![s]
        },
        None => seq![s],
    }
}

/// The fields that hold at least one byte, in their order.
pub open spec fn nonempty(fields: Seq<Seq<u8>>) -> Seq<Seq<u8>>
    decreases fields.len(),
{
    if fields.len() == 0 {
        seq![]
    } else if fields.last().len() == 0 {
        nonempty(fields.drop_last())
    } else {
        nonempty(fields.drop_last()).push(fields.last())
    }
}

/// `needle` occurs somewhere in `hay`.
pub open spec fn occurs_in(needle: Seq<u8>, hay: Seq<u8>) -> bool {
    exists|i: int|
        0 <= i <= hay.len() - needle.len() && #[trigger] hay.subrange(i, i + needle.len())
            == needle
}

/// The contents of a list of byte vectors.
pub open spec fn views(v: Seq<Vec<u8>>) -> Seq<Seq<u8>> {
    Seq::new(v.len(), |i: int| v[i]@)
}

pub open spec fn is_digit(b: u8) -> bool {
    0x30 <= b <= 0x39
}

pub open spec fn all_digits(s: Seq<u8>) -> bool {
    forall|i: int| 0 <= i < s.len() ==> is_digit(#[trigger] s[i])
}

/// The number that a string of decimal digits writes.
pub open spec fn digits_value(s: Seq<u8>) -> nat
    decreases s.len(),
{
    if s.len() == 0 {
        0
    } else {
        digits_value(s.drop_last()) * 10 + (s.last() - 0x30) as nat
    }
}

/// The number written by `s`: one or more decimal digits whose value is at
/// most `max`.
pub open spec fn decimal_number(s: Seq<u8>, max: nat) -> Option<nat> {
    if s.len() > 0 && all_digits(s) && digits_value(s) <= max {
        Some(digits_value(s))
    } else {
        None
    }
}

/// Like [`decimal_number`], with one optional `+` in front of the digits.
pub open spec fn signed_decimal_number(s: Seq<u8>, max: nat) -> Option<nat> {
    if s.len() > 0 && s[0] == 0x2b {
        decimal_number(s.skip(1), max)
    } else {
        decimal_number(s, max)
    }
}

pub proof fn lemma_find(s: Seq<u8>, d: Delimiter)
    ensures
        match find(s, d) {
            Some(i) => 0 <= i < s.len() && d.matches(s[i]) && forall|j: int|
                0 <= j < i ==> !d.matches(#[trigger] s[j]),
            None => forall|j: int| 0 <= j < s.len() ==> !d.matches(#[trigger] s[j]),
        },
    decreases s.len(),
{
    if s.len() > 0 && !d.matches(s[0]) {
        lemma_find(s.skip(1), d);
        let t = s.skip(1);
        assert(forall|j: int| 1 <= j < s.len() ==> s[j] == t[j - 1]);
    }
}

pub proof fn lemma_find_is(s: Seq<u8>, d: Delimiter, i: int)
    requires
        0 <= i < s.len(),
        d.matches(s[i]),
        forall|j: int| 0 <= j < i ==> !d.matches(#[trigger] s[j]),
    ensures
        find(s, d) == Some(i),
{
    lemma_find(s, d);
}

pub proof fn lemma_find_none(s: Seq<u8>, d: Delimiter)
    requires
        forall|j: int| 0 <= j < s.len() ==> !d.matches(#[trigger] s[j]),
    ensures
        find(s, d) is None,
{
    lemma_find(s, d);
}

pub proof fn lemma_rfind(s: Seq<u8>, d: Delimiter)
    ensures
        match rfind(s, d) {
            Some(i) => 0 <= i < s.len() && d.matches(s[i]) && forall|j: int|
                i < j < s.len() ==> !d.matches(#[trigger] s[j]),
            None => forall|j: int| 0 <= j < s.len() ==> !d.matches(#[trigger] s[j]),
        },
    decreases s.len(),
{
    if s.len() > 0 && !d.matches(s.last()) {
        lemma_rfind(s.drop_last(), d);
        let t = s.drop_last();
        assert(forall|j: int| 0 <= j < t.len() ==> s[j] == t[j]);
    }
}

/// The first byte that `d` matches.
pub fn find_byte(s: &[u8], d: Delimiter) -> (r: Option<usize>)
    ensures
        match r {
            Some(i) => find(s@, d) == Some(i as int) && i < s@.len() <= usize::MAX,
            None => find(s@, d) is None,
        },
{
    let mut i: usize = 0;
    while i < s.len()
        invariant
            i <= s@.len(),
            forall|j: int| 0 <= j < i ==> !d.matches(#[trigger] s@[j]),
        decreases s@.len() - i,
    {
        if d.test(s[i]) {
            proof {
                lemma_find_is(s@, d, i as int);
            }
            return Some(i);
        }
        i = i + 1;
    }
    proof {
        lemma_find_none(s@, d);
    }
    None
}

/// The last byte that `d` matches.
pub fn rfind_byte(s: &[u8], d: Delimiter) -> (r: Option<usize>)
    ensures
        match r {
            Some(i) => rfind(s@, d) == Some(i as int) && i < s@.len() <= usize::MAX,
            None => rfind(s@, d) is None,
        },
{
    let mut i: usize = s.len();
    while i > 0
        invariant
            i <= s@.len(),
            forall|j: int| i <= j < s@.len() ==> !d.matches(#[trigger] s@[j]),
        decreases i,
    {
        i = i - 1;
        if d.test(s[i]) {
            proof {
                lemma_rfind(s@, d);
            }
            return Some(i);
        }
    }
    proof {
        lemma_rfind(s@, d);
    }
    None
}

/// A copy of the bytes from `from` up to `to`.
pub fn copy_range(s: &[u8], from: usize, to: usize) -> (r: Vec<u8>)
    requires
        from <= to <= s@.len(),
    ensures
        r@ == s@.subrange(from as int, to as int),
{
    slice_to_vec(slice_subrange(s, from, to))
}

/// Cuts `s` at every byte that `d` matches.
pub fn split_bytes(s: &[u8], d: Delimiter) -> (r: Vec<Vec<u8>>)
    ensures
        views(r@) == split(s@, d),
{
    let mut out: Vec<Vec<u8>> = Vec::new();
    let mut start: usize = 0;
    assert(s@.skip(0) == s@);
    assert(views(out@) + split(s@, d) == split(s@, d));
    loop
        invariant
            start <= s@.len(),
            views(out@) + split(s@.skip(start as int), d) == split(s@, d),
        decreases s@.len() - start,
    {
        let rest = slice_subrange(s, start, s.len());
        let ghost tail = s@.skip(start as int);
        assert(rest@ == tail);
        match find_byte(rest, d) {
            Some(i) => {
                let ghost before = out@;
                let field = copy_range(rest, 0, i);
                assert(field@ == tail.take(i as int));
                out.push(field);
                assert(views(out@) == views(before).push(field@));
                assert(tail.skip(i as int + 1) == s@.skip(start + i + 1));
                assert(views(before) + (seq![tail.take(i as int)] + split(
                    tail.skip(i as int + 1),
                    d,
                )) == views(out@) + split(tail.skip(i as int + 1), d));
                start = start + i + 1;
            },
            None => {
                let ghost before = out@;
                let field = slice_to_vec(rest);
                out.push(field);
                assert(views(out@) == views(before) + seq![tail]);
                return out;
            },
        }
    }
}

/// Drops the empty fields.
pub fn keep_nonempty(fields: Vec<Vec<u8>>) -> (r: Vec<Vec<u8>>)
    ensures
        views(r@) == nonempty(views(fields@)),
{
    let mut out: Vec<Vec<u8>> = Vec::new();
    let mut i: usize = 0;
    while i < fields.len()
        invariant
            i <= fields@.len(),
            views(out@) == nonempty(views(fields@).take(i as int)),
        decreases fields@.len() - i,
    {
        proof {
            let part = views(fields@).take(i as int + 1);
            assert(part.drop_last() == views(fields@).take(i as int));
            assert(part.last() == fields@[i as int]@);
        }
        if !fields[i].is_empty() {
            let ghost before = out@;
            let copy = copy_range(fields[i].as_slice(), 0, fields[i].len());
            assert(copy@ == fields@[i as int]@);
            out.push(copy);
            assert(views(out@) == views(before).push(copy@));
        }
        i = i + 1;
    }
    assert(views(fields@).take(i as int) == views(fields@));
    out
}

pub fn bytes_equal(a: &[u8], b: &[u8]) -> (r: bool)
    ensures
        r == (a@ == b@),
{
    if a.len() != b.len() {
        return false;
    }
    let mut i: usize = 0;
    while i < a.len()
        invariant
            i <= a@.len(),
            a@.len() == b@.len(),
            forall|j: int| 0 <= j < i ==> #[trigger] a@[j] == b@[j],
        decreases a@.len() - i,
    {
        if a[i] != b[i] {
            return false;
        }
        i = i + 1;
    }
    assert(a@ =~= b@);
    true
}

pub fn starts_with(s: &[u8], prefix: &[u8]) -> (r: bool)
    ensures
        r == prefix@.is_prefix_of(s@),
{
    prefix.len() <= s.len() && bytes_equal(slice_subrange(s, 0, prefix.len()), prefix)
}

/// Whether `needle` occurs somewhere in `hay`.
pub fn contains_bytes(hay: &[u8], needle: &[u8]) -> (r: bool)
    ensures
        r == occurs_in(needle@, hay@),
{
    if needle.len() > hay.len() {
        return false;
    }
    let mut i: usize = 0;
    let last: usize = hay.len() - needle.len();
    loop
        invariant
            i <= last,
            last == hay@.len() - needle@.len(),
            hay@.len() <= usize::MAX,
            forall|j: int|
                0 <= j < i ==> #[trigger] hay@.subrange(j, j + needle@.len()) != needle@,
        decreases last - i,
    {
        if bytes_equal(slice_subrange(hay, i, i + needle.len()), needle) {
            assert(hay@.subrange(i as int, i + needle@.len()) == needle@);
            return true;
        }
        if i == last {
            return false;
        }
        i = i + 1;
    }
}

pub proof fn lemma_digits_value_monotone(s: Seq<u8>, i: int)
    requires
        0 <= i <= s.len(),
        all_digits(s),
    ensures
        digits_value(s.take(i)) <= digits_value(s),
    decreases s.len() - i,
{
    if i == s.len() {
        assert(s.take(i) == s);
    } else {
        lemma_digits_value_monotone(s, i + 1);
        assert(s.take(i + 1).drop_last() == s.take(i));
    }
}

/// Reads a decimal number of at most `max`.
pub fn parse_decimal(s: &[u8], max: u64) -> (r: Option<u64>)
    ensures
        match r {
            Some(v) => decimal_number(s@, max as nat) == Some(v as nat),
            None => decimal_number(s@, max as nat) is None,
        },
{
    if s.len() == 0 {
        return None;
    }
    let mut value: u64 = 0;
    let mut i: usize = 0;
    while i < s.len()
        invariant
            i <= s@.len(),
            all_digits(s@.take(i as int)),
            value == digits_value(s@.take(i as int)),
            value <= max,
        decreases s@.len() - i,
    {
        let b: u8 = s[i];
        if b < 0x30 || b > 0x39 {
            assert(!is_digit(s@[i as int]));
            return None;
        }
        let ghost next = s@.take(i as int + 1);
        assert(next.drop_last() == s@.take(i as int));
        assert(all_digits(next));
        let digit: u64 = (b - 0x30) as u64;
        if value > max / 10 || digit > max - value * 10 {
            proof {
                assert(digits_value(next) > max);
                if all_digits(s@) {
                    lemma_digits_value_monotone(s@, i as int + 1);
                }
            }
            return None;
        }
        value = value * 10 + digit;
        i = i + 1;
    }
    assert(s@.take(i as int) == s@);
    Some(value)
}

/// Reads a decimal number of at most `max` that may carry a leading `+`.
pub fn parse_signed_decimal(s: &[u8], max: u64) -> (r: Option<u64>)
    ensures
        match r {
            Some(v) => signed_decimal_number(s@, max as nat) == Some(v as nat),
            None => signed_decimal_number(s@, max as nat) is None,
        },
{
    if s.len() > 0 && s[0] == 0x2b {
        let rest = slice_subrange(s, 1, s.len());
        assert(rest@ == s@.skip(1));
        parse_decimal(rest, max)
    } else {
        parse_decimal(s, max)
    }
}

/// A field, its delimiter, and what follows split into the field and the
/// fields of what follows.
pub proof fn lemma_split_first(field: Seq<u8>, b: u8, rest: Seq<u8>, d: Delimiter)
    requires
        d.matches(b),
        forall|j: int| 0 <= j < field.len() ==> !d.matches(#[trigger] field[j]),
    ensures
        split(field + seq![b] + rest, d) == seq![field] + split(rest, d),
{
    let s = field + seq![b] + rest;
    let n = field.len() as int;
    assert(forall|j: int| 0 <= j < n ==> s[j] == field[j]);
    assert(s[n] == b);
    lemma_find_is(s, d, n);
    assert(s.take(n) == field);
    assert(s.skip(n + 1) == rest);
}

/// There is always a last field.
pub proof fn lemma_split_nonempty(s: Seq<u8>, d: Delimiter)
    ensures
        split(s, d).len() > 0,
{
}

pub proof fn lemma_split_last(field: Seq<u8>, d: Delimiter)
    requires
        forall|j: int| 0 <= j < field.len() ==> !d.matches(#[trigger] field[j]),
    ensures
        split(field, d) == seq![field],
{
    lemma_find_none(field, d);
}

/// Fields that all hold something stay as they are.
pub proof fn lemma_nonempty_all(fields: Seq<Seq<u8>>)
    requires
        forall|i: int| 0 <= i < fields.len() ==> (#[trigger] fields[i]).len() > 0,
    ensures
        nonempty(fields) == fields,
    decreases fields.len(),
{
    if fields.len() > 0 {
        lemma_nonempty_all(fields.drop_last());
        assert(fields.last().len() > 0);
        assert(fields.drop_last().push(fields.last()) == fields);
    } else {
        assert(fields == Seq::<Seq<u8>>::empty());
    }
}

pub proof fn lemma_split_back(s: Seq<u8>, b: u8, field: Seq<u8>, d: Delimiter)
    requires
        d.matches(b),
        forall|j: int| 0 <= j < field.len() ==> !d.matches(#[trigger] field[j]),
    ensures
        split(s + seq![b] + field, d) == split(s, d).push(field),
    decreases s.len(),
{
    let all = s + seq![b] + field;
    lemma_find(s, d);
    match find(s, d) {
        None => {
            lemma_split_first(s, b, field, d);
            lemma_split_last(field, d);
            assert(split(s, d) =~= seq![s]);
            assert(seq![s] + seq![field] =~= seq![s].push(field));
        },
        Some(i) => {
            let rest = s.skip(i + 1);
            lemma_split_back(rest, b, field, d);
            let first = s.take(i);
            assert(all =~= first + seq![s[i]] + (rest + seq![b] + field));
            assert forall|j: int| 0 <= j < first.len() implies !d.matches(#[trigger] first[j]) by {
                assert(first[j] == s[j]);
            }
            lemma_split_first(first, s[i], rest + seq![b] + field, d);
            assert(split(s, d) == seq![first] + split(rest, d));
            assert(seq![first] + split(rest, d).push(field) =~= (seq![first]
                + split(rest, d)).push(field));
        },
    }
}

/// A byte that separates nothing belongs to the last field.
pub proof fn lemma_split_push(s: Seq<u8>, b: u8, d: Delimiter)
    requires
        !d.matches(b),
    ensures
        split(s.push(b), d) == split(s, d).drop_last().push(
            split(s, d).last().push(b),
        ),
        split(s, d).len() > 0,
    decreases s.len(),
{
    lemma_find(s, d);
    match find(s, d) {
        None => {
            assert forall|j: int| 0 <= j < s.push(b).len() implies !d.matches(
                #[trigger] s.push(b)[j],
            ) by {
                if j < s.len() {
                    assert(s.push(b)[j] == s[j]);
                }
            }
            lemma_split_last(s.push(b), d);
            assert(split(s, d) =~= seq![s]);
            assert(split(s, d).drop_last() =~= Seq::<Seq<u8>>::empty());
            assert(split(s, d).last() == s);
            assert(Seq::<Seq<u8>>::empty().push(s.push(b)) =~= seq![s.push(b)]);
        },
        Some(i) => {
            let rest = s.skip(i + 1);
            let first = s.take(i);
            lemma_split_push(rest, b, d);
            assert forall|j: int| 0 <= j < first.len() implies !d.matches(#[trigger] first[j]) by {
                assert(first[j] == s[j]);
            }
            assert(s.push(b) =~= first + seq![s[i]] + rest.push(b));
            assert(s =~= first + seq![s[i]] + rest);
            lemma_split_first(first, s[i], rest.push(b), d);
            lemma_split_first(first, s[i], rest, d);
            let parts = split(rest, d);
            assert((seq![first] + parts).drop_last() =~= seq![first] + parts.drop_last());
            assert((seq![first] + parts).last() == parts.last());
            assert(seq![first] + parts.drop_last().push(parts.last().push(b)) =~= (seq![first]
                + parts.drop_last()).push(parts.last().push(b)));
        },
    }
}

} // verus!
