//! The three byte escapings of tmux: `%output` payloads, `capture-pane -C`
//! lines, and names written by the `q:` format modifier.

use vstd::prelude::*;

use crate::tmux::error::DecodeError;

verus! {

pub open spec fn is_octal(b: u8) -> bool {
    0x30 <= b <= 0x37
}

/// `s` has three octal digits from `at` on.
pub open spec fn octal_at(s: Seq<u8>, at: int) -> bool {
    at + 3 <= s.len() && is_octal(s[at]) && is_octal(s[at + 1]) && is_octal(s[at + 2])
}

/// The byte that three octal digits write.  A first digit above 3 keeps its
/// two low bits only.
pub open spec fn octal_byte(a: u8, b: u8, c: u8) -> u8 {
    (((a - 0x30) % 4) * 64 + (b - 0x30) * 8 + (c - 0x30)) as u8
}

/// `decoded` in front of what the rest decodes to.
pub open spec fn after(
    decoded: Seq<u8>,
    rest: Result<Seq<u8>, DecodeError>,
) -> Result<Seq<u8>, DecodeError> {
    match rest {
        Ok(bytes) => Ok(decoded + bytes),
        Err(e) => Err(e),
    }
}

/// What a `%output` payload stands for: every backslash starts `\ooo`.
pub open spec fn octal_decoded(s: Seq<u8>) -> Result<Seq<u8>, DecodeError>
    decreases s.len(),
{
    if s.len() == 0 {
        Ok(seq![])
    } else if s[0] != 0x5c {
        after(seq![s[0]], octal_decoded(s.skip(1)))
    } else if octal_at(s, 1) {
        after(seq![octal_byte(s[1], s[2], s[3])], octal_decoded(s.skip(4)))
    } else {
        Err(DecodeError::InvalidOctalEscape)
    }
}

/// What a captured line stands for: a literal backslash is doubled, every
/// other backslash starts `\ooo`.
pub open spec fn capture_decoded(s: Seq<u8>) -> Result<Seq<u8>, DecodeError>
    decreases s.len(),
{
    if s.len() == 0 {
        Ok(seq![])
    } else if s[0] != 0x5c {
        after(seq![s[0]], capture_decoded(s.skip(1)))
    } else if s.len() >= 2 && s[1] == 0x5c {
        after(seq![0x5cu8], capture_decoded(s.skip(2)))
    } else if octal_at(s, 1) {
        after(seq![octal_byte(s[1], s[2], s[3])], capture_decoded(s.skip(4)))
    } else {
        Err(DecodeError::InvalidOctalEscape)
    }
}

/// How many backslashes `s` starts with.
pub open spec fn slash_run(s: Seq<u8>) -> nat
    decreases s.len(),
{
    if s.len() > 0 && s[0] == 0x5c {
        1 + slash_run(s.skip(1))
    } else {
        0
    }
}

/// How many literal backslashes a run of `n` stands for, by what follows it.
/// `$` carries one format-output escape group more than other bytes.
pub open spec fn literal_slashes(n: nat, next_is_dollar: bool) -> nat {
    if next_is_dollar {
        if n >= 4 {
            ((n - 4 + 3) / 4) as nat
        } else {
            0
        }
    } else {
        (n + 2) / 4
    }
}

/// What a name written by `q:` stands for.  Backslashes are read by whole
/// runs, because tmux versions differ by one escaping layer.
pub open spec fn quoted_decoded(s: Seq<u8>) -> Seq<u8>
    decreases s.len(),
{
    if s.len() == 0 {
        seq![]
    } else if s[0] != 0x5c {
        seq![s[0]] + quoted_decoded(s.skip(1))
    } else {
        let n = slash_run(s);
        let t = s.skip(n as int);
        if n == 0 || n > s.len() {
            seq![]
        } else if n == 1 && octal_at(t, 0) {
            seq![octal_byte(t[0], t[1], t[2])] + quoted_decoded(t.skip(3))
        } else if t.len() == 0 {
            Seq::new(literal_slashes(n, false), |i: int| 0x5cu8)
        } else {
            Seq::new(literal_slashes(n, t[0] == 0x24), |i: int| 0x5cu8) + seq![t[0]]
                + quoted_decoded(t.skip(1))
        }
    }
}

proof fn lemma_slash_run(s: Seq<u8>, n: int)
    requires
        0 <= n <= s.len(),
        forall|j: int| 0 <= j < n ==> #[trigger] s[j] == 0x5c,
        n == s.len() || s[n] != 0x5c,
    ensures
        slash_run(s) == n,
    decreases n,
{
    if n > 0 {
        assert(s[0] == 0x5c);
        assert forall|j: int| 0 <= j < n - 1 implies #[trigger] s.skip(1)[j] == 0x5c by {
            assert(s[j + 1] == 0x5c);
        }
        lemma_slash_run(s.skip(1), n - 1);
    }
}

fn octal_value(a: u8, b: u8, c: u8) -> (r: u8)
    requires
        is_octal(a),
        is_octal(b),
        is_octal(c),
    ensures
        r == octal_byte(a, b, c),
{
    ((a - 0x30) % 4) * 64 + (b - 0x30) * 8 + (c - 0x30)
}

fn octal_digits_at(s: &[u8], at: usize) -> (r: bool)
    requires
        at <= s@.len(),
    ensures
        r == octal_at(s@, at as int),
{
    s.len() - at >= 3 && 0x30 <= s[at] && s[at] <= 0x37 && 0x30 <= s[at + 1] && s[at + 1] <= 0x37
        && 0x30 <= s[at + 2] && s[at + 2] <= 0x37
}

/// Decodes tmux's `\ooo` byte escaping used in `%output` notifications.
pub fn decode_octal(encoded: &[u8]) -> (r: Result<Vec<u8>, DecodeError>)
    ensures
        match r {
            Ok(bytes) => octal_decoded(encoded@) == Ok::<Seq<u8>, DecodeError>(bytes@),
            Err(e) => octal_decoded(encoded@) == Err::<Seq<u8>, DecodeError>(e),
        },
{
    let mut decoded: Vec<u8> = Vec::new();
    let mut index: usize = 0;
    proof {
        assert(encoded@.skip(0) == encoded@);
        match octal_decoded(encoded@) {
            Ok(bytes) => assert(decoded@ + bytes == bytes),
            Err(_) => {},
        }
    }
    while index < encoded.len()
        invariant
            index <= encoded@.len(),
            after(decoded@, octal_decoded(encoded@.skip(index as int))) == octal_decoded(encoded@),
        decreases encoded@.len() - index,
    {
        let ghost rest = encoded@.skip(index as int);
        let ghost before = decoded@;
        assert(forall|j: int| 0 <= j < rest.len() ==> rest[j] == encoded@[index + j]);
        if encoded[index] != 0x5c {
            assert(rest.skip(1) == encoded@.skip(index + 1));
            proof {
                lemma_after(before, seq![rest[0]], octal_decoded(rest.skip(1)));
            }
            decoded.push(encoded[index]);
            index = index + 1;
        } else if octal_digits_at(encoded, index + 1) {
            assert(rest.skip(4) == encoded@.skip(index + 4));
            let byte = octal_value(encoded[index + 1], encoded[index + 2], encoded[index + 3]);
            proof {
                lemma_after(before, seq![byte], octal_decoded(rest.skip(4)));
            }
            decoded.push(byte);
            index = index + 4;
        } else {
            return Err(DecodeError::InvalidOctalEscape);
        }
    }
    assert(encoded@.skip(index as int).len() == 0);
    assert(decoded@ + Seq::<u8>::empty() == decoded@);
    Ok(decoded)
}

proof fn lemma_after(a: Seq<u8>, b: Seq<u8>, rest: Result<Seq<u8>, DecodeError>)
    ensures
        after(a, after(b, rest)) == after(a + b, rest),
        b.len() == 1 ==> a + b == a.push(b[0]),
{
    match rest {
        Ok(bytes) => assert(a + (b + bytes) == a + b + bytes),
        Err(_) => {},
    }
    if b.len() == 1 {
        assert(a + b == a.push(b[0]));
    }
}

/// Decodes a line of `capture-pane -C`, which writes a literal backslash as
/// `\\` where `%output` writes an octal byte.
pub fn decode_capture(encoded: &[u8]) -> (r: Result<Vec<u8>, DecodeError>)
    ensures
        match r {
            Ok(bytes) => capture_decoded(encoded@) == Ok::<Seq<u8>, DecodeError>(bytes@),
            Err(e) => capture_decoded(encoded@) == Err::<Seq<u8>, DecodeError>(e),
        },
{
    let mut decoded: Vec<u8> = Vec::new();
    let mut index: usize = 0;
    proof {
        assert(encoded@.skip(0) == encoded@);
        match capture_decoded(encoded@) {
            Ok(bytes) => assert(decoded@ + bytes == bytes),
            Err(_) => {},
        }
    }
    while index < encoded.len()
        invariant
            index <= encoded@.len(),
            after(decoded@, capture_decoded(encoded@.skip(index as int))) == capture_decoded(
                encoded@,
            ),
        decreases encoded@.len() - index,
    {
        let ghost rest = encoded@.skip(index as int);
        let ghost before = decoded@;
        assert(forall|j: int| 0 <= j < rest.len() ==> rest[j] == encoded@[index + j]);
        if encoded[index] != 0x5c {
            assert(rest.skip(1) == encoded@.skip(index + 1));
            proof {
                lemma_after(before, seq![rest[0]], capture_decoded(rest.skip(1)));
            }
            decoded.push(encoded[index]);
            index = index + 1;
        } else if encoded.len() - index >= 2 && encoded[index + 1] == 0x5c {
            assert(rest.skip(2) == encoded@.skip(index + 2));
            proof {
                lemma_after(before, seq![0x5cu8], capture_decoded(rest.skip(2)));
            }
            decoded.push(0x5c);
            index = index + 2;
        } else if octal_digits_at(encoded, index + 1) {
            assert(rest.skip(4) == encoded@.skip(index + 4));
            let byte = octal_value(encoded[index + 1], encoded[index + 2], encoded[index + 3]);
            proof {
                lemma_after(before, seq![byte], capture_decoded(rest.skip(4)));
            }
            decoded.push(byte);
            index = index + 4;
        } else {
            return Err(DecodeError::InvalidOctalEscape);
        }
    }
    assert(encoded@.skip(index as int).len() == 0);
    assert(decoded@ + Seq::<u8>::empty() == decoded@);
    Ok(decoded)
}

/// Decodes the backslash quoting of tmux's `q:` format modifier.
pub fn decode_tmux_quoted_bytes(value: &[u8]) -> (r: Vec<u8>)
    ensures
        r@ == quoted_decoded(value@),
{
    let mut decoded: Vec<u8> = Vec::new();
    let mut index: usize = 0;
    assert(value@.skip(0) == value@);
    while index < value.len()
        invariant
            index <= value@.len(),
            decoded@ + quoted_decoded(value@.skip(index as int)) == quoted_decoded(value@),
        decreases value@.len() - index,
    {
        let ghost rest = value@.skip(index as int);
        let ghost before = decoded@;
        if value[index] != 0x5c {
            assert(rest.skip(1) == value@.skip(index + 1));
            assert(before + (seq![rest[0]] + quoted_decoded(rest.skip(1))) == before.push(rest[0])
                + quoted_decoded(rest.skip(1)));
            decoded.push(value[index]);
            index = index + 1;
            continue ;
        }
        let run_start: usize = index;
        while index < value.len() && value[index] == 0x5c
            invariant
                run_start <= index <= value@.len(),
                forall|j: int| run_start <= j < index ==> #[trigger] value@[j] == 0x5c,
            decreases value@.len() - index,
        {
            index = index + 1;
        }
        let slash_count: usize = index - run_start;
        let ghost t = value@.skip(index as int);
        proof {
            assert forall|j: int| 0 <= j < slash_count implies #[trigger] rest[j] == 0x5c by {
                assert(value@[run_start + j] == 0x5c);
            }
            lemma_slash_run(rest, slash_count as int);
            assert(rest.skip(slash_count as int) == t);
            assert(value@[run_start as int] == 0x5c);
        }
        if slash_count == 1 && octal_digits_at(value, index) {
            let byte = octal_value(value[index], value[index + 1], value[index + 2]);
            assert(t.skip(3) == value@.skip(index + 3));
            assert(before + (seq![byte] + quoted_decoded(t.skip(3))) == before.push(byte)
                + quoted_decoded(t.skip(3)));
            decoded.push(byte);
            index = index + 3;
            continue ;
        }
        let dollar: bool = index < value.len() && value[index] == 0x24;
        let count: usize = if dollar {
            if slash_count >= 4 {
                (slash_count - 4) / 4 + (if (slash_count - 4) % 4 == 0 {
                    0
                } else {
                    1
                })
            } else {
                0
            }
        } else {
            slash_count / 4 + (if slash_count % 4 >= 2 {
                1
            } else {
                0
            })
        };
        assert(count == literal_slashes(slash_count as nat, dollar));
        let ghost slashes = Seq::new(count as nat, |i: int| 0x5cu8);
        let mut k: usize = 0;
        while k < count
            invariant
                k <= count,
                decoded@ == before + Seq::new(k as nat, |i: int| 0x5cu8),
            decreases count - k,
        {
            decoded.push(0x5c);
            k = k + 1;
            assert(decoded@ =~= before + Seq::new(k as nat, |i: int| 0x5cu8));
        }
        assert(decoded@ == before + slashes);
        if index < value.len() {
            assert(t.skip(1) == value@.skip(index + 1));
            assert(before + (slashes + seq![t[0]] + quoted_decoded(t.skip(1))) == (before
                + slashes).push(t[0]) + quoted_decoded(t.skip(1)));
            decoded.push(value[index]);
            index = index + 1;
        } else {
            assert(t.len() == 0);
            assert(value@.skip(index as int) =~= Seq::<u8>::empty());
            assert(before + slashes + Seq::<u8>::empty() == before + slashes);
        }
    }
    assert(value@.skip(index as int).len() == 0);
    assert(decoded@ + Seq::<u8>::empty() == decoded@);
    decoded
}

/// `b` as a backslash and three octal digits.
pub open spec fn octal_escape(b: u8) -> Seq<u8> {
    seq![0x5cu8, (0x30 + b / 64) as u8, (0x30 + (b / 8) % 8) as u8, (0x30 + b % 8) as u8]
}

/// A `%output` payload for `bytes`: the bytes in `escaped` are written in
/// octal, the others as they are.
pub open spec fn octal_encoded(bytes: Seq<u8>, escaped: Set<u8>) -> Seq<u8>
    decreases bytes.len(),
{
    if bytes.len() == 0 {
        seq![]
    } else {
        (if escaped.contains(bytes[0]) {
            octal_escape(bytes[0])
        } else {
            seq![bytes[0]]
        }) + octal_encoded(bytes.skip(1), escaped)
    }
}

/// A captured line for `bytes`: a backslash is doubled, the bytes in
/// `escaped` are written in octal, the others as they are.
pub open spec fn capture_encoded(bytes: Seq<u8>, escaped: Set<u8>) -> Seq<u8>
    decreases bytes.len(),
{
    if bytes.len() == 0 {
        seq![]
    } else {
        (if bytes[0] == 0x5c {
            seq![0x5cu8, 0x5cu8]
        } else if escaped.contains(bytes[0]) {
            octal_escape(bytes[0])
        } else {
            seq![bytes[0]]
        }) + capture_encoded(bytes.skip(1), escaped)
    }
}

/// A name with one backslash in front of each byte in `special`.
pub open spec fn quoted_encoded(name: Seq<u8>, special: Set<u8>) -> Seq<u8>
    decreases name.len(),
{
    if name.len() == 0 {
        seq![]
    } else {
        (if special.contains(name[0]) {
            seq![0x5cu8, name[0]]
        } else {
            seq![name[0]]
        }) + quoted_encoded(name.skip(1), special)
    }
}

proof fn lemma_octal_escape(b: u8, rest: Seq<u8>)
    ensures
        ({
            let s = octal_escape(b) + rest;
            &&& s[0] == 0x5c
            &&& s.len() >= 2
            &&& s[1] != 0x5c
            &&& octal_at(s, 1)
            &&& octal_byte(s[1], s[2], s[3]) == b
            &&& s.skip(4) == rest
        }),
{
    let s = octal_escape(b) + rest;
    assert(s.skip(4) =~= rest);
    assert(((b / 64) % 4) * 64 + ((b / 8) % 8) * 8 + b % 8 == b) by {
        assert(b == (b / 8) * 8 + b % 8);
        assert(b / 8 == (b / 64) * 8 + (b / 8) % 8);
    }
}

/// Pane output reads back: whichever bytes tmux chooses to escape, as long
/// as the backslash is one of them, decoding gives the bytes it was handed.
pub proof fn law_output_reads_back(bytes: Seq<u8>, escaped: Set<u8>)
    requires
        escaped.contains(0x5c),
    ensures
        octal_decoded(octal_encoded(bytes, escaped)) == Ok::<Seq<u8>, DecodeError>(bytes),
    decreases bytes.len(),
{
    if bytes.len() == 0 {
        assert(bytes == Seq::<u8>::empty());
    } else {
        law_output_reads_back(bytes.skip(1), escaped);
        let rest = octal_encoded(bytes.skip(1), escaped);
        let s = octal_encoded(bytes, escaped);
        assert(seq![bytes[0]] + bytes.skip(1) == bytes);
        if escaped.contains(bytes[0]) {
            lemma_octal_escape(bytes[0], rest);
        } else {
            assert(s.skip(1) == rest);
        }
    }
}

/// Captured pane contents read back: whichever bytes are escaped in octal,
/// decoding gives the bytes that were captured.
pub proof fn law_capture_reads_back(bytes: Seq<u8>, escaped: Set<u8>)
    ensures
        capture_decoded(capture_encoded(bytes, escaped)) == Ok::<Seq<u8>, DecodeError>(bytes),
    decreases bytes.len(),
{
    if bytes.len() == 0 {
        assert(bytes == Seq::<u8>::empty());
    } else {
        law_capture_reads_back(bytes.skip(1), escaped);
        let rest = capture_encoded(bytes.skip(1), escaped);
        let s = capture_encoded(bytes, escaped);
        assert(seq![bytes[0]] + bytes.skip(1) == bytes);
        if bytes[0] == 0x5c {
            assert(s.skip(2) == rest);
        } else if escaped.contains(bytes[0]) {
            lemma_octal_escape(bytes[0], rest);
        } else {
            assert(s.skip(1) == rest);
        }
    }
}

/// Names without a backslash read back from `q:` quoting, whichever bytes
/// are quoted, as long as no octal digit is.
pub proof fn law_quoted_name_reads_back(name: Seq<u8>, special: Set<u8>)
    requires
        !name.contains(0x5c),
        forall|b: u8| is_octal(b) ==> !#[trigger] special.contains(b),
    ensures
        quoted_decoded(quoted_encoded(name, special)) == name,
    decreases name.len(),
{
    if name.len() > 0 {
        assert forall|b: u8| name.skip(1).contains(b) implies name.contains(b) by {
            let i = choose|i: int| 0 <= i < name.skip(1).len() && name.skip(1)[i] == b;
            assert(name[i + 1] == b);
        }
        law_quoted_name_reads_back(name.skip(1), special);
        let rest = quoted_encoded(name.skip(1), special);
        let s = quoted_encoded(name, special);
        assert(name.contains(name[0]));
        assert(seq![name[0]] + name.skip(1) == name);
        if special.contains(name[0]) {
            lemma_slash_run(s, 1);
            let t = s.skip(1);
            assert(t[0] == name[0]);
            assert(t.skip(1) == rest);
            assert(Seq::new(0nat, |i: int| 0x5cu8) + seq![t[0]] + quoted_decoded(t.skip(1)) =~= seq![
                t[0],
            ] + name.skip(1));
        } else {
            assert(s.skip(1) == rest);
        }
    }
}

} // verus!
