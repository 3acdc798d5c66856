//! Text: what the characters of a rendered command are, and the few
//! standard-library conversions between text and bytes.

use vstd::prelude::*;
use vstd::string::*;
use vstd::utf8::*;

use crate::bytes;
use crate::bytes::bytes_equal;

verus! {

/// `core::str::Utf8Error`, the reason why bytes are not UTF-8.
#[verifier::external_type_specification]
#[verifier::external_body]
pub struct ExUtf8Error(core::str::Utf8Error);

/// `String::push` appends one character.
pub assume_specification[ String::push ](s: &mut String, c: char)
    ensures
        final(s)@ == old(s)@.push(c),
;

/// `core::str::from_utf8` borrows the same bytes as text, and fails exactly
/// when they are not valid UTF-8.
pub assume_specification<'a>[ core::str::from_utf8 ](v: &'a [u8]) -> (r: Result<
    &'a str,
    core::str::Utf8Error,
>)
    ensures
        r is Ok <==> valid_utf8(v@),
        r matches Ok(text) ==> text@ == decode_utf8(v@),
;

/// The text that `String::from_utf8_lossy` makes of `bytes`: what is not
/// UTF-8 in them is replaced.
pub uninterp spec fn lossy_text(bytes: Seq<u8>) -> Seq<char>;

/// `String::from_utf8_lossy`, copied out of its `Cow`.  Valid UTF-8 comes
/// out as the text that it encodes; how invalid bytes are replaced is not
/// described further.
#[verifier::external_body]
pub(crate) fn from_utf8_lossy(bytes: &[u8]) -> (r: String)
    ensures
        r@ == lossy_text(bytes@),
        valid_utf8(bytes@) ==> r@ == decode_utf8(bytes@),
{
    String::from_utf8_lossy(bytes).into_owned()
}

/// The bytes of a text.
pub open spec fn utf8(chars: Seq<char>) -> Seq<u8> {
    encode_utf8(chars)
}

/// The control characters of Unicode: C0, delete and C1.
pub open spec fn is_control_char(c: char) -> bool {
    c <= '\u{1f}' || '\u{7f}' <= c <= '\u{9f}'
}

/// The characters with Unicode's `White_Space` property.
pub open spec fn is_white_space(c: char) -> bool {
    ||| '\u{9}' <= c <= '\u{d}'
    ||| c == '\u{20}'
    ||| c == '\u{85}'
    ||| c == '\u{a0}'
    ||| c == '\u{1680}'
    ||| '\u{2000}' <= c <= '\u{200a}'
    ||| c == '\u{2028}'
    ||| c == '\u{2029}'
    ||| c == '\u{202f}'
    ||| c == '\u{205f}'
    ||| c == '\u{3000}'
}

pub open spec fn has_control_char(s: Seq<char>) -> bool {
    exists|i: int| 0 <= i < s.len() && is_control_char(#[trigger] s[i])
}

/// The decimal digit `d`.
pub open spec fn digit_char(d: nat) -> char {
    ('0' as u32 + d) as char
}

/// `n` in decimal, without leading zeros.
pub open spec fn decimal(n: nat) -> Seq<char>
    decreases n,
{
    if n < 10 {
        seq![digit_char(n)]
    } else {
        decimal(n / 10).push(digit_char(n % 10))
    }
}

/// The lower-case hexadecimal digit `d`.
pub open spec fn hex_char(d: nat) -> char {
    if d < 10 {
        digit_char(d)
    } else {
        ('a' as u32 + d - 10) as char
    }
}

/// A byte as two lower-case hexadecimal digits.
pub open spec fn hex(b: u8) -> Seq<char> {
    seq![hex_char((b / 16) as nat), hex_char((b % 16) as nat)]
}

/// The last `width` lower-case hexadecimal digits of `n`.
pub open spec fn hex_digits(n: nat, width: nat) -> Seq<char>
    decreases width,
{
    if width == 0 {
        seq![]
    } else {
        hex_digits(n / 16, (width - 1) as nat).push(hex_char(n % 16))
    }
}

pub fn is_control(c: char) -> (r: bool)
    ensures
        r == is_control_char(c),
{
    c <= '\u{1f}' || ('\u{7f}' <= c && c <= '\u{9f}')
}

pub fn is_space(c: char) -> (r: bool)
    ensures
        r == is_white_space(c),
{
    ('\u{9}' <= c && c <= '\u{d}') || c == '\u{20}' || c == '\u{85}' || c == '\u{a0}' || c
        == '\u{1680}' || ('\u{2000}' <= c && c <= '\u{200a}') || c == '\u{2028}' || c == '\u{2029}'
        || c == '\u{202f}' || c == '\u{205f}' || c == '\u{3000}'
}

/// Whether a text holds a control character.
pub fn any_control(s: &str) -> (r: bool)
    ensures
        r == has_control_char(s@),
{
    for c in it: s.chars()
        invariant
            it.seq() == s@,
            forall|j: int| 0 <= j < it.index() ==> !is_control_char(#[trigger] s@[j]),
    {
        if is_control(c) {
            assert(is_control_char(s@[it.index()]));
            return true;
        }
    }
    false
}

/// Whether two texts are the same.
pub fn same_text(a: &str, b: &str) -> (r: bool)
    ensures
        r == (a@ == b@),
{
    proof {
        encode_utf8_decode_utf8(a@);
        encode_utf8_decode_utf8(b@);
    }
    bytes_equal(a.as_bytes(), b.as_bytes())
}

/// Appends `n` in decimal.
pub fn push_decimal(out: &mut String, n: u64)
    ensures
        final(out)@ == old(out)@ + decimal(n as nat),
    decreases n,
{
    if n >= 10 {
        push_decimal(out, n / 10);
    }
    let digit: u8 = (n % 10) as u8;
    out.push((0x30u8 + digit) as char);
}

/// Appends `b` as two hexadecimal digits.
pub fn push_hex(out: &mut String, b: u8)
    ensures
        final(out)@ == old(out)@ + hex(b),
{
    out.push(hex_digit(b / 16));
    out.push(hex_digit(b % 16));
}

/// Appends the last `width` hexadecimal digits of `n`.
pub fn push_hex_digits(out: &mut String, n: u64, width: u8)
    ensures
        final(out)@ == old(out)@ + hex_digits(n as nat, width as nat),
    decreases width,
{
    if width > 0 {
        push_hex_digits(out, n / 16, width - 1);
        out.push(hex_digit((n % 16) as u8));
    }
}

fn hex_digit(d: u8) -> (r: char)
    requires
        d < 16,
    ensures
        r == hex_char(d as nat),
{
    if d < 10 {
        (0x30u8 + d) as char
    } else {
        (0x61u8 + (d - 10)) as char
    }
}

/// The bytes of two joined texts are their bytes, joined.
pub proof fn lemma_utf8_join(a: Seq<char>, b: Seq<char>)
    ensures
        utf8(a + b) == utf8(a) + utf8(b),
    decreases a.len(),
{
    if a.len() == 0 {
        assert(a + b == b);
        assert(utf8(a) + utf8(b) == utf8(b));
    } else {
        lemma_utf8_join(a.drop_first(), b);
        assert((a + b).drop_first() == a.drop_first() + b);
        let first = encode_scalar(a[0] as u32);
        assert(first + (utf8(a.drop_first()) + utf8(b)) == (first + utf8(a.drop_first())) + utf8(
            b,
        ));
    }
}

pub proof fn lemma_utf8_ascii(s: Seq<char>)
    requires
        is_ascii_chars(s),
    ensures
        utf8(s) == Seq::new(s.len(), |i: int| s[i] as u8),
{
    is_ascii_chars_encode_utf8(s);
}

proof fn lemma_decimal(n: nat)
    ensures
        decimal(n).len() > 0,
        is_ascii_chars(decimal(n)),
        bytes::all_digits(utf8(decimal(n))),
        bytes::digits_value(utf8(decimal(n))) == n,
    decreases n,
{
    let d = decimal(n);
    if n < 10 {
        lemma_utf8_ascii(d);
        let u = utf8(d);
        assert(u.len() == 1);
        assert(u.drop_last() == Seq::<u8>::empty());
        assert(bytes::digits_value(u.drop_last()) == 0);
    } else {
        lemma_decimal(n / 10);
        lemma_utf8_ascii(decimal(n / 10));
        lemma_utf8_ascii(d);
        let u = utf8(d);
        assert(u.drop_last() == utf8(decimal(n / 10)));
        assert(u.last() == 0x30 + n % 10);
        assert(forall|i: int| 0 <= i < u.len() - 1 ==> u[i] == u.drop_last()[i]);
    }
}

/// A number reads back from its decimal digits.
pub proof fn law_decimal_reads_back(n: nat, max: nat)
    requires
        n <= max,
    ensures
        bytes::decimal_number(utf8(decimal(n)), max) == Some(n),
        bytes::all_digits(utf8(decimal(n))),
{
    lemma_decimal(n);
    lemma_utf8_ascii(decimal(n));
}

} // verus!
