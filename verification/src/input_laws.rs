//! Keys and text read back from the bytes that are sent for them.

use vstd::prelude::*;

use crate::bytes;
use crate::bytes::Delimiter;
use crate::input;
use crate::input::{KeyCode, KeyForm, Modifiers};
use crate::text;

verus! {

/// The key of a single byte.
pub open spec fn byte_key(b: u8) -> Option<KeyCode> {
    if b == 0x1b {
        Some(KeyCode::Escape)
    } else if b == 0x09 {
        Some(KeyCode::Tab)
    } else if b == 0x0d {
        Some(KeyCode::Enter)
    } else if b == 0x7f {
        Some(KeyCode::Backspace)
    } else if b == 0x03 {
        Some(KeyCode::Interrupt)
    } else {
        None
    }
}

/// The key of a sequence that ends in a letter: `A` to `D` move the cursor up,
/// down, right and left, `H` and `F` are the ends of a line, and `P` to `S` the
/// first function keys.
pub open spec fn letter_key(c: char) -> Option<KeyCode> {
    if c == 'A' {
        Some(KeyCode::Up)
    } else if c == 'B' {
        Some(KeyCode::Down)
    } else if c == 'C' {
        Some(KeyCode::Right)
    } else if c == 'D' {
        Some(KeyCode::Left)
    } else if c == 'H' {
        Some(KeyCode::Home)
    } else if c == 'F' {
        Some(KeyCode::End)
    } else if c == 'P' {
        Some(KeyCode::F1)
    } else if c == 'Q' {
        Some(KeyCode::F2)
    } else if c == 'R' {
        Some(KeyCode::F3)
    } else if c == 'S' {
        Some(KeyCode::F4)
    } else {
        None
    }
}

/// The key of a number in front of a tilde.  The function keys skip the numbers
/// that the early terminals left out.
pub open spec fn numbered_key(n: nat) -> Option<KeyCode> {
    if n == 2 {
        Some(KeyCode::Insert)
    } else if n == 3 {
        Some(KeyCode::Delete)
    } else if n == 5 {
        Some(KeyCode::PageUp)
    } else if n == 6 {
        Some(KeyCode::PageDown)
    } else if n == 15 {
        Some(KeyCode::F5)
    } else if n == 17 {
        Some(KeyCode::F6)
    } else if n == 18 {
        Some(KeyCode::F7)
    } else if n == 19 {
        Some(KeyCode::F8)
    } else if n == 20 {
        Some(KeyCode::F9)
    } else if n == 21 {
        Some(KeyCode::F10)
    } else if n == 23 {
        Some(KeyCode::F11)
    } else if n == 24 {
        Some(KeyCode::F12)
    } else {
        None
    }
}

/// How an application reads a key: which one it is, and the number of its
/// modifiers, one where there are none.
pub open spec fn key_read(s: Seq<u8>) -> (Option<KeyCode>, nat) {
    if s.len() == 1 {
        (byte_key(s[0]), 1)
    } else if s.len() == 2 && s[0] == 0x1b {
        (byte_key(s[1]), 3)
    } else if s.len() == 3 && s[0] == 0x1b && s[1] == 0x4f {
        (letter_key(s[2] as char), 1)
    } else if s.len() >= 3 && s[0] == 0x1b && s[1] == 0x5b {
        let fields = bytes::split(s.subrange(2, s.len() - 1), Delimiter::Byte(0x3b));
        let modifiers = if fields.len() == 2 {
            bytes::digits_value(fields[1])
        } else {
            1
        };
        if s.last() == 0x7e {
            (numbered_key(bytes::digits_value(fields[0])), modifiers)
        } else {
            (letter_key(s.last() as char), modifiers)
        }
    } else {
        (None, 0)
    }
}

/// The modifiers of a number: one more than shift as one, alt as two and
/// control as four.
pub open spec fn held(n: nat, m: Modifiers) -> bool {
    &&& n >= 1
    &&& m.shift == ((n - 1) % 2 == 1)
    &&& m.alt == (((n - 1) / 2) % 2 == 1)
    &&& m.ctrl == (((n - 1) / 4) % 2 == 1)
}

/// The key is sent as one byte, which shift and control do not change.
pub open spec fn is_byte_key(key: KeyCode) -> bool {
    key == KeyCode::Escape || key == KeyCode::Tab || key == KeyCode::Enter || key
        == KeyCode::Backspace || key == KeyCode::Interrupt
}

proof fn lemma_number_field(n: nat)
    ensures
        bytes::digits_value(input::number_bytes(n)) == n,
        forall|j: int|
            0 <= j < input::number_bytes(n).len() ==> !Delimiter::Byte(0x3b).matches(
                #[trigger] input::number_bytes(n)[j],
            ),
        input::number_bytes(n).len() > 0,
{
    text::law_decimal_reads_back(n, n);
    let u = input::number_bytes(n);
    assert forall|j: int| 0 <= j < u.len() implies !Delimiter::Byte(0x3b).matches(
        #[trigger] u[j],
    ) by {
        assert(bytes::is_digit(u[j]));
    }
}

proof fn lemma_held(m: Modifiers)
    ensures
        held(input::modifier_parameter(m), m),
        input::no_modifiers(m) ==> input::modifier_parameter(m) == 1,
{
}

/// Two numbers between the introducer and the last byte.
proof fn lemma_pair(a: Seq<u8>, n: nat, last: u8)
    requires
        forall|j: int| 0 <= j < a.len() ==> !Delimiter::Byte(0x3b).matches(#[trigger] a[j]),
    ensures
        ({
            let s = seq![0x1bu8, 0x5bu8] + a + seq![0x3bu8] + input::number_bytes(n) + seq![last];
            &&& s.len() >= 4
            &&& s[0] == 0x1b
            &&& s[1] == 0x5b
            &&& s.last() == last
            &&& bytes::split(s.subrange(2, s.len() - 1), Delimiter::Byte(0x3b)) == seq![
                a,
                input::number_bytes(n),
            ]
        }),
{
    lemma_number_field(n);
    let b = input::number_bytes(n);
    let d = Delimiter::Byte(0x3b);
    let s = seq![0x1bu8, 0x5bu8] + a + seq![0x3bu8] + b + seq![last];
    assert(s.subrange(2, s.len() - 1) =~= a + seq![0x3bu8] + b);
    bytes::lemma_split_first(a, 0x3b, b, d);
    bytes::lemma_split_last(b, d);
    assert(seq![a] + seq![b] =~= seq![a, b]);
}

proof fn lemma_letter_read(last: u8, n: nat)
    requires
        last != 0x7e,
    ensures
        key_read(
            seq![0x1bu8, 0x5bu8] + seq![0x31u8, 0x3bu8] + input::number_bytes(n) + seq![last],
        ) == (letter_key(last as char), n),
        key_read(seq![0x1bu8, 0x5bu8] + seq![last]) == (letter_key(last as char), 1nat),
        key_read(seq![0x1bu8, 0x4fu8, last]) == (letter_key(last as char), 1nat),
{
    let one = seq![0x31u8];
    lemma_pair(one, n, last);
    lemma_number_field(n);
    let s = seq![0x1bu8, 0x5bu8] + seq![0x31u8, 0x3bu8] + input::number_bytes(n) + seq![last];
    assert(s =~= seq![0x1bu8, 0x5bu8] + one + seq![0x3bu8] + input::number_bytes(n) + seq![last]);
    let t = seq![0x1bu8, 0x5bu8] + seq![last];
    let none = Seq::<u8>::empty();
    assert(t.subrange(2, t.len() - 1) =~= none);
    bytes::lemma_split_last(none, Delimiter::Byte(0x3b));
}

proof fn lemma_numbered_read(number: nat, n: nat)
    ensures
        key_read(
            seq![0x1bu8, 0x5bu8] + input::number_bytes(number) + seq![0x3bu8]
                + input::number_bytes(n) + seq![0x7eu8],
        ) == (numbered_key(number), n),
        key_read(seq![0x1bu8, 0x5bu8] + input::number_bytes(number) + seq![0x7eu8]) == (
            numbered_key(number),
            1nat,
        ),
{
    let a = input::number_bytes(number);
    lemma_number_field(number);
    lemma_number_field(n);
    lemma_pair(a, n, 0x7e);
    let t = seq![0x1bu8, 0x5bu8] + a + seq![0x7eu8];
    assert(t.subrange(2, t.len() - 1) =~= a);
    bytes::lemma_split_last(a, Delimiter::Byte(0x3b));
    assert(t.len() >= 4);
    assert(t.last() == 0x7e);
}

/// Every key reads back from its bytes, in either cursor-key mode, with the
/// modifiers that were held.
pub proof fn law_keys_read_back(key: KeyCode, m: Modifiers, application_cursor: bool)
    requires
        !is_byte_key(key),
    ensures
        key_read(input::key_bytes(key, m, application_cursor)).0 == Some(key),
        held(key_read(input::key_bytes(key, m, application_cursor)).1, m),
{
    let n = input::modifier_parameter(m);
    lemma_held(m);
    match input::key_form(key) {
        KeyForm::Byte(_) => {},
        KeyForm::Cursor(last) => {
            lemma_letter_read(last, n);
            assert(letter_key(last as char) == Some(key));
        },
        KeyForm::Letter(last) => {
            lemma_letter_read(last, n);
            assert(letter_key(last as char) == Some(key));
        },
        KeyForm::Numbered(number) => {
            lemma_numbered_read(number as nat, n);
            assert(numbered_key(number as nat) == Some(key));
        },
    }
}

/// A key that is one byte reads back too; alt puts an escape in front of it.
pub proof fn law_byte_keys_read_back(key: KeyCode, m: Modifiers, application_cursor: bool)
    requires
        is_byte_key(key),
    ensures
        key_read(input::key_bytes(key, m, application_cursor)).0 == Some(key),
        key_read(input::key_bytes(key, m, application_cursor)).1 == (if m.alt {
            3nat
        } else {
            1nat
        }),
{
}

/// Only plain cursor keys follow the cursor-key mode: an application gets them
/// behind `O`, and everything else as in the normal mode.
pub proof fn law_the_cursor_mode_changes_plain_cursor_keys(key: KeyCode, m: Modifiers)
    ensures
        input::key_bytes(key, m, true) != input::key_bytes(key, m, false) <==> input::no_modifiers(
            m,
        ) && (key == KeyCode::Up || key == KeyCode::Down || key == KeyCode::Left || key
            == KeyCode::Right || key == KeyCode::Home || key == KeyCode::End),
{
    let a = input::key_bytes(key, m, true);
    let b = input::key_bytes(key, m, false);
    if input::no_modifiers(m) && input::key_form(key) is Cursor {
        assert(a[1] == 0x4f);
        assert(b[1] == 0x5b);
    }
}

/// Control turns a letter into its place in the alphabet, whatever its case, and
/// the other characters of the control block into their codes.
pub proof fn law_control_codes(c: char)
    ensures
        'a' <= c <= 'z' ==> (input::control_code(c) matches Some(k) && k as u32 == c as u32
            - 'a' as u32 + 1),
        'A' <= c <= 'Z' ==> (input::control_code(c) matches Some(k) && k as u32 == c as u32
            - 'A' as u32 + 1),
        c == '@' || c == ' ' ==> (input::control_code(c) matches Some(k) && k as u32 == 0),
        '[' <= c <= '_' ==> (input::control_code(c) matches Some(k) && k as u32 == c as u32
            - '[' as u32 + 27),
        c == '?' ==> (input::control_code(c) matches Some(k) && k as u32 == 127),
        !('a' <= c <= 'z') && !('@' <= c <= '_') && c != ' ' && c != '?' ==> input::control_code(c)
            is None,
{
}

/// Text without modifiers is sent as it is.
pub proof fn law_plain_text_is_sent_as_it_is(s: Seq<char>, m: Modifiers)
    requires
        !m.alt,
        !m.ctrl,
    ensures
        input::modified_text(s, m) == s,
    decreases s.len(),
{
    if s.len() > 0 {
        law_plain_text_is_sent_as_it_is(s.drop_last(), m);
        assert(s.drop_last() + seq![s.last()] =~= s);
    } else {
        assert(input::modified_text(s, m) =~= s);
    }
}

/// Under control, each character that has a code is sent as that code, and
/// each other as it is; under alt, an escape stands in front of each.
pub proof fn law_modified_text_is_character_by_character(s: Seq<char>, m: Modifiers, i: int)
    requires
        0 <= i < s.len(),
    ensures
        ({
            let sent = if m.ctrl && input::control_code(s[i]) is Some {
                input::control_code(s[i])->0
            } else {
                s[i]
            };
            let out = input::modified_text(s, m);
            if m.alt {
                out.len() == 2 * s.len() && out[2 * i] == '\u{1b}' && out[2 * i + 1] == sent
            } else {
                out.len() == s.len() && out[i] == sent
            }
        }),
    decreases s.len(),
{
    let front = s.drop_last();
    lemma_modified_length(front, m);
    if i < front.len() {
        law_modified_text_is_character_by_character(front, m, i);
        assert(front[i] == s[i]);
    }
}

proof fn lemma_modified_length(s: Seq<char>, m: Modifiers)
    ensures
        input::modified_text(s, m).len() == (if m.alt {
            2 * s.len()
        } else {
            s.len()
        }),
    decreases s.len(),
{
    if s.len() > 0 {
        lemma_modified_length(s.drop_last(), m);
    }
}

} // verus!
