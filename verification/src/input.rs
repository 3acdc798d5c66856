//! Keys and text as the bytes that an xterm sends.

use vstd::prelude::*;

use crate::text;
use crate::text::push_decimal;

verus! {

/// A key of the local demo's toolbar.
#[derive(Clone, Copy, Debug, PartialEq, Eq, Structural)]
pub enum SpecialKey {
    Escape,
    Tab,
    Enter,
    Backspace,
    Up,
    Down,
    Left,
    Right,
    Interrupt,
}

pub open spec fn special_key_bytes(key: SpecialKey) -> Seq<u8> {
    match key {
        SpecialKey::Escape => seq![0x1bu8],
        SpecialKey::Tab => seq![0x09u8],
        SpecialKey::Enter => seq![0x0du8],
        SpecialKey::Backspace => seq![0x7fu8],
        SpecialKey::Up => seq![0x1bu8, 0x5bu8, 0x41u8],
        SpecialKey::Down => seq![0x1bu8, 0x5bu8, 0x42u8],
        SpecialKey::Left => seq![0x1bu8, 0x5bu8, 0x44u8],
        SpecialKey::Right => seq![0x1bu8, 0x5bu8, 0x43u8],
        SpecialKey::Interrupt => seq![0x03u8],
    }
}

fn arrow(last: u8) -> (r: Vec<u8>)
    ensures
        r@ == seq![0x1bu8, 0x5bu8, last],
{
    let mut out: Vec<u8> = Vec::new();
    out.push(0x1b);
    out.push(0x5b);
    out.push(last);
    assert(out@ =~= seq![0x1bu8, 0x5bu8, last]);
    out
}

fn one(byte: u8) -> (r: Vec<u8>)
    ensures
        r@ == seq![byte],
{
    let mut out: Vec<u8> = Vec::new();
    out.push(byte);
    assert(out@ =~= seq![byte]);
    out
}

/// The bytes of a toolbar key.
pub fn encode_special_key(key: SpecialKey) -> (r: Vec<u8>)
    ensures
        r@ == special_key_bytes(key),
{
    match key {
        SpecialKey::Escape => one(0x1b),
        SpecialKey::Tab => one(0x09),
        SpecialKey::Enter => one(0x0d),
        SpecialKey::Backspace => one(0x7f),
        SpecialKey::Up => arrow(0x41),
        SpecialKey::Down => arrow(0x42),
        SpecialKey::Left => arrow(0x44),
        SpecialKey::Right => arrow(0x43),
        SpecialKey::Interrupt => one(0x03),
    }
}

#[derive(Clone, Copy, Debug, PartialEq, Eq, Structural)]
pub enum KeyCode {
    Escape,
    Tab,
    Enter,
    Backspace,
    Up,
    Down,
    Left,
    Right,
    Interrupt,
    Home,
    End,
    Insert,
    Delete,
    PageUp,
    PageDown,
    F1,
    F2,
    F3,
    F4,
    F5,
    F6,
    F7,
    F8,
    F9,
    F10,
    F11,
    F12,
}

pub open spec fn key_of(key: SpecialKey) -> KeyCode {
    match key {
        SpecialKey::Escape => KeyCode::Escape,
        SpecialKey::Tab => KeyCode::Tab,
        SpecialKey::Enter => KeyCode::Enter,
        SpecialKey::Backspace => KeyCode::Backspace,
        SpecialKey::Up => KeyCode::Up,
        SpecialKey::Down => KeyCode::Down,
        SpecialKey::Left => KeyCode::Left,
        SpecialKey::Right => KeyCode::Right,
        SpecialKey::Interrupt => KeyCode::Interrupt,
    }
}

impl SpecialKey {
    /// The key that the toolbar's key stands for.
    pub fn key(self) -> (r: KeyCode)
        ensures
            r == key_of(self),
    {
        match self {
            SpecialKey::Escape => KeyCode::Escape,
            SpecialKey::Tab => KeyCode::Tab,
            SpecialKey::Enter => KeyCode::Enter,
            SpecialKey::Backspace => KeyCode::Backspace,
            SpecialKey::Up => KeyCode::Up,
            SpecialKey::Down => KeyCode::Down,
            SpecialKey::Left => KeyCode::Left,
            SpecialKey::Right => KeyCode::Right,
            SpecialKey::Interrupt => KeyCode::Interrupt,
        }
    }
}

/// Held modifier keys.
#[derive(Clone, Copy, Debug, PartialEq, Eq, Structural)]
pub struct Modifiers {
    pub shift: bool,
    pub alt: bool,
    pub ctrl: bool,
}

pub open spec fn no_modifiers(m: Modifiers) -> bool {
    !m.shift && !m.alt && !m.ctrl
}

/// The number that stands for the modifiers in a key's sequence.
pub open spec fn modifier_parameter(m: Modifiers) -> nat {
    1 + (if m.shift {
        1nat
    } else {
        0nat
    }) + (if m.alt {
        2nat
    } else {
        0nat
    }) + (if m.ctrl {
        4nat
    } else {
        0nat
    })
}

impl Modifiers {
    pub fn none() -> (r: Self)
        ensures
            r == (Modifiers { shift: false, alt: false, ctrl: false }),
    {
        Modifiers { shift: false, alt: false, ctrl: false }
    }

    pub fn shift() -> (r: Self)
        ensures
            r == (Modifiers { shift: true, alt: false, ctrl: false }),
    {
        Modifiers { shift: true, alt: false, ctrl: false }
    }

    pub fn alt() -> (r: Self)
        ensures
            r == (Modifiers { shift: false, alt: true, ctrl: false }),
    {
        Modifiers { shift: false, alt: true, ctrl: false }
    }

    pub fn ctrl() -> (r: Self)
        ensures
            r == (Modifiers { shift: false, alt: false, ctrl: true }),
    {
        Modifiers { shift: false, alt: false, ctrl: true }
    }

    pub fn is_empty(self) -> (r: bool)
        ensures
            r == no_modifiers(self),
    {
        !self.shift && !self.alt && !self.ctrl
    }

    fn parameter(self) -> (r: u64)
        ensures
            r == modifier_parameter(self),
    {
        let mut n: u64 = 1;
        if self.shift {
            n = n + 1;
        }
        if self.alt {
            n = n + 2;
        }
        if self.ctrl {
            n = n + 4;
        }
        n
    }
}

/// How a key is sent.
#[derive(Clone, Copy, Debug, PartialEq, Eq, Structural)]
pub enum KeyForm {
    /// One byte; alt puts an escape in front.
    Byte(u8),
    /// A cursor key with this last letter: it follows the cursor-key mode.
    Cursor(u8),
    /// A function key with this last letter.
    Letter(u8),
    /// A key with this number.
    Numbered(u64),
}

pub open spec fn key_form(key: KeyCode) -> KeyForm {
    match key {
        KeyCode::Escape => KeyForm::Byte(0x1b),
        KeyCode::Tab => KeyForm::Byte(0x09),
        KeyCode::Enter => KeyForm::Byte(0x0d),
        KeyCode::Backspace => KeyForm::Byte(0x7f),
        KeyCode::Interrupt => KeyForm::Byte(0x03),
        KeyCode::Up => KeyForm::Cursor(0x41),
        KeyCode::Down => KeyForm::Cursor(0x42),
        KeyCode::Right => KeyForm::Cursor(0x43),
        KeyCode::Left => KeyForm::Cursor(0x44),
        KeyCode::Home => KeyForm::Cursor(0x48),
        KeyCode::End => KeyForm::Cursor(0x46),
        KeyCode::Insert => KeyForm::Numbered(2),
        KeyCode::Delete => KeyForm::Numbered(3),
        KeyCode::PageUp => KeyForm::Numbered(5),
        KeyCode::PageDown => KeyForm::Numbered(6),
        KeyCode::F1 => KeyForm::Letter(0x50),
        KeyCode::F2 => KeyForm::Letter(0x51),
        KeyCode::F3 => KeyForm::Letter(0x52),
        KeyCode::F4 => KeyForm::Letter(0x53),
        KeyCode::F5 => KeyForm::Numbered(15),
        KeyCode::F6 => KeyForm::Numbered(17),
        KeyCode::F7 => KeyForm::Numbered(18),
        KeyCode::F8 => KeyForm::Numbered(19),
        KeyCode::F9 => KeyForm::Numbered(20),
        KeyCode::F10 => KeyForm::Numbered(21),
        KeyCode::F11 => KeyForm::Numbered(23),
        KeyCode::F12 => KeyForm::Numbered(24),
    }
}

fn form_of(key: KeyCode) -> (r: KeyForm)
    ensures
        r == key_form(key),
{
    match key {
        KeyCode::Escape => KeyForm::Byte(0x1b),
        KeyCode::Tab => KeyForm::Byte(0x09),
        KeyCode::Enter => KeyForm::Byte(0x0d),
        KeyCode::Backspace => KeyForm::Byte(0x7f),
        KeyCode::Interrupt => KeyForm::Byte(0x03),
        KeyCode::Up => KeyForm::Cursor(0x41),
        KeyCode::Down => KeyForm::Cursor(0x42),
        KeyCode::Right => KeyForm::Cursor(0x43),
        KeyCode::Left => KeyForm::Cursor(0x44),
        KeyCode::Home => KeyForm::Cursor(0x48),
        KeyCode::End => KeyForm::Cursor(0x46),
        KeyCode::Insert => KeyForm::Numbered(2),
        KeyCode::Delete => KeyForm::Numbered(3),
        KeyCode::PageUp => KeyForm::Numbered(5),
        KeyCode::PageDown => KeyForm::Numbered(6),
        KeyCode::F1 => KeyForm::Letter(0x50),
        KeyCode::F2 => KeyForm::Letter(0x51),
        KeyCode::F3 => KeyForm::Letter(0x52),
        KeyCode::F4 => KeyForm::Letter(0x53),
        KeyCode::F5 => KeyForm::Numbered(15),
        KeyCode::F6 => KeyForm::Numbered(17),
        KeyCode::F7 => KeyForm::Numbered(18),
        KeyCode::F8 => KeyForm::Numbered(19),
        KeyCode::F9 => KeyForm::Numbered(20),
        KeyCode::F10 => KeyForm::Numbered(21),
        KeyCode::F11 => KeyForm::Numbered(23),
        KeyCode::F12 => KeyForm::Numbered(24),
    }
}

pub open spec fn number_bytes(n: nat) -> Seq<u8> {
    text::utf8(text::decimal(n))
}

/// The bytes of a key with its modifiers.  `application_cursor` is the
/// terminal's cursor-key mode.
pub open spec fn key_bytes(key: KeyCode, m: Modifiers, application_cursor: bool) -> Seq<u8> {
    let introducer = seq![0x1bu8, 0x5bu8];
    match key_form(key) {
        KeyForm::Byte(byte) => if m.alt {
            seq![0x1bu8, byte]
        } else {
            seq![byte]
        },
        KeyForm::Cursor(last) => if !no_modifiers(m) {
            introducer + seq![0x31u8, 0x3bu8] + number_bytes(modifier_parameter(m)) + seq![last]
        } else if application_cursor {
            seq![0x1bu8, 0x4fu8, last]
        } else {
            introducer + seq![last]
        },
        KeyForm::Letter(last) => if !no_modifiers(m) {
            introducer + seq![0x31u8, 0x3bu8] + number_bytes(modifier_parameter(m)) + seq![last]
        } else {
            seq![0x1bu8, 0x4fu8, last]
        },
        KeyForm::Numbered(n) => if !no_modifiers(m) {
            introducer + number_bytes(n as nat) + seq![0x3bu8] + number_bytes(
                modifier_parameter(m),
            ) + seq![0x7eu8]
        } else {
            introducer + number_bytes(n as nat) + seq![0x7eu8]
        },
    }
}

/// A toolbar key without modifiers is sent as the same key of a keyboard in the
/// normal cursor-key mode.
pub proof fn law_toolbar_keys_are_keys(key: SpecialKey, m: Modifiers)
    requires
        no_modifiers(m),
    ensures
        special_key_bytes(key) == key_bytes(key_of(key), m, false),
{
    assert(special_key_bytes(key) =~= key_bytes(key_of(key), m, false));
}

fn push_number(out: &mut Vec<u8>, n: u64)
    ensures
        final(out)@ == old(out)@ + number_bytes(n as nat),
{
    let mut digits = String::new();
    push_decimal(&mut digits, n);
    assert(digits@ =~= text::decimal(n as nat));
    let mut bytes = vstd::slice::slice_to_vec(digits.as_str().as_bytes());
    out.append(&mut bytes);
}

/// Encodes a key with its modifiers.
pub fn encode_key(key: KeyCode, modifiers: Modifiers, application_cursor: bool) -> (r: Vec<u8>)
    ensures
        r@ == key_bytes(key, modifiers, application_cursor),
{
    let mut out: Vec<u8> = Vec::new();
    out.push(0x1b);
    match form_of(key) {
        KeyForm::Byte(byte) => {
            if modifiers.alt {
                out.push(byte);
                assert(out@ =~= seq![0x1bu8, byte]);
                return out;
            }
            one(byte)
        },
        KeyForm::Cursor(last) => {
            if !modifiers.is_empty() {
                out.push(0x5b);
                out.push(0x31);
                out.push(0x3b);
                push_number(&mut out, modifiers.parameter());
                out.push(last);
            } else if application_cursor {
                out.push(0x4f);
                out.push(last);
            } else {
                out.push(0x5b);
                out.push(last);
            }
            assert(out@ =~= key_bytes(key, modifiers, application_cursor));
            out
        },
        KeyForm::Letter(last) => {
            if !modifiers.is_empty() {
                out.push(0x5b);
                out.push(0x31);
                out.push(0x3b);
                push_number(&mut out, modifiers.parameter());
                out.push(last);
            } else {
                out.push(0x4f);
                out.push(last);
            }
            assert(out@ =~= key_bytes(key, modifiers, application_cursor));
            out
        },
        KeyForm::Numbered(n) => {
            out.push(0x5b);
            push_number(&mut out, n);
            if !modifiers.is_empty() {
                out.push(0x3b);
                push_number(&mut out, modifiers.parameter());
            }
            out.push(0x7e);
            assert(out@ =~= key_bytes(key, modifiers, application_cursor));
            out
        },
    }
}

/// The control code of a character that has one.
pub open spec fn control_code(c: char) -> Option<char> {
    if '@' <= c <= '_' || 'a' <= c <= 'z' {
        Some((c as u32 % 32) as char)
    } else if c == ' ' {
        Some('\0')
    } else if c == '?' {
        Some('\u{7f}')
    } else {
        None
    }
}

/// A character under the modifiers.  Its case is already the committed one, so
/// that shift changes nothing.
pub open spec fn modified_char(c: char, m: Modifiers) -> Seq<char> {
    let sent = if m.ctrl && control_code(c) is Some {
        control_code(c)->0
    } else {
        c
    };
    if m.alt {
        seq!['\u{1b}', sent]
    } else {
        seq![sent]
    }
}

/// Text under the modifiers, character by character.
pub open spec fn modified_text(text: Seq<char>, m: Modifiers) -> Seq<char>
    decreases text.len(),
{
    if text.len() == 0 {
        seq![]
    } else {
        modified_text(text.drop_last(), m) + modified_char(text.last(), m)
    }
}

fn code_of(c: char) -> (r: Option<char>)
    ensures
        r == control_code(c),
{
    if ('@' <= c && c <= '_') || ('a' <= c && c <= 'z') {
        let low: u8 = (c as u32 % 32) as u8;
        assert(low as char == (c as u32 % 32) as char);
        Some(low as char)
    } else if c == ' ' {
        Some('\0')
    } else if c == '?' {
        Some('\u{7f}')
    } else {
        None
    }
}

/// Text with modifiers, as text.
pub fn modify_text(text: &str, modifiers: Modifiers) -> (r: String)
    ensures
        r@ == modified_text(text@, modifiers),
{
    let mut out = String::new();
    let ghost all = text@;
    for c in it: text.chars()
        invariant
            it.seq() == all,
            out@ == modified_text(all.take(it.index() as int), modifiers),
    {
        let ghost n = it.index() as int;
        assert(all.take(n + 1).drop_last() == all.take(n));
        assert(all.take(n + 1).last() == c);
        if modifiers.alt {
            out.push('\u{1b}');
        }
        let sent: char = if modifiers.ctrl {
            match code_of(c) {
                Some(code) => code,
                None => c,
            }
        } else {
            c
        };
        out.push(sent);
        assert(out@ =~= modified_text(all.take(n), modifiers) + modified_char(c, modifiers));
    }
    assert(all.take(all.len() as int) == all);
    out
}

/// Encodes committed text with modifiers.
pub fn encode_text(text: &str, modifiers: Modifiers) -> (r: Vec<u8>)
    ensures
        r@ == text::utf8(modified_text(text@, modifiers)),
{
    let modified = modify_text(text, modifiers);
    vstd::slice::slice_to_vec(modified.as_str().as_bytes())
}

} // verus!
