//! What a captured screen does to the terminal that is fed with it.

use vstd::prelude::*;
use vstd::string::*;
use vstd::utf8::*;

use crate::bytes;
use crate::bytes::Delimiter;
use crate::ssh::capture;
use crate::text;
use crate::tmux::commands;
use crate::tmux::decoder::CommandBlock;
use crate::tmux::escape;
use crate::tmux::format_laws::{expanded, last_quoted, lemma_named_field, lemma_since_quote};

verus! {

/// A pane's size, cursor and modes, as tmux knows them.
pub struct PaneState {
    pub width: u16,
    pub height: u16,
    pub column: u16,
    pub row: u16,
    pub alternate: bool,
    pub visible: bool,
    pub cursor_keys: bool,
    pub keypad: bool,
    pub paste: bool,
    pub insert: bool,
    pub origin: bool,
    pub wrap: bool,
}

/// A terminal's cursor and modes, as far as escape sequences set them.
pub struct Modes {
    pub column: int,
    pub row: int,
    pub alternate: bool,
    pub visible: bool,
    pub cursor_keys: bool,
    pub keypad: bool,
    pub paste: bool,
    pub insert: bool,
    pub origin: bool,
    pub wrap: bool,
}

/// The length of the parameters in front of a control sequence's last byte.
pub open spec fn parameter_length(s: Seq<u8>) -> nat
    decreases s.len(),
{
    if s.len() > 0 && 0x30 <= s[0] <= 0x3f {
        1 + parameter_length(s.skip(1))
    } else {
        0
    }
}

spec fn all_parameters(s: Seq<u8>) -> bool {
    forall|i: int| 0 <= i < s.len() ==> 0x30 <= #[trigger] s[i] <= 0x3f
}

/// A private mode is set or reset.  Origin mode takes the cursor home.
pub open spec fn private_mode(m: Modes, number: nat, on: bool) -> Modes {
    if number == 1 {
        Modes { cursor_keys: on, ..m }
    } else if number == 6 {
        Modes { origin: on, column: 0, row: 0, ..m }
    } else if number == 7 {
        Modes { wrap: on, ..m }
    } else if number == 25 {
        Modes { visible: on, ..m }
    } else if number == 1049 {
        Modes { alternate: on, ..m }
    } else if number == 2004 {
        Modes { paste: on, ..m }
    } else {
        m
    }
}

/// What a control sequence does: `h` and `l` set and reset a mode, a private
/// one behind `?`, and `H` moves the cursor to a row and column that count
/// from one.
pub open spec fn controlled(m: Modes, parameters: Seq<u8>, last: u8) -> Modes {
    if last == 0x68 || last == 0x6c {
        if parameters.len() > 0 && parameters[0] == 0x3f {
            private_mode(m, bytes::digits_value(parameters.skip(1)), last == 0x68)
        } else if bytes::digits_value(parameters) == 4 {
            Modes { insert: last == 0x68, ..m }
        } else {
            m
        }
    } else if last == 0x48 {
        let place = bytes::split(parameters, Delimiter::Byte(0x3b));
        if place.len() == 2 {
            Modes {
                row: bytes::digits_value(place[0]) - 1,
                column: bytes::digits_value(place[1]) - 1,
                ..m
            }
        } else {
            m
        }
    } else {
        m
    }
}

/// What a two-byte escape sequence does: the keypad sends applications codes
/// after `=` and plain ones after `>`.
pub open spec fn escaped(m: Modes, last: u8) -> Modes {
    if last == 0x3d {
        Modes { keypad: true, ..m }
    } else if last == 0x3e {
        Modes { keypad: false, ..m }
    } else {
        m
    }
}

/// The cursor and modes of a terminal after it was fed with bytes.
pub open spec fn fed(m: Modes, s: Seq<u8>) -> Modes
    decreases s.len(),
{
    if s.len() == 0 {
        m
    } else if s[0] != 0x1b {
        fed(m, s.skip(1))
    } else if s.len() == 1 {
        m
    } else if s[1] != 0x5b {
        fed(escaped(m, s[1]), s.skip(2))
    } else {
        let n = parameter_length(s.skip(2)) as int;
        if n + 2 < s.len() {
            fed(controlled(m, s.subrange(2, n + 2), s[n + 2]), s.skip(n + 3))
        } else {
            m
        }
    }
}

/// A text that may print and colour, but leaves the modes alone whatever
/// follows it.
pub open spec fn leaves_modes(s: Seq<u8>) -> bool {
    forall|m: Modes, rest: Seq<u8>| #[trigger] fed(m, s + rest) == fed(m, rest)
}

/// The terminal has the pane's cursor and modes.
pub open spec fn restored(m: Modes, p: PaneState) -> bool {
    &&& m.column == p.column
    &&& m.row == p.row
    &&& m.visible == p.visible
    &&& m.cursor_keys == p.cursor_keys
    &&& m.keypad == p.keypad
    &&& m.paste == p.paste
    &&& m.insert == p.insert
    &&& m.origin == p.origin
    &&& m.wrap == p.wrap
}

proof fn lemma_parameters(p: Seq<u8>, last: u8, rest: Seq<u8>)
    requires
        all_parameters(p),
        0x40 <= last,
    ensures
        parameter_length(p + seq![last] + rest) == p.len(),
    decreases p.len(),
{
    let s = p + seq![last] + rest;
    if p.len() > 0 {
        assert(s[0] == p[0]);
        assert(s.skip(1) =~= p.skip(1) + seq![last] + rest);
        lemma_parameters(p.skip(1), last, rest);
    } else {
        assert(s[0] == last);
    }
}

/// A whole control sequence in front of other bytes.
proof fn lemma_control(m: Modes, p: Seq<u8>, last: u8, rest: Seq<u8>)
    requires
        all_parameters(p),
        0x40 <= last,
    ensures
        fed(m, seq![0x1bu8, 0x5bu8] + p + seq![last] + rest) == fed(controlled(m, p, last), rest),
{
    let s = seq![0x1bu8, 0x5bu8] + p + seq![last] + rest;
    let n = p.len() as int;
    lemma_parameters(p, last, rest);
    assert(s.skip(2) =~= p + seq![last] + rest);
    assert(s[0] == 0x1b && s[1] == 0x5b);
    assert(s.subrange(2, n + 2) =~= p);
    assert(s[n + 2] == last);
    assert(s.skip(n + 3) =~= rest);
}

/// Texts without an escape byte leave the modes alone.
pub proof fn law_plain_text_leaves_the_modes(s: Seq<u8>)
    requires
        !s.contains(0x1b),
    ensures
        leaves_modes(s),
    decreases s.len(),
{
    assert forall|m: Modes, rest: Seq<u8>| #[trigger] fed(m, s + rest) == fed(m, rest) by {
        if s.len() == 0 {
            assert(s + rest =~= rest);
        } else {
            let tail = s.skip(1);
            assert(!tail.contains(0x1b)) by {
                if tail.contains(0x1b) {
                    let i = choose|i: int| 0 <= i < tail.len() && tail[i] == 0x1b;
                    assert(s[i + 1] == 0x1b);
                }
            }
            law_plain_text_leaves_the_modes(tail);
            assert(s.contains(s[0]));
            assert((s + rest).skip(1) =~= tail + rest);
            assert(fed(m, tail + rest) == fed(m, rest));
        }
    }
}

/// `h` for a set flag, `l` for one that is not.
spec fn letter(flag: u16) -> u8 {
    if flag != 0 {
        0x68
    } else {
        0x6c
    }
}

#[verifier::opaque]
spec fn control(p: Seq<u8>, last: u8) -> Seq<u8> {
    seq![0x1bu8, 0x5bu8] + p + seq![last]
}

proof fn lemma_switch(front: Seq<char>, flag: u16)
    requires
        is_ascii_chars(front),
    ensures
        text::utf8(front + capture::switch(flag)) == text::utf8(front) + seq![letter(flag)],
        text::utf8(front) == Seq::new(front.len(), |i: int| front[i] as u8),
{
    reveal_strlit("h");
    reveal_strlit("l");
    text::lemma_utf8_join(front, capture::switch(flag));
    text::lemma_utf8_ascii(capture::switch(flag));
    text::lemma_utf8_ascii(front);
    assert(text::utf8(capture::switch(flag)) =~= seq![letter(flag)]);
}

/// Two numbers and a semicolon, in front of other bytes.
proof fn lemma_place(row: nat, column: nat)
    ensures
        text::utf8("\x1b["@ + text::decimal(row) + ";"@ + text::decimal(column) + seq!['H'])
            == control(text::utf8(text::decimal(row)) + seq![0x3bu8] + text::utf8(text::decimal(column)), 0x48),
{
    reveal(control);
    let r = text::decimal(row);
    let c = text::decimal(column);
    reveal_strlit("\x1b[");
    reveal_strlit(";");
    text::lemma_utf8_join("\x1b["@ + r + ";"@ + c, seq!['H']);
    text::lemma_utf8_join("\x1b["@ + r + ";"@, c);
    text::lemma_utf8_join("\x1b["@ + r, ";"@);
    text::lemma_utf8_join("\x1b["@, r);
    text::lemma_utf8_ascii("\x1b["@);
    text::lemma_utf8_ascii(";"@);
    text::lemma_utf8_ascii(seq!['H']);
    assert(text::utf8("\x1b["@) =~= seq![0x1bu8, 0x5bu8]);
    assert(text::utf8(";"@) =~= seq![0x3bu8]);
    assert(text::utf8(seq!['H']) =~= seq![0x48u8]);
    assert(seq![0x1bu8, 0x5bu8] + text::utf8(r) + seq![0x3bu8] + text::utf8(c) + seq![0x48u8]
        =~= control(text::utf8(r) + seq![0x3bu8] + text::utf8(c), 0x48));
}

proof fn lemma_together(a: Seq<char>, b: Seq<char>, c: Seq<char>)
    ensures
        a + b + c == a + (b + c),
        text::utf8(a + b + c) == text::utf8(a) + text::utf8(b + c),
{
    assert(a + b + c =~= a + (b + c));
    text::lemma_utf8_join(a, b + c);
}

proof fn lemma_assoc(a: Seq<u8>, b: Seq<u8>, c: Seq<u8>)
    ensures
        a + b + c == a + (b + c),
{
    assert(a + b + c =~= a + (b + c));
}

/// A literal that begins a control sequence, and the flag that ends it.
proof fn lemma_mode_bytes(front: Seq<char>, p: Seq<u8>, flag: u16)
    requires
        is_ascii_chars(front),
        front.len() == p.len() + 2,
        front[0] == '\x1b',
        front[1] == '[',
        forall|i: int| 0 <= i < p.len() ==> #[trigger] p[i] == front[i + 2] as u8,
    ensures
        text::utf8(front + capture::switch(flag)) == control(p, letter(flag)),
{
    reveal(control);
    lemma_switch(front, flag);
    assert(text::utf8(front) =~= seq![0x1bu8, 0x5bu8] + p);
}

proof fn lemma_chunks(n: Seq<u16>)
    ensures
        text::utf8("\x1b[4"@ + capture::switch(n[9])) == control(seq![0x34u8], letter(n[9])),
        text::utf8("\x1b[?6"@ + capture::switch(n[10])) == control(
            seq![0x3fu8, 0x36u8],
            letter(n[10]),
        ),
        text::utf8("\x1b[?7"@ + capture::switch(n[11])) == control(
            seq![0x3fu8, 0x37u8],
            letter(n[11]),
        ),
        text::utf8("\x1b[?1"@ + capture::switch(n[6])) == control(
            seq![0x3fu8, 0x31u8],
            letter(n[6]),
        ),
        text::utf8("\x1b[?2004"@ + capture::switch(n[8])) == control(
            seq![0x3fu8, 0x32u8, 0x30u8, 0x30u8, 0x34u8],
            letter(n[8]),
        ),
        text::utf8("H\x1b[?25"@ + capture::switch(n[5])) == seq![0x48u8] + control(
            seq![0x3fu8, 0x32u8, 0x35u8],
            letter(n[5]),
        ),
{
    reveal_strlit("\x1b[4");
    reveal_strlit("\x1b[?6");
    reveal_strlit("\x1b[?7");
    reveal_strlit("\x1b[?1");
    reveal_strlit("\x1b[?2004");
    reveal_strlit("H\x1b[?25");
    lemma_mode_bytes("\x1b[4"@, seq![0x34u8], n[9]);
    lemma_mode_bytes("\x1b[?6"@, seq![0x3fu8, 0x36u8], n[10]);
    lemma_mode_bytes("\x1b[?7"@, seq![0x3fu8, 0x37u8], n[11]);
    lemma_mode_bytes("\x1b[?1"@, seq![0x3fu8, 0x31u8], n[6]);
    lemma_mode_bytes("\x1b[?2004"@, seq![0x3fu8, 0x32u8, 0x30u8, 0x30u8, 0x34u8], n[8]);
    let e5 = seq!['\x1b', '[', '?', '2', '5'];
    assert("H\x1b[?25"@ =~= seq!['H'] + e5);
    lemma_mode_bytes(e5, seq![0x3fu8, 0x32u8, 0x35u8], n[5]);
    lemma_together(seq!['H'], e5, capture::switch(n[5]));
    text::lemma_utf8_ascii(seq!['H']);
    assert(text::utf8(seq!['H']) =~= seq![0x48u8]);
}

/// The cursor position of a captured screen.
spec fn place_bytes(n: Seq<u16>) -> Seq<u8> {
    text::utf8(text::decimal((n[3] + 1) as nat)) + seq![0x3bu8] + text::utf8(
        text::decimal((n[2] + 1) as nat),
    )
}

proof fn lemma_keypad_bytes(flag: u16)
    ensures
        text::utf8(
            (if flag != 0 {
                "\x1b="@
            } else {
                "\x1b>"@
            }),
        ) == seq![
            0x1bu8,
            if flag != 0 {
                0x3du8
            } else {
                0x3eu8
            },
        ],
{
    reveal_strlit("\x1b=");
    reveal_strlit("\x1b>");
    let k = if flag != 0 {
        "\x1b="@
    } else {
        "\x1b>"@
    };
    text::lemma_utf8_ascii(k);
}

#[verifier::spinoff_prover]
proof fn lemma_tail_left(n: Seq<u16>)
    requires
        n.len() == 12,
    ensures
        text::utf8(capture::mode_text(n)) == control(seq![0x34u8], letter(n[9])) + control(
            seq![0x3fu8, 0x36u8],
            letter(n[10]),
        ) + control(seq![0x3fu8, 0x37u8], letter(n[11])) + control(place_bytes(n), 0x48) + control(
            seq![0x3fu8, 0x32u8, 0x35u8],
            letter(n[5]),
        ) + control(seq![0x3fu8, 0x31u8], letter(n[6])) + control(
            seq![0x3fu8, 0x32u8, 0x30u8, 0x30u8, 0x34u8],
            letter(n[8]),
        ) + seq![
            0x1bu8,
            if n[7] != 0 {
                0x3du8
            } else {
                0x3eu8
            },
        ],
{
    let r = text::decimal((n[3] + 1) as nat);
    let c = text::decimal((n[2] + 1) as nat);
    lemma_chunks(n);
    lemma_keypad_bytes(n[7]);
    let p1 = "\x1b[4"@ + capture::switch(n[9]);
    let p2 = p1 + "\x1b[?6"@ + capture::switch(n[10]);
    lemma_together(p1, "\x1b[?6"@, capture::switch(n[10]));
    let p3 = p2 + "\x1b[?7"@ + capture::switch(n[11]);
    lemma_together(p2, "\x1b[?7"@, capture::switch(n[11]));
    let k4 = "\x1b["@ + r + ";"@ + c;
    let p4 = p3 + "\x1b["@ + r + ";"@ + c;
    lemma_together(p3, "\x1b["@, r);
    lemma_together(p3, "\x1b["@ + r, ";"@);
    lemma_together(p3, "\x1b["@ + r + ";"@, c);
    assert(text::utf8(p4) == text::utf8(p3) + text::utf8(k4));
    let p5 = p4 + "H\x1b[?25"@ + capture::switch(n[5]);
    lemma_together(p4, "H\x1b[?25"@, capture::switch(n[5]));
    lemma_place((n[3] + 1) as nat, (n[2] + 1) as nat);
    text::lemma_utf8_join(k4, seq!['H']);
    text::lemma_utf8_ascii(seq!['H']);
    assert(text::utf8(seq!['H']) =~= seq![0x48u8]);
    let u5 = control(seq![0x3fu8, 0x32u8, 0x35u8], letter(n[5]));
    lemma_assoc(text::utf8(p3) + text::utf8(k4), seq![0x48u8], u5);
    lemma_assoc(text::utf8(p3), text::utf8(k4), seq![0x48u8]);
    assert(text::utf8(p5) == text::utf8(p3) + control(place_bytes(n), 0x48) + u5);
    let p6 = p5 + "\x1b[?1"@ + capture::switch(n[6]);
    lemma_together(p5, "\x1b[?1"@, capture::switch(n[6]));
    let p7 = p6 + "\x1b[?2004"@ + capture::switch(n[8]);
    lemma_together(p6, "\x1b[?2004"@, capture::switch(n[8]));
    let k8 = if n[7] != 0 {
        "\x1b="@
    } else {
        "\x1b>"@
    };
    text::lemma_utf8_join(p7, k8);
    assert(capture::mode_text(n) == p7 + k8);
}

proof fn lemma_digits_one(a: u8)
    ensures
        bytes::digits_value(seq![a]) == (a - 0x30) as nat,
{
    assert(seq![a].drop_last() =~= Seq::<u8>::empty());
    assert(bytes::digits_value(seq![a].drop_last()) == 0);
}

proof fn lemma_digits_push(s: Seq<u8>, a: u8)
    ensures
        bytes::digits_value(s.push(a)) == bytes::digits_value(s) * 10 + (a - 0x30) as nat,
{
    assert(s.push(a).drop_last() =~= s);
}

/// The numbers of the private modes.
proof fn lemma_mode_numbers()
    ensures
        bytes::digits_value(seq![0x34u8]) == 4,
        bytes::digits_value(seq![0x3fu8, 0x36u8].skip(1)) == 6,
        bytes::digits_value(seq![0x3fu8, 0x37u8].skip(1)) == 7,
        bytes::digits_value(seq![0x3fu8, 0x31u8].skip(1)) == 1,
        bytes::digits_value(seq![0x3fu8, 0x32u8, 0x35u8].skip(1)) == 25,
        bytes::digits_value(seq![0x3fu8, 0x32u8, 0x30u8, 0x30u8, 0x34u8].skip(1)) == 2004,
        bytes::digits_value(seq![0x3fu8, 0x31u8, 0x30u8, 0x34u8, 0x39u8].skip(1)) == 1049,
{
    lemma_digits_one(0x34);
    lemma_digits_one(0x36);
    lemma_digits_one(0x37);
    lemma_digits_one(0x31);
    lemma_digits_one(0x32);
    assert(seq![0x3fu8, 0x36u8].skip(1) =~= seq![0x36u8]);
    assert(seq![0x3fu8, 0x37u8].skip(1) =~= seq![0x37u8]);
    assert(seq![0x3fu8, 0x31u8].skip(1) =~= seq![0x31u8]);
    assert(seq![0x3fu8, 0x32u8, 0x35u8].skip(1) =~= seq![0x32u8].push(0x35));
    lemma_digits_push(seq![0x32u8], 0x35);
    assert(seq![0x3fu8, 0x32u8, 0x30u8, 0x30u8, 0x34u8].skip(1) =~= seq![0x32u8].push(0x30).push(
        0x30,
    ).push(0x34));
    lemma_digits_push(seq![0x32u8], 0x30);
    lemma_digits_push(seq![0x32u8].push(0x30), 0x30);
    lemma_digits_push(seq![0x32u8].push(0x30).push(0x30), 0x34);
    assert(seq![0x3fu8, 0x31u8, 0x30u8, 0x34u8, 0x39u8].skip(1) =~= seq![0x31u8].push(0x30).push(
        0x34,
    ).push(0x39));
    lemma_digits_push(seq![0x31u8], 0x30);
    lemma_digits_push(seq![0x31u8].push(0x30), 0x34);
    lemma_digits_push(seq![0x31u8].push(0x30).push(0x34), 0x39);
}

/// A cursor position moves the cursor.
proof fn lemma_moved(m: Modes, row: nat, column: nat)
    ensures
        controlled(
            m,
            text::utf8(text::decimal(row)) + seq![0x3bu8] + text::utf8(text::decimal(column)),
            0x48,
        ) == (Modes { row: row - 1, column: column - 1, ..m }),
        all_parameters(
            text::utf8(text::decimal(row)) + seq![0x3bu8] + text::utf8(text::decimal(column)),
        ),
{
    let r = text::utf8(text::decimal(row));
    let c = text::utf8(text::decimal(column));
    let d = Delimiter::Byte(0x3b);
    text::law_decimal_reads_back(row, row);
    text::law_decimal_reads_back(column, column);
    assert forall|j: int| 0 <= j < r.len() implies !d.matches(#[trigger] r[j]) by {
        assert(bytes::is_digit(r[j]));
    }
    assert forall|j: int| 0 <= j < c.len() implies !d.matches(#[trigger] c[j]) by {
        assert(bytes::is_digit(c[j]));
    }
    bytes::lemma_split_first(r, 0x3b, c, d);
    bytes::lemma_split_last(c, d);
    let s = r + seq![0x3bu8] + c;
    assert(bytes::split(s, d) =~= seq![r, c]);
    assert forall|i: int| 0 <= i < s.len() implies 0x30 <= #[trigger] s[i] <= 0x3f by {
        if i < r.len() {
            assert(bytes::is_digit(r[i]));
        } else if i > r.len() {
            assert(bytes::is_digit(c[i - r.len() - 1]));
        }
    }
}

/// A private mode in front of other bytes.
proof fn lemma_private(m: Modes, p: Seq<u8>, number: nat, flag: u16, rest: Seq<u8>)
    requires
        all_parameters(p),
        p.len() > 0,
        p[0] == 0x3f,
        bytes::digits_value(p.skip(1)) == number,
    ensures
        fed(m, control(p, letter(flag)) + rest) == fed(private_mode(m, number, flag != 0), rest),
{
    reveal(control);
    lemma_control(m, p, letter(flag), rest);
}

/// The bytes behind the text set every mode but the screen, and place the
/// cursor last of what could move it.
#[verifier::spinoff_prover]
proof fn lemma_tail_restores(m: Modes, n: Seq<u16>)
    requires
        n.len() == 12,
    ensures
        fed(m, text::utf8(capture::mode_text(n))) == (Modes {
            alternate: m.alternate,
            row: n[3] as int,
            column: n[2] as int,
            visible: n[5] != 0,
            cursor_keys: n[6] != 0,
            keypad: n[7] != 0,
            paste: n[8] != 0,
            insert: n[9] != 0,
            origin: n[10] != 0,
            wrap: n[11] != 0,
        }),
{
    lemma_tail_left(n);
    lemma_mode_numbers();
    let c1 = control(seq![0x34u8], letter(n[9]));
    let c2 = control(seq![0x3fu8, 0x36u8], letter(n[10]));
    let c3 = control(seq![0x3fu8, 0x37u8], letter(n[11]));
    let c4 = control(place_bytes(n), 0x48);
    let c5 = control(seq![0x3fu8, 0x32u8, 0x35u8], letter(n[5]));
    let c6 = control(seq![0x3fu8, 0x31u8], letter(n[6]));
    let c7 = control(seq![0x3fu8, 0x32u8, 0x30u8, 0x30u8, 0x34u8], letter(n[8]));
    let c8 = seq![
        0x1bu8,
        if n[7] != 0 {
            0x3du8
        } else {
            0x3eu8
        },
    ];
    let t7 = c7 + c8;
    let t6 = c6 + t7;
    let t5 = c5 + t6;
    let t4 = c4 + t5;
    let t3 = c3 + t4;
    let t2 = c2 + t3;
    lemma_assoc(c1 + c2 + c3 + c4 + c5 + c6, c7, c8);
    lemma_assoc(c1 + c2 + c3 + c4 + c5, c6, t7);
    lemma_assoc(c1 + c2 + c3 + c4, c5, t6);
    lemma_assoc(c1 + c2 + c3, c4, t5);
    lemma_assoc(c1 + c2, c3, t4);
    lemma_assoc(c1, c2, t3);
    assert(text::utf8(capture::mode_text(n)) == c1 + t2);
    let m1 = Modes { insert: n[9] != 0, ..m };
    assert(fed(m, c1 + t2) == fed(m1, t2)) by {
        reveal(control);
        lemma_control(m, seq![0x34u8], letter(n[9]), t2);
    }
    let m2 = private_mode(m1, 6, n[10] != 0);
    lemma_private(m1, seq![0x3fu8, 0x36u8], 6, n[10], t3);
    let m3 = private_mode(m2, 7, n[11] != 0);
    lemma_private(m2, seq![0x3fu8, 0x37u8], 7, n[11], t4);
    let m4 = Modes { row: n[3] as int, column: n[2] as int, ..m3 };
    assert(fed(m3, c4 + t5) == fed(m4, t5)) by {
        reveal(control);
        lemma_moved(m3, (n[3] + 1) as nat, (n[2] + 1) as nat);
        lemma_control(m3, place_bytes(n), 0x48, t5);
    }
    let m5 = private_mode(m4, 25, n[5] != 0);
    lemma_private(m4, seq![0x3fu8, 0x32u8, 0x35u8], 25, n[5], t6);
    let m6 = private_mode(m5, 1, n[6] != 0);
    lemma_private(m5, seq![0x3fu8, 0x31u8], 1, n[6], t7);
    let m7 = private_mode(m6, 2004, n[8] != 0);
    lemma_private(m6, seq![0x3fu8, 0x32u8, 0x30u8, 0x30u8, 0x34u8], 2004, n[8], c8);
    assert(c8.skip(2) =~= Seq::<u8>::empty());
    assert(fed(escaped(m7, c8[1]), c8.skip(2)) == escaped(m7, c8[1]));
    assert(fed(m7, c8) == escaped(m7, c8[1]));
}

/// Numbers in decimal, separated by commas.
pub open spec fn row(n: Seq<u16>) -> Seq<char>
    decreases n.len(),
{
    if n.len() == 0 {
        seq![]
    } else if n.len() == 1 {
        text::decimal(n[0] as nat)
    } else {
        text::decimal(n[0] as nat) + (seq![','] + row(n.skip(1)))
    }
}

pub open spec fn bit(flag: bool) -> u16 {
    if flag {
        1
    } else {
        0
    }
}

proof fn lemma_row_fields(n: Seq<u16>)
    requires
        n.len() > 0,
    ensures
        ({
            let fields = bytes::split(text::utf8(row(n)), Delimiter::Byte(0x2c));
            &&& fields.len() == n.len()
            &&& forall|i: int|
                0 <= i < n.len() ==> #[trigger] fields[i] == text::utf8(text::decimal(n[i] as nat))
        }),
    decreases n.len(),
{
    let d = Delimiter::Byte(0x2c);
    let first = text::utf8(text::decimal(n[0] as nat));
    text::law_decimal_reads_back(n[0] as nat, n[0] as nat);
    assert forall|j: int| 0 <= j < first.len() implies !d.matches(#[trigger] first[j]) by {
        assert(bytes::is_digit(first[j]));
    }
    if n.len() == 1 {
        bytes::lemma_split_last(first, d);
    } else {
        let rest = row(n.skip(1));
        lemma_row_fields(n.skip(1));
        text::lemma_utf8_join(text::decimal(n[0] as nat), seq![','] + rest);
        text::lemma_utf8_join(seq![','], rest);
        text::lemma_utf8_ascii(seq![',']);
        assert(text::utf8(seq![',']) =~= seq![0x2cu8]);
        lemma_assoc(first, seq![0x2cu8], text::utf8(rest));
        bytes::lemma_split_first(first, 0x2c, text::utf8(rest), d);
        let fields = bytes::split(text::utf8(row(n)), d);
        assert forall|i: int| 0 <= i < n.len() implies #[trigger] fields[i] == text::utf8(
            text::decimal(n[i] as nat),
        ) by {
            if i > 0 {
                assert(n.skip(1)[i - 1] == n[i]);
                assert(fields[i] == bytes::split(text::utf8(rest), d)[i - 1]);
            }
        }
    }
}

/// Numbers read back from the line that they are written in.
pub proof fn law_metadata_reads_back(n: Seq<u16>)
    requires
        n.len() > 0,
    ensures
        capture::numbers(text::utf8(row(n))) == Some(n),
{
    lemma_row_fields(n);
    let fields = bytes::split(text::utf8(row(n)), Delimiter::Byte(0x2c));
    assert forall|i: int| 0 <= i < fields.len() implies bytes::signed_decimal_number(
        #[trigger] fields[i],
        u16::MAX as nat,
    ) == Some(n[i] as nat) by {
        text::law_decimal_reads_back(n[i] as nat, u16::MAX as nat);
        assert(bytes::is_digit(fields[i][0]));
    }
    assert(capture::numeric(fields));
    assert(Seq::new(fields.len(), |i: int| capture::number_at(fields, i)) =~= n);
}

/// The reply to a capture: the screen's lines, and one line of numbers.
pub open spec fn is_reply(blocks: Seq<CommandBlock>, line: Seq<char>) -> bool {
    &&& blocks.len() == 2
    &&& blocks[1].lines@.len() > 0
    &&& blocks[1].lines@[0]@ == text::utf8(line)
}

/// The text of a reply's screen.
pub open spec fn reply_text(blocks: Seq<CommandBlock>) -> Option<Seq<u8>> {
    capture::screen_text(bytes::views(blocks[0].lines@))
}

/// A readable screen is redrawn exactly where twelve numbers come with it: a
/// width from two columns and a height from one row, up to 4096 each, a cursor
/// inside of them, and flags that are off or on.
pub proof fn law_a_screen_needs_sound_metadata(blocks: Seq<CommandBlock>, n: Seq<u16>)
    requires
        n.len() > 0,
        is_reply(blocks, row(n)),
        reply_text(blocks) is Some,
    ensures
        capture::captured(blocks) is Ok <==> {
            &&& n.len() == 12
            &&& 2 <= n[0] <= 4096
            &&& 1 <= n[1] <= 4096
            &&& n[2] < n[0]
            &&& n[3] < n[1]
            &&& forall|i: int| 4 <= i < 12 ==> #[trigger] n[i] == 0 || n[i] == 1
        },
{
    law_metadata_reads_back(n);
    if n.len() == 12 {
        assert((forall|i: int| 4 <= i < 12 ==> #[trigger] n[i] == 0 || n[i] == 1) <==> (forall|
            i: int,
        |
            4 <= i < 12 ==> #[trigger] n[i] <= 1)) by {
            if forall|i: int| 4 <= i < 12 ==> #[trigger] n[i] <= 1 {
                assert forall|i: int| 4 <= i < 12 implies #[trigger] n[i] == 0 || n[i] == 1 by {
                    assert(n[i] <= 1);
                }
            }
        }
    }
}

/// The numbers of a pane: its size, its cursor and its modes.
pub open spec fn pane_numbers(p: PaneState) -> Seq<u16> {
    seq![
        p.width,
        p.height,
        p.column,
        p.row,
        bit(p.alternate),
        bit(p.visible),
        bit(p.cursor_keys),
        bit(p.keypad),
        bit(p.paste),
        bit(p.insert),
        bit(p.origin),
        bit(p.wrap),
    ]
}

/// A pane that can be redrawn: at least two columns and one row, at most 4096
/// of each, and a cursor inside.
pub open spec fn can_redraw(p: PaneState) -> bool {
    &&& 2 <= p.width <= 4096
    &&& 1 <= p.height <= 4096
    &&& p.column < p.width
    &&& p.row < p.height
}

/// The set sequence of the alternate screen.
pub open spec fn alternate_set() -> Seq<u8> {
    seq![0x1bu8, 0x5bu8, 0x3fu8, 0x31u8, 0x30u8, 0x34u8, 0x39u8, 0x68u8]
}

proof fn lemma_front(m: Modes, rest: Seq<u8>)
    ensures
        fed(m, alternate_set() + rest) == fed(Modes { alternate: true, ..m }, rest),
{
    lemma_mode_numbers();
    let p = seq![0x3fu8, 0x31u8, 0x30u8, 0x34u8, 0x39u8];
    lemma_control(m, p, 0x68, rest);
    assert(alternate_set() + rest =~= seq![0x1bu8, 0x5bu8] + p + seq![0x68u8] + rest);
}

/// A captured screen has the pane's size, and its bytes are the text between
/// what comes before and what comes after it.  Before it the alternate screen
/// is set where the pane shows it, and nothing is sent where it does not; after
/// it the cursor and every other mode are set, and the screen is left as it is.
pub proof fn law_a_capture_is_the_text_between_the_modes(
    blocks: Seq<CommandBlock>,
    p: PaneState,
) -> (tail: Seq<u8>)
    requires
        can_redraw(p),
        is_reply(blocks, row(pane_numbers(p))),
        reply_text(blocks) is Some,
    ensures
        capture::captured(blocks) is Ok,
        ({
            let screen = capture::captured(blocks)->Ok_0;
            let text = reply_text(blocks)->0;
            &&& screen.columns == p.width
            &&& screen.rows == p.height
            &&& screen.bytes == (if p.alternate {
                alternate_set()
            } else {
                seq![]
            }) + text + tail
        }),
        forall|m: Modes| restored(#[trigger] fed(m, tail), p),
        forall|m: Modes| (#[trigger] fed(m, tail)).alternate == m.alternate,
{
    let n = pane_numbers(p);
    law_metadata_reads_back(n);
    let tail = text::utf8(capture::mode_text(n));
    reveal_strlit("\x1b[?1049h");
    text::lemma_utf8_ascii("\x1b[?1049h"@);
    assert(text::utf8("\x1b[?1049h"@) =~= alternate_set());
    assert(capture::metadata_ok(n));
    assert forall|m: Modes|
        restored(#[trigger] fed(m, tail), p) && fed(m, tail).alternate == m.alternate by {
        lemma_tail_restores(m, n);
    }
    tail
}

/// A terminal that is fed with a captured screen ends with the cursor and the
/// modes of the pane, and on the alternate screen exactly where the pane is.
pub proof fn law_a_captured_screen_restores_the_pane(
    blocks: Seq<CommandBlock>,
    p: PaneState,
    m: Modes,
)
    requires
        can_redraw(p),
        is_reply(blocks, row(pane_numbers(p))),
        reply_text(blocks) is Some,
        leaves_modes(reply_text(blocks)->0),
        !m.alternate,
    ensures
        capture::captured(blocks) is Ok,
        restored(fed(m, capture::captured(blocks)->Ok_0.bytes), p),
        fed(m, capture::captured(blocks)->Ok_0.bytes).alternate == p.alternate,
{
    let tail = law_a_capture_is_the_text_between_the_modes(blocks, p);
    let text = reply_text(blocks)->0;
    let on = Modes { alternate: true, ..m };
    if p.alternate {
        lemma_front(m, text + tail);
        lemma_assoc(alternate_set(), text, tail);
        assert(fed(on, text + tail) == fed(on, tail));
    } else {
        assert(Seq::<u8>::empty() + text + tail =~= text + tail);
        assert(fed(m, text + tail) == fed(m, tail));
    }
}

/// What tmux knows of a pane.
pub open spec fn knows(env: Map<Seq<char>, Seq<char>>, p: PaneState) -> bool {
    &&& env["pane_width"@] == text::decimal(p.width as nat)
    &&& env["pane_height"@] == text::decimal(p.height as nat)
    &&& env["cursor_x"@] == text::decimal(p.column as nat)
    &&& env["cursor_y"@] == text::decimal(p.row as nat)
    &&& env["alternate_on"@] == text::decimal(bit(p.alternate) as nat)
    &&& env["cursor_flag"@] == text::decimal(bit(p.visible) as nat)
    &&& env["keypad_cursor_flag"@] == text::decimal(bit(p.cursor_keys) as nat)
    &&& env["keypad_flag"@] == text::decimal(bit(p.keypad) as nat)
    &&& env["?bracket_paste_flag,1,0"@] == text::decimal(bit(p.paste) as nat)
    &&& env["insert_flag"@] == text::decimal(bit(p.insert) as nat)
    &&& env["origin_flag"@] == text::decimal(bit(p.origin) as nat)
    &&& env["wrap_flag"@] == text::decimal(bit(p.wrap) as nat)
}

/// One field of the format, in front of the others.
proof fn lemma_format_field(
    env: Map<Seq<char>, Seq<char>>,
    f: Seq<char>,
    at: int,
    length: int,
    n: Seq<u16>,
    i: int,
)
    requires
        n.len() == 12,
        0 <= i < 12,
        0 <= at,
        0 <= length,
        at + length + 2 < f.len(),
        f[at] == '#',
        f[at + 1] == '{',
        f[at + 2 + length] == '}',
        forall|k: int| at + 2 <= k < at + 2 + length ==> #[trigger] f[k] != '}',
        env[f.subrange(at + 2, at + 2 + length)] == text::decimal(n[i] as nat),
        i == 11 ==> f.len() == at + length + 3,
        i < 11 ==> f.len() > at + length + 3 && f[at + length + 3] == ',' && expanded(
            env,
            f.skip(at + length + 4),
        ) == row(n.skip(i + 1)),
    ensures
        expanded(env, f.skip(at)) == row(n.skip(i)),
{
    let s = f.skip(at);
    assert forall|k: int| 2 <= k < length + 2 implies #[trigger] s[k] != '}' by {
        assert(s[k] == f[at + k]);
    }
    lemma_named_field(env, s, length);
    assert(s.subrange(2, length + 2) =~= f.subrange(at + 2, at + 2 + length));
    let rest = s.skip(length + 3);
    if i == 11 {
        assert(rest =~= Seq::<char>::empty());
        assert(expanded(env, rest) =~= Seq::<char>::empty());
        assert(n.skip(11).len() == 1);
        assert(text::decimal(n[11] as nat) + Seq::<char>::empty() =~= text::decimal(n[11] as nat));
    } else {
        assert(rest[0] == ',');
        assert(rest.skip(1) =~= f.skip(at + length + 4));
        assert(expanded(env, rest) == seq![','] + row(n.skip(i + 1)));
        assert(n.skip(i).skip(1) =~= n.skip(i + 1));
    }
}

/// The format that a capture asks for expands to the pane's numbers.
#[verifier::spinoff_prover]
#[verifier::rlimit(60)]
proof fn lemma_format(env: Map<Seq<char>, Seq<char>>, p: PaneState)
    requires
        knows(env, p),
    ensures
        expanded(
            env,
            "#{pane_width},#{pane_height},#{cursor_x},#{cursor_y},#{alternate_on},#{cursor_flag},#{keypad_cursor_flag},#{keypad_flag},#{?bracket_paste_flag,1,0},#{insert_flag},#{origin_flag},#{wrap_flag}"@,
        ) == row(pane_numbers(p)),
        !"#{pane_width},#{pane_height},#{cursor_x},#{cursor_y},#{alternate_on},#{cursor_flag},#{keypad_cursor_flag},#{keypad_flag},#{?bracket_paste_flag,1,0},#{insert_flag},#{origin_flag},#{wrap_flag}"@.contains(
            '\'',
        ),
{
    let f = "#{pane_width},#{pane_height},#{cursor_x},#{cursor_y},#{alternate_on},#{cursor_flag},#{keypad_cursor_flag},#{keypad_flag},#{?bracket_paste_flag,1,0},#{insert_flag},#{origin_flag},#{wrap_flag}"@;
    reveal_strlit(
        "#{pane_width},#{pane_height},#{cursor_x},#{cursor_y},#{alternate_on},#{cursor_flag},#{keypad_cursor_flag},#{keypad_flag},#{?bracket_paste_flag,1,0},#{insert_flag},#{origin_flag},#{wrap_flag}",
    );
    let n = pane_numbers(p);
    assert(f.subrange(180, 189) =~= "wrap_flag"@) by {
        reveal_strlit("wrap_flag");
    }
    lemma_format_field(env, f, 178, 9, n, 11);
    assert(f.subrange(165, 176) =~= "origin_flag"@) by {
        reveal_strlit("origin_flag");
    }
    lemma_format_field(env, f, 163, 11, n, 10);
    assert(f.subrange(150, 161) =~= "insert_flag"@) by {
        reveal_strlit("insert_flag");
    }
    lemma_format_field(env, f, 148, 11, n, 9);
    assert(f.subrange(123, 146) =~= "?bracket_paste_flag,1,0"@) by {
        reveal_strlit("?bracket_paste_flag,1,0");
    }
    lemma_format_field(env, f, 121, 23, n, 8);
    assert(f.subrange(108, 119) =~= "keypad_flag"@) by {
        reveal_strlit("keypad_flag");
    }
    lemma_format_field(env, f, 106, 11, n, 7);
    assert(f.subrange(86, 104) =~= "keypad_cursor_flag"@) by {
        reveal_strlit("keypad_cursor_flag");
    }
    lemma_format_field(env, f, 84, 18, n, 6);
    assert(f.subrange(71, 82) =~= "cursor_flag"@) by {
        reveal_strlit("cursor_flag");
    }
    lemma_format_field(env, f, 69, 11, n, 5);
    assert(f.subrange(55, 67) =~= "alternate_on"@) by {
        reveal_strlit("alternate_on");
    }
    lemma_format_field(env, f, 53, 12, n, 4);
    assert(f.subrange(43, 51) =~= "cursor_y"@) by {
        reveal_strlit("cursor_y");
    }
    lemma_format_field(env, f, 41, 8, n, 3);
    assert(f.subrange(31, 39) =~= "cursor_x"@) by {
        reveal_strlit("cursor_x");
    }
    lemma_format_field(env, f, 29, 8, n, 2);
    assert(f.subrange(16, 27) =~= "pane_height"@) by {
        reveal_strlit("pane_height");
    }
    lemma_format_field(env, f, 14, 11, n, 1);
    assert(f.subrange(2, 12) =~= "pane_width"@) by {
        reveal_strlit("pane_width");
    }
    lemma_format_field(env, f, 0, 10, n, 0);
    assert(f.skip(0) =~= f);
    assert(n.skip(0) =~= n);
}

/// What a capture asks tmux about a pane is what the screen is redrawn from:
/// when tmux answers the last argument of the command, the pane's size, cursor
/// and modes come back.
pub proof fn law_a_capture_asks_for_the_pane(
    session: Seq<char>,
    pane_id: u64,
    env: Map<Seq<char>, Seq<char>>,
    p: PaneState,
)
    requires
        knows(env, p),
        commands::capture_pane_for_session_text(session, pane_id) is Ok,
    ensures
        expanded(
            env,
            last_quoted(commands::capture_pane_for_session_text(session, pane_id)->Ok_0),
        ) == row(pane_numbers(p)),
{
    lemma_format(env, p);
    let f = "#{pane_width},#{pane_height},#{cursor_x},#{cursor_y},#{alternate_on},#{cursor_flag},#{keypad_cursor_flag},#{keypad_flag},#{?bracket_paste_flag,1,0},#{insert_flag},#{origin_flag},#{wrap_flag}"@;
    let all = commands::capture_pane_for_session_text(session, pane_id)->Ok_0;
    let quoted = " '#{pane_width},#{pane_height},#{cursor_x},#{cursor_y},#{alternate_on},#{cursor_flag},#{keypad_cursor_flag},#{keypad_flag},#{?bracket_paste_flag,1,0},#{insert_flag},#{origin_flag},#{wrap_flag}'"@;
    let target = crate::tmux::quote::pane_only_target_text(session, pane_id)->Ok_0;
    let front = "capture-pane -p -e -C -N -S -2000 -t "@ + target + " ; display-message -p -t "@
        + target;
    assert(quoted =~= seq![' ', '\''] + f + seq!['\'']) by {
        reveal_strlit(
            "#{pane_width},#{pane_height},#{cursor_x},#{cursor_y},#{alternate_on},#{cursor_flag},#{keypad_cursor_flag},#{keypad_flag},#{?bracket_paste_flag,1,0},#{insert_flag},#{origin_flag},#{wrap_flag}",
        );
        reveal_strlit(
            " '#{pane_width},#{pane_height},#{cursor_x},#{cursor_y},#{alternate_on},#{cursor_flag},#{keypad_cursor_flag},#{keypad_flag},#{?bracket_paste_flag,1,0},#{insert_flag},#{origin_flag},#{wrap_flag}'",
        );
    }
    let a = front + seq![' ', '\''];
    assert(all.drop_last() =~= a + f);
    assert(a.last() == '\'');
    lemma_since_quote(a, f);
}

/// The text of a screen is its lines in their order, whichever bytes tmux
/// escapes: a carriage return and a line feed stand between two lines, and
/// nothing behind the last one.
pub proof fn law_a_screen_is_its_lines(raw: Seq<Seq<u8>>, escaped_bytes: Set<u8>)
    requires
        raw.len() > 0,
        forall|i: int| 0 <= i < raw.len() ==> !(#[trigger] raw[i]).contains(0x0a),
    ensures
        ({
            let lines = Seq::new(
                raw.len(),
                |i: int| escape::capture_encoded(raw[i], escaped_bytes),
            );
            let text = capture::screen_text(lines);
            &&& text is Some
            &&& bytes::split(text->0, Delimiter::Byte(0x0a)) == Seq::new(
                raw.len(),
                |i: int|
                    if i < raw.len() - 1 {
                        raw[i].push(0x0d)
                    } else {
                        raw[i]
                    },
            )
        }),
    decreases raw.len(),
{
    let d = Delimiter::Byte(0x0a);
    let lines = Seq::new(raw.len(), |i: int| escape::capture_encoded(raw[i], escaped_bytes));
    let last = raw.last();
    escape::law_capture_reads_back(last, escaped_bytes);
    assert(!raw[raw.len() - 1].contains(0x0a));
    assert forall|j: int| 0 <= j < last.len() implies !d.matches(#[trigger] last[j]) by {
        if last[j] == 0x0a {
            assert(last.contains(last[j]));
        }
    }
    if raw.len() == 1 {
        bytes::lemma_split_last(last, d);
        assert(capture::screen_text(lines.drop_last()) == Some(Seq::<u8>::empty()));
        assert(capture::screen_text(lines) == Some(last));
        assert(bytes::split(last, d) =~= seq![raw[0]]);
    } else {
        let front = raw.drop_last();
        assert forall|i: int| 0 <= i < front.len() implies !(#[trigger] front[i]).contains(0x0a) by {
            assert(front[i] == raw[i]);
        }
        law_a_screen_is_its_lines(front, escaped_bytes);
        let before = Seq::new(front.len(), |i: int| escape::capture_encoded(front[i], escaped_bytes));
        assert(lines.drop_last() =~= before);
        let text = capture::screen_text(before)->0;
        let br = text::utf8("\r\n"@);
        assert(br =~= seq![0x0du8, 0x0au8]) by {
            reveal_strlit("\r\n");
            text::lemma_utf8_ascii("\r\n"@);
        }
        assert(capture::screen_text(lines) == Some(text + br + last));
        assert(text + br + last =~= text.push(0x0d) + seq![0x0au8] + last);
        bytes::lemma_split_back(text.push(0x0d), 0x0a, last, d);
        bytes::lemma_split_push(text, 0x0d, d);
        let parts = bytes::split(text, d);
        assert(bytes::split(text + br + last, d) =~= Seq::new(
            raw.len(),
            |i: int|
                if i < raw.len() - 1 {
                    raw[i].push(0x0d)
                } else {
                    raw[i]
                },
        ));
    }
}

} // verus!
