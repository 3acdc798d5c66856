//! A captured pane as the bytes that redraw it.

use vstd::prelude::*;
use vstd::string::*;

use crate::tmux::escape;
use crate::text;
use crate::bytes;
use crate::bytes::{parse_signed_decimal, split_bytes, Delimiter};
use crate::ssh::flow::FlowFailure;
use crate::text::push_decimal;
use crate::tmux::decoder::CommandBlock;
use crate::tmux::escape::decode_capture;

verus! {

/// The largest pane that is redrawn, in either direction.
pub const MAX_PANE_SIZE: u16 = 4096;

/// A pane's size and the bytes that redraw its screen and modes.
#[derive(Clone, Debug, PartialEq, Eq)]
pub struct CapturedScreen {
    pub columns: u16,
    pub rows: u16,
    pub bytes: Vec<u8>,
}

/// A capture that waits for the commit of a strict recovery.
#[derive(Clone, Debug, PartialEq, Eq)]
pub struct StagedCapture {
    pub native: u64,
    pub columns: u16,
    pub rows: u16,
    pub bytes: Vec<u8>,
    pub trailing_output: Vec<u8>,
}

#[verifier::ext_equal]
pub struct CapturedScreenView {
    pub columns: u16,
    pub rows: u16,
    pub bytes: Seq<u8>,
}

impl View for CapturedScreen {
    type V = CapturedScreenView;

    open spec fn view(&self) -> CapturedScreenView {
        CapturedScreenView { columns: self.columns, rows: self.rows, bytes: self.bytes@ }
    }
}

/// Every field is a number that fits in sixteen bits.
pub open spec fn numeric(fields: Seq<Seq<u8>>) -> bool {
    forall|i: int|
        0 <= i < fields.len() ==> bytes::signed_decimal_number(#[trigger] fields[i], u16::MAX as nat)
            is Some
}

pub open spec fn number_at(fields: Seq<Seq<u8>>, i: int) -> u16 {
    bytes::signed_decimal_number(fields[i], u16::MAX as nat)->0 as u16
}

/// The numbers of a metadata line, where all of its fields are numbers.
pub open spec fn numbers(line: Seq<u8>) -> Option<Seq<u16>> {
    let fields = bytes::split(line, Delimiter::Byte(0x2c));
    if numeric(fields) {
        Some(Seq::new(fields.len(), |i: int| number_at(fields, i)))
    } else {
        None
    }
}

/// Width, height, cursor column and row, and eight flags.
pub open spec fn metadata_ok(n: Seq<u16>) -> bool {
    &&& n.len() == 12
    &&& 2 <= n[0] <= MAX_PANE_SIZE
    &&& 1 <= n[1] <= MAX_PANE_SIZE
    &&& n[2] < n[0]
    &&& n[3] < n[1]
    &&& forall|i: int| 4 <= i < 12 ==> #[trigger] n[i] <= 1
}

/// The captured lines, decoded and joined by line breaks.
pub open spec fn screen_text(lines: Seq<Seq<u8>>) -> Option<Seq<u8>>
    decreases lines.len(),
{
    if lines.len() == 0 {
        Some(seq![])
    } else {
        match (screen_text(lines.drop_last()), escape::capture_decoded(lines.last())) {
            (Some(front), Ok(line)) => Some(
                if lines.len() == 1 {
                    line
                } else {
                    front + text::utf8("\r\n"@) + line
                },
            ),
            _ => None,
        }
    }
}

/// `h` sets a mode, `l` resets it.
pub open spec fn switch(flag: u16) -> Seq<char> {
    if flag != 0 {
        "h"@
    } else {
        "l"@
    }
}

/// Insert, origin and wrap mode, the cursor's place and visibility, cursor
/// keys, bracketed paste and the keypad.
pub open spec fn mode_text(n: Seq<u16>) -> Seq<char> {
    "\x1b[4"@ + switch(n[9]) + "\x1b[?6"@ + switch(n[10]) + "\x1b[?7"@ + switch(n[11]) + "\x1b["@
        + text::decimal((n[3] + 1) as nat) + ";"@ + text::decimal((n[2] + 1) as nat) + "H\x1b[?25"@ + switch(
        n[5],
    ) + "\x1b[?1"@ + switch(n[6]) + "\x1b[?2004"@ + switch(n[8]) + (if n[7] != 0 {
        "\x1b="@
    } else {
        "\x1b>"@
    })
}

/// The screen of a capture reply: one block with the lines, one with the
/// metadata.
pub open spec fn captured(blocks: Seq<CommandBlock>) -> Result<CapturedScreenView, FlowFailure> {
    if blocks.len() != 2 || blocks[1].lines@.len() == 0 {
        Err(FlowFailure::TmuxProtocol)
    } else {
        match (numbers(blocks[1].lines@[0]@), screen_text(bytes::views(blocks[0].lines@))) {
            (Some(n), Some(text)) => if metadata_ok(n) {
                Ok(
                    CapturedScreenView {
                        columns: n[0],
                        rows: n[1],
                        bytes: (if n[4] != 0 {
                            text::utf8("\x1b[?1049h"@)
                        } else {
                            seq![]
                        }) + text + text::utf8(mode_text(n)),
                    },
                )
            } else {
                Err(FlowFailure::TmuxProtocol)
            },
            _ => Err(FlowFailure::TmuxProtocol),
        }
    }
}

fn parse_numbers(line: &Vec<u8>) -> (r: Option<Vec<u16>>)
    ensures
        match r {
            Some(n) => numbers(line@) == Some(n@),
            None => numbers(line@) is None,
        },
{
    let fields = split_bytes(line.as_slice(), Delimiter::Byte(0x2c));
    let ghost all = bytes::views(fields@);
    let mut out: Vec<u16> = Vec::new();
    let mut i: usize = 0;
    while i < fields.len()
        invariant
            i <= fields@.len(),
            all == bytes::views(fields@),
            all == bytes::split(line@, Delimiter::Byte(0x2c)),
            out@.len() == i,
            forall|j: int|
                0 <= j < i ==> bytes::signed_decimal_number(#[trigger] all[j], u16::MAX as nat) == Some(
                    out@[j] as nat,
                ),
        decreases fields@.len() - i,
    {
        assert(all[i as int] == fields@[i as int]@);
        match parse_signed_decimal(fields[i].as_slice(), u16::MAX as u64) {
            Some(n) => {
                out.push(n as u16);
            },
            None => {
                assert(!numeric(all));
                return None;
            },
        }
        i = i + 1;
    }
    assert(numeric(all));
    assert(out@ =~= Seq::new(all.len(), |k: int| number_at(all, k)));
    Some(out)
}

fn check_metadata(n: &Vec<u16>) -> (r: bool)
    ensures
        r == metadata_ok(n@),
{
    if n.len() != 12 || n[0] < 2 || n[0] > MAX_PANE_SIZE || n[1] == 0 || n[1] > MAX_PANE_SIZE
        || n[2] >= n[0] || n[3] >= n[1] {
        return false;
    }
    let mut i: usize = 4;
    while i < 12
        invariant
            4 <= i <= 12,
            n@.len() == 12,
            forall|j: int| 4 <= j < i ==> #[trigger] n@[j] <= 1,
        decreases 12 - i,
    {
        if n[i] > 1 {
            return false;
        }
        i = i + 1;
    }
    true
}

fn push_switch(out: &mut String, flag: u16)
    ensures
        final(out)@ == old(out)@ + switch(flag),
{
    if flag != 0 {
        out.append("h");
    } else {
        out.append("l");
    }
}

fn build_modes(n: &Vec<u16>) -> (r: String)
    requires
        metadata_ok(n@),
    ensures
        r@ == mode_text(n@),
{
    let mut out = String::from_str("\x1b[4");
    push_switch(&mut out, n[9]);
    out.append("\x1b[?6");
    push_switch(&mut out, n[10]);
    out.append("\x1b[?7");
    push_switch(&mut out, n[11]);
    out.append("\x1b[");
    push_decimal(&mut out, n[3] as u64 + 1);
    out.append(";");
    push_decimal(&mut out, n[2] as u64 + 1);
    out.append("H\x1b[?25");
    push_switch(&mut out, n[5]);
    out.append("\x1b[?1");
    push_switch(&mut out, n[6]);
    out.append("\x1b[?2004");
    push_switch(&mut out, n[8]);
    if n[7] != 0 {
        out.append("\x1b=");
    } else {
        out.append("\x1b>");
    }
    out
}

proof fn lemma_screen_bad(lines: Seq<Seq<u8>>, i: int)
    requires
        0 <= i < lines.len(),
        escape::capture_decoded(lines[i]) is Err,
    ensures
        screen_text(lines) is None,
    decreases lines.len(),
{
    if i < lines.len() - 1 {
        assert(lines.drop_last()[i] == lines[i]);
        lemma_screen_bad(lines.drop_last(), i);
    }
}

fn decode_screen(lines: &Vec<Vec<u8>>) -> (r: Option<Vec<u8>>)
    ensures
        match r {
            Some(bytes) => screen_text(bytes::views(lines@)) == Some(bytes@),
            None => screen_text(bytes::views(lines@)) is None,
        },
{
    let ghost all = bytes::views(lines@);
    let mut out: Vec<u8> = Vec::new();
    let mut i: usize = 0;
    assert(all.take(0) == Seq::<Seq<u8>>::empty());
    while i < lines.len()
        invariant
            i <= lines@.len(),
            all == bytes::views(lines@),
            screen_text(all.take(i as int)) == Some(out@),
        decreases lines@.len() - i,
    {
        let ghost part = all.take(i + 1);
        assert(part.drop_last() == all.take(i as int));
        assert(part.last() == lines@[i as int]@);
        let ghost before = out@;
        match decode_capture(lines[i].as_slice()) {
            Err(_) => {
                proof {
                    lemma_screen_bad(all, i as int);
                }
                return None;
            },
            Ok(decoded) => {
                let mut line = decoded;
                let ghost text = line@;
                if i != 0 {
                    let mut br = vstd::slice::slice_to_vec("\r\n".as_bytes());
                    out.append(&mut br);
                }
                out.append(&mut line);
                if i == 0 {
                    assert(before == Seq::<u8>::empty());
                    assert(out@ =~= text);
                }
            },
        }
        i = i + 1;
    }
    assert(all.take(i as int) == all);
    Some(out)
}

/// Turns a capture reply into the bytes that redraw the pane.
pub fn capture_screen(blocks: &Vec<CommandBlock>) -> (r: Result<CapturedScreen, FlowFailure>)
    ensures
        match r {
            Ok(screen) => captured(blocks@) == Ok::<CapturedScreenView, FlowFailure>(screen@),
            Err(e) => captured(blocks@) == Err::<CapturedScreenView, FlowFailure>(e),
        },
{
    if blocks.len() != 2 || blocks[1].lines.len() == 0 {
        return Err(FlowFailure::TmuxProtocol);
    }
    let n = match parse_numbers(&blocks[1].lines[0]) {
        Some(n) => n,
        None => {
            return Err(FlowFailure::TmuxProtocol);
        },
    };
    if !check_metadata(&n) {
        return Err(FlowFailure::TmuxProtocol);
    }
    let mut text = match decode_screen(&blocks[0].lines) {
        Some(text) => text,
        None => {
            return Err(FlowFailure::TmuxProtocol);
        },
    };
    let mut bytes: Vec<u8> = if n[4] != 0 {
        vstd::slice::slice_to_vec("\x1b[?1049h".as_bytes())
    } else {
        Vec::new()
    };
    bytes.append(&mut text);
    let modes = build_modes(&n);
    let mut tail = vstd::slice::slice_to_vec(modes.as_str().as_bytes());
    bytes.append(&mut tail);
    Ok(CapturedScreen { columns: n[0], rows: n[1], bytes })
}

} // verus!
