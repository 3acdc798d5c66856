//! Input to the selected Herdr terminal.

use vstd::prelude::*;
use vstd::utf8::{decode_utf8, valid_utf8};

use crate::text;
use crate::input;
use crate::input::{encode_key, modify_text, KeyCode, Modifiers};
use crate::ssh::flow::FlowFailure;
use crate::text::{is_control, is_space};

verus! {

/// Input as the user meant it; the remote terminal encodes it by its own
/// modes.
#[derive(Debug, PartialEq, Eq)]
pub enum SemanticInput {
    Text(String, Modifiers),
    Key(KeyCode, Modifiers),
    Paste(String),
    /// Lines to scroll; up where positive.
    Scroll(i32),
}

/// The modifiers in front of a key's name.
pub open spec fn prefix(m: Modifiers) -> Seq<char> {
    (if m.ctrl {
        "ctrl+"@
    } else {
        seq![]
    }) + (if m.alt {
        "alt+"@
    } else {
        seq![]
    }) + (if m.shift {
        "shift+"@
    } else {
        seq![]
    })
}

pub fn modifiers_prefix(modifiers: Modifiers) -> (r: String)
    ensures
        r@ == prefix(modifiers),
{
    let mut out = String::new();
    if modifiers.ctrl {
        out.append("ctrl+");
    }
    if modifiers.alt {
        out.append("alt+");
    }
    if modifiers.shift {
        out.append("shift+");
    }
    assert(out@ =~= prefix(modifiers));
    out
}

/// Herdr's name of a key, where it has one.
pub open spec fn key_name(key: KeyCode) -> Option<Seq<char>> {
    match key {
        KeyCode::Escape => Some("escape"@),
        KeyCode::Tab => Some("tab"@),
        KeyCode::Enter => Some("enter"@),
        KeyCode::Backspace => Some("backspace"@),
        KeyCode::Up => Some("up"@),
        KeyCode::Down => Some("down"@),
        KeyCode::Left => Some("left"@),
        KeyCode::Right => Some("right"@),
        KeyCode::Interrupt => Some("ctrl+c"@),
        KeyCode::F1 => Some("f1"@),
        KeyCode::F2 => Some("f2"@),
        KeyCode::F3 => Some("f3"@),
        KeyCode::F4 => Some("f4"@),
        KeyCode::F5 => Some("f5"@),
        KeyCode::F6 => Some("f6"@),
        KeyCode::F7 => Some("f7"@),
        KeyCode::F8 => Some("f8"@),
        KeyCode::F9 => Some("f9"@),
        KeyCode::F10 => Some("f10"@),
        KeyCode::F11 => Some("f11"@),
        KeyCode::F12 => Some("f12"@),
        _ => None,
    }
}

fn name_of(key: KeyCode) -> (r: Option<&'static str>)
    ensures
        match r {
            Some(name) => key_name(key) == Some(name@),
            None => key_name(key) is None,
        },
{
    match key {
        KeyCode::Escape => Some("escape"),
        KeyCode::Tab => Some("tab"),
        KeyCode::Enter => Some("enter"),
        KeyCode::Backspace => Some("backspace"),
        KeyCode::Up => Some("up"),
        KeyCode::Down => Some("down"),
        KeyCode::Left => Some("left"),
        KeyCode::Right => Some("right"),
        KeyCode::Interrupt => Some("ctrl+c"),
        KeyCode::F1 => Some("f1"),
        KeyCode::F2 => Some("f2"),
        KeyCode::F3 => Some("f3"),
        KeyCode::F4 => Some("f4"),
        KeyCode::F5 => Some("f5"),
        KeyCode::F6 => Some("f6"),
        KeyCode::F7 => Some("f7"),
        KeyCode::F8 => Some("f8"),
        KeyCode::F9 => Some("f9"),
        KeyCode::F10 => Some("f10"),
        KeyCode::F11 => Some("f11"),
        KeyCode::F12 => Some("f12"),
        _ => None,
    }
}

/// A key with its modifiers in Herdr's notation, where the key has a name.
pub fn semantic_key(key: KeyCode, modifiers: Modifiers) -> (r: Option<String>)
    ensures
        match key_name(key) {
            Some(name) => r is Some && r->0@ == prefix(modifiers) + name,
            None => r is None,
        },
{
    match name_of(key) {
        Some(name) => {
            let mut out = modifiers_prefix(modifiers);
            out.append(name);
            Some(out)
        },
        None => None,
    }
}

/// The name of a character as a key, where it can be one.
pub open spec fn char_name(c: char) -> Option<Seq<char>> {
    if c == '+' {
        Some("plus"@)
    } else if c == ' ' {
        Some("space"@)
    } else if c == '\n' || c == '\r' {
        Some("enter"@)
    } else if c == '\t' {
        Some("tab"@)
    } else if text::is_control_char(c) || text::is_white_space(c) {
        None
    } else {
        Some(seq![c])
    }
}

/// The modifiers of a character; its case is already the committed one.
pub open spec fn without_shift(m: Modifiers) -> Modifiers {
    Modifiers { shift: false, ..m }
}

/// A character with its modifiers in Herdr's notation.
pub open spec fn char_key(c: char, m: Modifiers) -> Option<Seq<char>> {
    match char_name(c) {
        Some(name) => Some(prefix(without_shift(m)) + name),
        None => None,
    }
}

pub fn character_key(character: char, modifiers: Modifiers) -> (r: Option<String>)
    ensures
        match char_key(character, modifiers) {
            Some(key) => r is Some && r->0@ == key,
            None => r is None,
        },
{
    let mut kept = modifiers;
    kept.shift = false;
    let mut out = modifiers_prefix(kept);
    if character == '+' {
        out.append("plus");
    } else if character == ' ' {
        out.append("space");
    } else if character == '\n' || character == '\r' {
        out.append("enter");
    } else if character == '\t' {
        out.append("tab");
    } else if is_control(character) || is_space(character) {
        return None;
    } else {
        out.push(character);
        assert(out@ =~= prefix(kept) + seq![character]);
    }
    Some(out)
}

/// Every character as a key, unless one cannot be.
pub open spec fn text_keys(text: Seq<char>, m: Modifiers) -> Option<Seq<Seq<char>>>
    decreases text.len(),
{
    if text.len() == 0 {
        Some(seq![])
    } else {
        match (text_keys(text.drop_last(), m), char_key(text.last(), m)) {
            (Some(front), Some(key)) => Some(front.push(key)),
            _ => None,
        }
    }
}

pub open spec fn texts(keys: Seq<String>) -> Seq<Seq<char>> {
    Seq::new(keys.len(), |i: int| keys[i]@)
}

proof fn lemma_no_keys(text: Seq<char>, m: Modifiers, n: int)
    requires
        0 <= n <= text.len(),
        text_keys(text.take(n), m) is None,
    ensures
        text_keys(text, m) is None,
    decreases text.len() - n,
{
    if n < text.len() {
        assert(text.take(n + 1).drop_last() == text.take(n));
        lemma_no_keys(text, m, n + 1);
    } else {
        assert(text.take(n) == text);
    }
}

fn keys_of_text(text: &str, modifiers: Modifiers) -> (r: Option<Vec<String>>)
    ensures
        match text_keys(text@, modifiers) {
            Some(keys) => r is Some && texts(r->0@) == keys,
            None => r is None,
        },
{
    let mut out: Vec<String> = Vec::new();
    let ghost all = text@;
    assert(texts(out@) =~= Seq::<Seq<char>>::empty());
    assert(all.take(0) == Seq::<char>::empty());
    for c in it: text.chars()
        invariant
            all == text@,
            it.seq() == all,
            text_keys(all.take(it.index() as int), modifiers) == Some(texts(out@)),
    {
        let ghost n = it.index() as int;
        assert(all.take(n + 1).drop_last() == all.take(n));
        assert(all.take(n + 1).last() == c);
        match character_key(c, modifiers) {
            Some(key) => {
                let ghost before = out@;
                out.push(key);
                assert(texts(out@) =~= texts(before).push(key@));
            },
            None => {
                proof {
                    lemma_no_keys(all, modifiers, n + 1);
                }
                return None;
            },
        }
    }
    assert(all.take(all.len() as int) == all);
    Some(out)
}

/// What is sent for an input.
#[derive(Debug, PartialEq, Eq)]
pub enum InputCall {
    Nothing,
    /// Scroll the remote view.
    Scroll { up: bool, lines: u32 },
    SendInput(String),
    SendText(String),
    SendKeys(Vec<String>),
}

/// The most lines of one scroll.
pub const MAX_SCROLL_LINES: u32 = 65535;

pub open spec fn scroll_lines(lines: i32) -> u32 {
    let n = if lines < 0 {
        -(lines as int)
    } else {
        lines as int
    };
    if n > MAX_SCROLL_LINES {
        MAX_SCROLL_LINES
    } else {
        n as u32
    }
}

/// Decides what is sent for an input: text without control or alt as text,
/// text with them key by key where every character is one, a key by its name
/// where Herdr has one, and the rest in the form that an xterm sends.
pub fn input_call(input: SemanticInput) -> (r: Result<InputCall, FlowFailure>)
    ensures
        match input {
            SemanticInput::Scroll(lines) => if lines == 0 {
                r == Ok::<InputCall, FlowFailure>(InputCall::Nothing)
            } else {
                r == Ok::<InputCall, FlowFailure>(
                    InputCall::Scroll { up: lines > 0, lines: scroll_lines(lines) },
                )
            },
            SemanticInput::Paste(text) => r == Ok::<InputCall, FlowFailure>(
                InputCall::SendInput(text),
            ),
            SemanticInput::Text(text, m) => if !m.ctrl && !m.alt {
                r == Ok::<InputCall, FlowFailure>(InputCall::SendText(text))
            } else {
                match text_keys(text@, m) {
                    Some(keys) => r matches Ok(InputCall::SendKeys(sent)) && texts(sent@) == keys,
                    None => r matches Ok(InputCall::SendText(sent)) && sent@ == input::modified_text(
                        text@,
                        m,
                    ),
                }
            },
            SemanticInput::Key(key, m) => match key_name(key) {
                Some(name) => r matches Ok(InputCall::SendKeys(sent)) && texts(sent@) == seq![
                    prefix(m) + name,
                ],
                None => if valid_utf8(input::key_bytes(key, m, false)) {
                    r matches Ok(InputCall::SendText(sent)) && sent@ == decode_utf8(
                        input::key_bytes(key, m, false),
                    )
                } else {
                    r == Err::<InputCall, FlowFailure>(FlowFailure::HerdrProtocol)
                },
            },
        },
{
    match input {
        SemanticInput::Scroll(lines) => {
            if lines == 0 {
                return Ok(InputCall::Nothing);
            }
            let size: u32 = if lines > 0 {
                lines as u32
            } else {
                (-(lines as i64)) as u32
            };
            let bounded: u32 = if size > MAX_SCROLL_LINES {
                MAX_SCROLL_LINES
            } else {
                size
            };
            Ok(InputCall::Scroll { up: lines > 0, lines: bounded })
        },
        SemanticInput::Paste(text) => Ok(InputCall::SendInput(text)),
        SemanticInput::Text(text, modifiers) => {
            if !modifiers.ctrl && !modifiers.alt {
                return Ok(InputCall::SendText(text));
            }
            match keys_of_text(text.as_str(), modifiers) {
                Some(keys) => Ok(InputCall::SendKeys(keys)),
                None => Ok(InputCall::SendText(modify_text(text.as_str(), modifiers))),
            }
        },
        SemanticInput::Key(key, modifiers) => match semantic_key(key, modifiers) {
            Some(name) => {
                let mut keys: Vec<String> = Vec::new();
                keys.push(name);
                assert(texts(keys@) =~= seq![name@]);
                Ok(InputCall::SendKeys(keys))
            },
            None => {
                let bytes = encode_key(key, modifiers, false);
                match core::str::from_utf8(bytes.as_slice()) {
                    Ok(text) => Ok(InputCall::SendText(text.to_owned())),
                    Err(_) => Err(FlowFailure::HerdrProtocol),
                }
            },
        },
    }
}

/// What decides whether input may go out.
#[derive(Clone, Copy, Debug, PartialEq, Eq, Structural)]
pub struct InputContext {
    pub cancelled: bool,
    /// The controller has shown a complete frame.
    pub controller_ready: bool,
    /// Terminal input is open in the controller's epoch.
    pub input_ready: bool,
    pub selected: Option<u64>,
    pub controller: Option<u64>,
    pub visible: bool,
    pub foreground: bool,
}

/// The controller's pane is the selected one, on screen and in front.
pub open spec fn faces_user(c: InputContext) -> bool {
    c.controller is Some && c.selected == c.controller && c.visible && c.foreground
}

pub open spec fn open_for_input(c: InputContext) -> bool {
    c.controller_ready && c.input_ready && faces_user(c)
}

/// What to do with an input.
#[derive(Clone, Copy, Debug, PartialEq, Eq, Structural)]
pub enum InputStep {
    /// Drop it: it must not reach another pane or a later epoch.
    Drop,
    /// Scroll the remote view on the controller's stream.
    ScrollStream,
    /// Put the remote view back to the bottom, then ask again.
    ResetView,
    Send,
}

fn is_front(c: InputContext) -> (r: bool)
    ensures
        r == faces_user(c),
{
    let own = match (c.selected, c.controller) {
        (Some(selected), Some(controller)) => selected == controller,
        _ => false,
    };
    own && c.visible && c.foreground
}

impl InputContext {
    /// Decides on an input that has just arrived.  Anything but a scroll first
    /// returns the remote view to the bottom.
    pub fn arrived(self, scroll: bool) -> (r: InputStep)
        ensures
            r == (if !open_for_input(self) {
                InputStep::Drop
            } else if scroll {
                InputStep::ScrollStream
            } else {
                InputStep::ResetView
            }),
    {
        if !self.controller_ready || !self.input_ready || !is_front(self) {
            InputStep::Drop
        } else if scroll {
            InputStep::ScrollStream
        } else {
            InputStep::ResetView
        }
    }

    /// Decides again once the view was reset.
    pub fn view_reset(self) -> (r: InputStep)
        ensures
            r == (if !self.cancelled && faces_user(self) && self.input_ready {
                InputStep::Send
            } else {
                InputStep::Drop
            }),
    {
        if !self.cancelled && is_front(self) && self.input_ready {
            InputStep::Send
        } else {
            InputStep::Drop
        }
    }
}

} // verus!
