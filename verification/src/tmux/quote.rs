//! Command arguments: quoting, and the targets that name one session, window
//! or pane.

use vstd::prelude::*;
use vstd::string::*;

use crate::text;
use crate::text::{any_control, push_decimal};
use crate::tmux::error::CommandArgumentError;
use crate::tmux::records::MAX_SESSION_NAME_BYTES;

verus! {

/// The managed tmux session used by meeterm.
pub const SESSION_NAME: &'static str = "meeterm";

/// The longest argument that is quoted.
pub const MAX_NAME_BYTES: usize = 4096;

/// The longest name that the create form accepts.
pub const MAX_CREATE_NAME_BYTES: usize = 64;

/// How one character is written inside single quotes.  `##` is tmux's
/// literal `#`, and an apostrophe leaves the quotes for itself.
pub open spec fn quoted_char(c: char) -> Seq<char> {
    if c == '\'' {
        "'\\''"@
    } else if c == '#' {
        "##"@
    } else {
        seq![c]
    }
}

pub open spec fn quoted_chars(s: Seq<char>) -> Seq<char>
    decreases s.len(),
{
    if s.len() == 0 {
        seq![]
    } else {
        quoted_chars(s.drop_last()) + quoted_char(s.last())
    }
}

/// A value as one tmux command argument, or why it cannot be one.
pub open spec fn argument(s: Seq<char>) -> Result<Seq<char>, CommandArgumentError> {
    if s.len() == 0 {
        Err(CommandArgumentError::Empty)
    } else if text::utf8(s).len() > MAX_NAME_BYTES {
        Err(CommandArgumentError::TooLong)
    } else if text::has_control_char(s) {
        Err(CommandArgumentError::ControlCharacter)
    } else {
        Ok(seq!['\''] + quoted_chars(s) + seq!['\''])
    }
}

/// The text of a command, or why there is none.
pub open spec fn said(r: Result<String, CommandArgumentError>) -> Result<
    Seq<char>,
    CommandArgumentError,
> {
    match r {
        Ok(text) => Ok(text@),
        Err(e) => Err(e),
    }
}

/// The exact session.
pub open spec fn session_target_text(session: Seq<char>) -> Result<
    Seq<char>,
    CommandArgumentError,
> {
    if session.len() == 0 {
        Err(CommandArgumentError::Empty)
    } else if text::utf8(session).len() > MAX_SESSION_NAME_BYTES {
        Err(CommandArgumentError::TooLong)
    } else {
        argument("="@ + session)
    }
}

/// One window of the exact session.
pub open spec fn window_target_text(session: Seq<char>, window: u64) -> Result<
    Seq<char>,
    CommandArgumentError,
> {
    argument("="@ + session + ":@"@ + text::decimal(window as nat))
}

/// One pane of one window of the exact session.
pub open spec fn pane_target_text(session: Seq<char>, window: u64, pane: u64) -> Result<
    Seq<char>,
    CommandArgumentError,
> {
    argument("="@ + session + ":@"@ + text::decimal(window as nat) + ".%"@ + text::decimal(pane as nat))
}

/// One pane of the exact session, whichever window holds it.  The empty
/// window is written as `.` in front of the pane.
pub open spec fn pane_only_target_text(session: Seq<char>, pane: u64) -> Result<
    Seq<char>,
    CommandArgumentError,
> {
    argument("="@ + session + ":.%"@ + text::decimal(pane as nat))
}

pub open spec fn is_alphanumeric(b: u8) -> bool {
    0x30 <= b <= 0x39 || 0x41 <= b <= 0x5a || 0x61 <= b <= 0x7a
}

/// Alphanumeric, a dot, an underscore or a hyphen.
pub open spec fn is_name_byte(b: u8) -> bool {
    is_alphanumeric(b) || b == 0x2e || b == 0x5f || b == 0x2d
}

/// Whether the create form accepts a name.
pub open spec fn create_name(name: Seq<char>) -> Result<(), CommandArgumentError> {
    let b = text::utf8(name);
    if b.len() == 0 {
        Err(CommandArgumentError::Empty)
    } else if b.len() > MAX_CREATE_NAME_BYTES {
        Err(CommandArgumentError::TooLong)
    } else if !is_alphanumeric(b[0]) || exists|i: int|
        1 <= i < b.len() && !is_name_byte(#[trigger] b[i]) {
        Err(CommandArgumentError::ControlCharacter)
    } else {
        Ok(())
    }
}

/// Quotes one tmux command argument without allowing parser metacharacters
/// to become command separators or expansions.
pub fn quote_tmux_argument(value: &str) -> (r: Result<String, CommandArgumentError>)
    ensures
        said(r) == argument(value@),
{
    let length: usize = value.as_bytes().len();
    proof {
        crate::tmux::records::lemma_utf8_empty(value@);
    }
    if length == 0 {
        return Err(CommandArgumentError::Empty);
    }
    if length > MAX_NAME_BYTES {
        return Err(CommandArgumentError::TooLong);
    }
    if any_control(value) {
        return Err(CommandArgumentError::ControlCharacter);
    }
    let mut quoted = String::new();
    quoted.push('\'');
    for c in it: value.chars()
        invariant
            it.seq() == value@,
            quoted@ == seq!['\''] + quoted_chars(value@.take(it.index())),
    {
        assert(value@.take(it.index() + 1).drop_last() == value@.take(it.index()));
        assert(value@.take(it.index() + 1).last() == c);
        let ghost before = quoted@;
        if c == '\'' {
            quoted.append("'\\''");
        } else if c == '#' {
            quoted.append("##");
        } else {
            quoted.push(c);
        }
        assert(quoted@ =~= seq!['\''] + (quoted_chars(value@.take(it.index())) + quoted_char(c)));
    }
    assert(value@.take(value@.len() as int) == value@);
    quoted.push('\'');
    assert(quoted@ =~= seq!['\''] + quoted_chars(value@) + seq!['\'']);
    Ok(quoted)
}

/// Validates names accepted by the explicit create form.  Names discovered
/// from tmux are not rejected just because this form would not accept them.
pub fn validate_create_name(name: &str) -> (r: Result<(), CommandArgumentError>)
    ensures
        r == create_name(name@),
{
    let bytes = name.as_bytes();
    if bytes.len() == 0 {
        return Err(CommandArgumentError::Empty);
    }
    if bytes.len() > MAX_CREATE_NAME_BYTES {
        return Err(CommandArgumentError::TooLong);
    }
    if !alphanumeric(bytes[0]) {
        return Err(CommandArgumentError::ControlCharacter);
    }
    let mut i: usize = 1;
    while i < bytes.len()
        invariant
            1 <= i <= bytes@.len(),
            bytes@ == text::utf8(name@),
            0 < bytes@.len() <= MAX_CREATE_NAME_BYTES,
            is_alphanumeric(bytes@[0]),
            forall|j: int| 1 <= j < i ==> is_name_byte(#[trigger] bytes@[j]),
        decreases bytes@.len() - i,
    {
        let b: u8 = bytes[i];
        if !(alphanumeric(b) || b == 0x2e || b == 0x5f || b == 0x2d) {
            assert(!is_name_byte(bytes@[i as int]));
            return Err(CommandArgumentError::ControlCharacter);
        }
        i = i + 1;
    }
    Ok(())
}

fn alphanumeric(b: u8) -> (r: bool)
    ensures
        r == is_alphanumeric(b),
{
    (0x30 <= b && b <= 0x39) || (0x41 <= b && b <= 0x5a) || (0x61 <= b && b <= 0x7a)
}

pub fn session_target(session: &str) -> (r: Result<String, CommandArgumentError>)
    ensures
        said(r) == session_target_text(session@),
{
    let length: usize = session.as_bytes().len();
    proof {
        crate::tmux::records::lemma_utf8_empty(session@);
    }
    if length == 0 {
        return Err(CommandArgumentError::Empty);
    }
    if length > MAX_SESSION_NAME_BYTES {
        return Err(CommandArgumentError::TooLong);
    }
    let mut target = String::from_str("=");
    target.append(session);
    quote_tmux_argument(target.as_str())
}

pub fn session_target_for_hooks(session: &str) -> (r: Result<String, CommandArgumentError>)
    ensures
        said(r) == session_target_text(session@),
{
    session_target(session)
}

pub fn window_target(session: &str, window_id: u64) -> (r: Result<String, CommandArgumentError>)
    ensures
        said(r) == window_target_text(session@, window_id),
{
    let mut target = String::from_str("=");
    target.append(session);
    target.append(":@");
    push_decimal(&mut target, window_id);
    quote_tmux_argument(target.as_str())
}

pub fn pane_target(session: &str, window_id: u64, pane_id: u64) -> (r: Result<
    String,
    CommandArgumentError,
>)
    ensures
        said(r) == pane_target_text(session@, window_id, pane_id),
{
    let mut target = String::from_str("=");
    target.append(session);
    target.append(":@");
    push_decimal(&mut target, window_id);
    target.append(".%");
    push_decimal(&mut target, pane_id);
    quote_tmux_argument(target.as_str())
}

pub fn pane_only_target(session: &str, pane_id: u64) -> (r: Result<String, CommandArgumentError>)
    ensures
        said(r) == pane_only_target_text(session@, pane_id),
{
    let mut target = String::from_str("=");
    target.append(session);
    target.append(":.%");
    push_decimal(&mut target, pane_id);
    quote_tmux_argument(target.as_str())
}

/// How tmux's command parser reads an argument made of single-quoted pieces
/// and backslashed characters.  Anything else outside of quotes would be
/// exposed to the parser: there is no reading then.
pub open spec fn parsed(s: Seq<char>, inside: bool) -> Option<Seq<char>>
    decreases s.len(),
{
    if s.len() == 0 {
        if inside {
            None
        } else {
            Some(seq![])
        }
    } else if s[0] == '\'' {
        parsed(s.skip(1), !inside)
    } else if inside {
        prefixed(s[0], parsed(s.skip(1), true))
    } else if s[0] == '\\' && s.len() >= 2 {
        prefixed(s[1], parsed(s.skip(2), false))
    } else {
        None
    }
}

pub open spec fn prefixed(c: char, rest: Option<Seq<char>>) -> Option<Seq<char>> {
    match rest {
        Some(text) => Some(seq![c] + text),
        None => None,
    }
}

/// How tmux's format parser reads a text without expansions: `##` is `#`,
/// and a single `#` would start an expansion.
pub open spec fn formatted(s: Seq<char>) -> Option<Seq<char>>
    decreases s.len(),
{
    if s.len() == 0 {
        Some(seq![])
    } else if s[0] != '#' {
        prefixed(s[0], formatted(s.skip(1)))
    } else if s.len() >= 2 && s[1] == '#' {
        prefixed('#', formatted(s.skip(2)))
    } else {
        None
    }
}

/// A text with every `#` doubled.
pub open spec fn hashes_doubled(s: Seq<char>) -> Seq<char>
    decreases s.len(),
{
    if s.len() == 0 {
        seq![]
    } else {
        (if s[0] == '#' {
            seq!['#', '#']
        } else {
            seq![s[0]]
        }) + hashes_doubled(s.skip(1))
    }
}

pub proof fn lemma_quoted_first(s: Seq<char>)
    requires
        s.len() > 0,
    ensures
        quoted_chars(s) == quoted_char(s[0]) + quoted_chars(s.skip(1)),
    decreases s.len(),
{
    if s.len() == 1 {
        assert(s.drop_last() == Seq::<char>::empty());
        assert(s.skip(1) == Seq::<char>::empty());
        assert(quoted_chars(s.drop_last()) == Seq::<char>::empty());
        assert(Seq::<char>::empty() + quoted_char(s[0]) == quoted_char(s[0]));
        assert(quoted_char(s[0]) + Seq::<char>::empty() == quoted_char(s[0]));
    } else {
        lemma_quoted_first(s.drop_last());
        assert(s.drop_last().skip(1) == s.skip(1).drop_last());
        assert(s.skip(1).last() == s.last());
        assert(quoted_char(s[0]) + quoted_chars(s.skip(1).drop_last()) + quoted_char(s.last())
            == quoted_char(s[0]) + (quoted_chars(s.skip(1).drop_last()) + quoted_char(s.last())));
    }
}

proof fn lemma_parsed_quoted(s: Seq<char>)
    ensures
        parsed(quoted_chars(s) + seq!['\''], true) == Some(hashes_doubled(s)),
    decreases s.len(),
{
    let q = quoted_chars(s) + seq!['\''];
    if s.len() == 0 {
        assert(q =~= seq!['\'']);
        assert(q.skip(1) =~= Seq::<char>::empty());
        assert(parsed(q.skip(1), false) == Some(Seq::<char>::empty()));
    } else {
        lemma_quoted_first(s);
        lemma_parsed_quoted(s.skip(1));
        let rest = quoted_chars(s.skip(1)) + seq!['\''];
        assert(q =~= quoted_char(s[0]) + rest);
        reveal_strlit("'\\''");
        reveal_strlit("##");
        if s[0] == '\'' {
            assert(q[0] == '\'' && q[1] == '\\' && q[2] == '\'' && q[3] == '\'');
            let q1 = q.skip(1);
            assert(q1[0] == '\\' && q1[1] == '\'');
            let q3 = q1.skip(2);
            assert(q3[0] == '\'');
            assert(q3.skip(1) =~= rest);
            assert(parsed(q3, false) == parsed(rest, true));
            assert(parsed(q1, false) == prefixed('\'', parsed(q3, false)));
        } else if s[0] == '#' {
            assert(q[0] == '#' && q[1] == '#');
            let q1 = q.skip(1);
            assert(q1[0] == '#');
            assert(q1.skip(1) =~= rest);
            assert(parsed(q1, true) == prefixed('#', parsed(rest, true)));
            assert(seq!['#'] + (seq!['#'] + hashes_doubled(s.skip(1))) =~= seq!['#', '#']
                + hashes_doubled(s.skip(1)));
        } else {
            assert(q[0] == s[0]);
            assert(q.skip(1) =~= rest);
        }
    }
}

pub proof fn lemma_formatted(s: Seq<char>)
    ensures
        formatted(hashes_doubled(s)) == Some(s),
    decreases s.len(),
{
    let h = hashes_doubled(s);
    if s.len() == 0 {
        assert(s =~= Seq::<char>::empty());
    } else {
        lemma_formatted(s.skip(1));
        assert(seq![s[0]] + s.skip(1) =~= s);
        if s[0] == '#' {
            assert(h.skip(2) =~= hashes_doubled(s.skip(1)));
        } else {
            assert(h.skip(1) =~= hashes_doubled(s.skip(1)));
        }
    }
}

proof fn lemma_quoted_no_control(s: Seq<char>)
    requires
        !text::has_control_char(s),
    ensures
        !text::has_control_char(quoted_chars(s)),
    decreases s.len(),
{
    if s.len() > 0 {
        reveal_strlit("'\\''");
        reveal_strlit("##");
        assert forall|i: int| 0 <= i < s.drop_last().len() implies !text::is_control_char(
            #[trigger] s.drop_last()[i],
        ) by {
            assert(s.drop_last()[i] == s[i]);
        }
        lemma_quoted_no_control(s.drop_last());
        let front = quoted_chars(s.drop_last());
        let all = quoted_chars(s);
        assert forall|i: int| 0 <= i < all.len() implies !text::is_control_char(#[trigger] all[i]) by {
            if i < front.len() {
                assert(all[i] == front[i]);
            } else {
                assert(all[i] == quoted_char(s.last())[i - front.len()]);
                assert(!text::is_control_char(s[s.len() - 1]));
            }
        }
    }
}

/// A quoted value is one argument and stays one: tmux's command parser reads
/// it without exposing a character, its format parser expands nothing in it,
/// and what they read is the value.  It holds no control character, so it
/// cannot end the command's line.
pub proof fn law_quoted_argument_reads_back(value: Seq<char>)
    requires
        argument(value) is Ok,
    ensures
        parsed(argument(value)->Ok_0, false) is Some,
        formatted(parsed(argument(value)->Ok_0, false)->0) == Some(value),
        !text::has_control_char(argument(value)->Ok_0),
{
    let text = argument(value)->Ok_0;
    assert(text.skip(1) =~= quoted_chars(value) + seq!['\'']);
    assert(text[0] == '\'');
    lemma_parsed_quoted(value);
    lemma_formatted(value);
    lemma_quoted_no_control(value);
    let q = quoted_chars(value);
    assert forall|i: int| 0 <= i < text.len() implies !text::is_control_char(#[trigger] text[i]) by {
        if 0 < i < text.len() - 1 {
            assert(text[i] == q[i - 1]);
        }
    }
}

/// Every name that the create form accepts can be quoted, and quoting only
/// puts it between apostrophes.
pub proof fn law_create_names_need_no_escape(name: Seq<char>)
    requires
        create_name(name) is Ok,
    ensures
        argument(name) == Ok::<Seq<char>, CommandArgumentError>(
            seq!['\''] + name + seq!['\''],
        ),
{
    let b = text::utf8(name);
    assert forall|i: int| 0 <= i < b.len() implies is_name_byte(#[trigger] b[i]) by {
        if i == 0 {
            assert(is_alphanumeric(b[0]));
        }
    }
    lemma_plain_bytes(name);
    lemma_plain_quoted(name);
    crate::tmux::records::lemma_utf8_empty(name);
}

/// The characters of the names that the create form accepts.
spec fn plain_char(c: char) -> bool {
    c < '\u{80}' && is_name_byte(c as u8)
}

proof fn lemma_plain_first_byte(first: char)
    requires
        is_name_byte(vstd::utf8::encode_scalar(first as u32)[0]),
    ensures
        plain_char(first),
{
    let c = first as u32;
    if c >= 0x80 {
        if vstd::utf8::has_width_2_encoding(c) {
            assert(0xC0 | ((c >> 6) & 0x1F) as u8 >= 0xC0) by (bit_vector);
        } else if vstd::utf8::has_width_3_encoding(c) {
            assert(0xE0 | ((c >> 12) & 0x0F) as u8 >= 0xE0) by (bit_vector);
        } else {
            assert(0xF0 | ((c >> 18) & 0x7) as u8 >= 0xF0) by (bit_vector);
        }
    } else {
        assert((c & 0x7F) as u8 == c as u8) by (bit_vector)
            requires
                c < 0x80,
        ;
    }
}

proof fn lemma_plain_char(c: char)
    requires
        plain_char(c),
    ensures
        !text::is_control_char(c),
        quoted_char(c) == seq![c],
{
}

proof fn lemma_plain_bytes(s: Seq<char>)
    requires
        forall|i: int| 0 <= i < text::utf8(s).len() ==> is_name_byte(#[trigger] text::utf8(s)[i]),
    ensures
        forall|i: int| 0 <= i < s.len() ==> plain_char(#[trigger] s[i]),
    decreases s.len(),
{
    if s.len() > 0 {
        let first = vstd::utf8::encode_scalar(s[0] as u32);
        let rest = text::utf8(s.drop_first());
        assert(text::utf8(s) == first + rest);
        assert forall|i: int| 0 <= i < rest.len() implies is_name_byte(#[trigger] rest[i]) by {
            assert(text::utf8(s)[first.len() + i] == rest[i]);
        }
        lemma_plain_bytes(s.drop_first());
        assert(text::utf8(s)[0] == first[0]);
        assert(is_name_byte(first[0]));
        lemma_plain_first_byte(s[0]);
        assert forall|i: int| 0 <= i < s.len() implies plain_char(#[trigger] s[i]) by {
            if i > 0 {
                assert(s.drop_first()[i - 1] == s[i]);
            }
        }
    }
}

proof fn lemma_plain_quoted(s: Seq<char>)
    requires
        forall|i: int| 0 <= i < s.len() ==> plain_char(#[trigger] s[i]),
    ensures
        quoted_chars(s) == s,
        !text::has_control_char(s),
    decreases s.len(),
{
    if s.len() == 0 {
        assert(s =~= Seq::<char>::empty());
    } else {
        assert forall|i: int| 0 <= i < s.drop_last().len() implies plain_char(
            #[trigger] s.drop_last()[i],
        ) by {
            assert(s.drop_last()[i] == s[i]);
        }
        lemma_plain_quoted(s.drop_last());
        lemma_plain_char(s[s.len() - 1]);
        assert(s.drop_last() + seq![s.last()] =~= s);
        assert forall|i: int| 0 <= i < s.len() implies !text::is_control_char(#[trigger] s[i]) by {
            lemma_plain_char(s[i]);
        }
    }
}

} // verus!
