//! What tmux, Herdr and the login shell say on standard error.

use vstd::prelude::*;
use vstd::string::*;

use crate::text;
use crate::bytes;
use crate::bytes::{contains_bytes, starts_with};
use crate::text::{from_utf8_lossy, is_space, same_text};

verus! {

/// The exit status by which a shell says that it found no such command.
pub const COMMAND_NOT_FOUND_STATUS: u32 = 127;

/// `c` in lower case, where it is an ASCII letter.
pub open spec fn lower_char(c: char) -> char {
    if 'A' <= c <= 'Z' {
        (c as u32 + 32) as char
    } else {
        c
    }
}

pub open spec fn lower(s: Seq<char>) -> Seq<char> {
    Seq::new(s.len(), |i: int| lower_char(s[i]))
}

/// `s` without white space at its start.
pub open spec fn trim_start(s: Seq<char>) -> Seq<char>
    decreases s.len(),
{
    if s.len() > 0 && text::is_white_space(s[0]) {
        trim_start(s.skip(1))
    } else {
        s
    }
}

/// `s` without white space at its end.
pub open spec fn trim_end(s: Seq<char>) -> Seq<char>
    decreases s.len(),
{
    if s.len() > 0 && text::is_white_space(s.last()) {
        trim_end(s.drop_last())
    } else {
        s
    }
}

pub open spec fn trimmed(s: Seq<char>) -> Seq<char> {
    trim_end(trim_start(s))
}

/// `needle` occurs in `text`.
pub open spec fn says(text: Seq<char>, needle: Seq<char>) -> bool {
    bytes::occurs_in(text::utf8(needle), text::utf8(text))
}

/// The text says that there is no tmux server, or that it has no sessions.
pub open spec fn says_no_server(text: Seq<char>) -> bool {
    let t = trimmed(lower(text));
    ||| t == "no server running"@
    ||| text::utf8("no server running on "@).is_prefix_of(text::utf8(t)) && text::utf8(t).len() > text::utf8(
        "no server running on "@,
    ).len()
    ||| t == "no sessions"@
}

pub open spec fn says_collision(text: Seq<char>) -> bool {
    says(lower(text), "duplicate session"@) || says(lower(text), "session already exists"@) || says(
        lower(text),
        "already exists"@,
    )
}

pub open spec fn says_missing(text: Seq<char>) -> bool {
    says(lower(text), "command not found"@)
}

/// tmux was refused access to its server.
pub open spec fn says_tmux_permission(text: Seq<char>) -> bool {
    says(lower(text), "permission denied"@) || says(lower(text), "access denied"@) || says(
        lower(text),
        "cannot connect"@,
    )
}

/// Herdr was refused access to its server.
pub open spec fn says_herdr_permission(text: Seq<char>) -> bool {
    says(lower(text), "permission denied"@) || says(lower(text), "access denied"@) || says(
        lower(text),
        "operation not permitted"@,
    )
}

fn lowered(text: &str) -> (r: Vec<char>)
    ensures
        r@ == lower(text@),
{
    let mut out: Vec<char> = Vec::new();
    for c in it: text.chars()
        invariant
            it.seq() == text@,
            out@ == lower(text@.take(it.index())),
    {
        let small: char = if 'A' <= c && c <= 'Z' {
            (c as u8 + 32) as char
        } else {
            c
        };
        assert(small == lower_char(c));
        out.push(small);
        assert(out@ =~= lower(text@.take(it.index() + 1)));
    }
    assert(text@.take(text@.len() as int) == text@);
    out
}

fn text_of(chars: &Vec<char>, from: usize, to: usize) -> (r: String)
    requires
        from <= to <= chars@.len(),
    ensures
        r@ == chars@.subrange(from as int, to as int),
{
    let mut out = String::new();
    let mut i: usize = from;
    while i < to
        invariant
            from <= i <= to <= chars@.len(),
            out@ == chars@.subrange(from as int, i as int),
        decreases to - i,
    {
        out.push(chars[i]);
        i = i + 1;
        assert(out@ =~= chars@.subrange(from as int, i as int));
    }
    out
}

/// Drops white space at both ends.
fn trim(chars: &Vec<char>) -> (r: String)
    ensures
        r@ == trimmed(chars@),
{
    let mut from: usize = 0;
    assert(chars@.skip(0) == chars@);
    while from < chars.len() && is_space(chars[from])
        invariant
            from <= chars@.len(),
            trim_start(chars@.skip(from as int)) == trim_start(chars@),
        decreases chars@.len() - from,
    {
        assert(chars@.skip(from as int).skip(1) == chars@.skip(from + 1));
        from = from + 1;
    }
    let mut to: usize = chars.len();
    let ghost start = chars@.skip(from as int);
    assert(chars@.subrange(from as int, to as int) == start);
    while to > from && is_space(chars[to - 1])
        invariant
            from <= to <= chars@.len(),
            start == trim_start(chars@),
            trim_end(chars@.subrange(from as int, to as int)) == trim_end(start),
        decreases to,
    {
        assert(chars@.subrange(from as int, to as int).drop_last() == chars@.subrange(
            from as int,
            to - 1,
        ));
        to = to - 1;
    }
    text_of(chars, from, to)
}

fn mentions(text: &str, needle: &str) -> (r: bool)
    ensures
        r == says(text@, needle@),
{
    contains_bytes(text.as_bytes(), needle.as_bytes())
}

fn lower_text(text: &str) -> (r: String)
    ensures
        r@ == lower(text@),
{
    let chars = lowered(text);
    assert(chars@.subrange(0, chars@.len() as int) == chars@);
    text_of(&chars, 0, chars.len())
}

/// Whether a diagnostic says that no server runs or that it has no sessions.
pub fn tells_no_server(text: &str) -> (r: bool)
    ensures
        r == says_no_server(text@),
{
    let message = trim(&lowered(text));
    let prefix = "no server running on ";
    same_text(message.as_str(), "no server running") || (starts_with(
        message.as_str().as_bytes(),
        prefix.as_bytes(),
    ) && message.as_str().as_bytes().len() > prefix.as_bytes().len()) || same_text(
        message.as_str(),
        "no sessions",
    )
}

/// Whether a diagnostic says that the session name is taken.
pub fn tells_collision(text: &str) -> (r: bool)
    ensures
        r == says_collision(text@),
{
    let message = lower_text(text);
    mentions(message.as_str(), "duplicate session") || mentions(
        message.as_str(),
        "session already exists",
    ) || mentions(message.as_str(), "already exists")
}

/// Whether a diagnostic says that the command was not found.
pub fn tells_missing(text: &str) -> (r: bool)
    ensures
        r == says_missing(text@),
{
    let message = lower_text(text);
    mentions(message.as_str(), "command not found")
}

/// Whether a diagnostic says that tmux was refused access.
pub fn tells_tmux_permission(text: &str) -> (r: bool)
    ensures
        r == says_tmux_permission(text@),
{
    let message = lower_text(text);
    mentions(message.as_str(), "permission denied") || mentions(message.as_str(), "access denied")
        || mentions(message.as_str(), "cannot connect")
}

/// Whether a diagnostic says that Herdr was refused access.
pub fn tells_herdr_permission(text: &str) -> (r: bool)
    ensures
        r == says_herdr_permission(text@),
{
    let message = lower_text(text);
    mentions(message.as_str(), "permission denied") || mentions(message.as_str(), "access denied")
        || mentions(message.as_str(), "operation not permitted")
}

/// tmux exits with status 1 when the server has not been started or has no
/// sessions.  Only this narrow diagnostic is a verified empty section.
pub fn is_verified_no_server(stderr: &[u8]) -> (r: bool)
    ensures
        r == says_no_server(text::lossy_text(stderr@)),
{
    tells_no_server(from_utf8_lossy(stderr).as_str())
}

pub fn is_session_collision(stderr: &[u8]) -> (r: bool)
    ensures
        r == says_collision(text::lossy_text(stderr@)),
{
    tells_collision(from_utf8_lossy(stderr).as_str())
}

/// The shell's conventional command-not-found status, or its usual
/// diagnostic.
pub fn is_command_missing(status: Option<u32>, stderr: &[u8]) -> (r: bool)
    ensures
        r == (status == Some(COMMAND_NOT_FOUND_STATUS) || says_missing(text::lossy_text(stderr@))),
{
    match status {
        Some(code) => {
            if code == COMMAND_NOT_FOUND_STATUS {
                return true;
            }
        },
        None => {},
    }
    tells_missing(from_utf8_lossy(stderr).as_str())
}

pub fn is_tmux_permission_error(stderr: &[u8]) -> (r: bool)
    ensures
        r == says_tmux_permission(text::lossy_text(stderr@)),
{
    tells_tmux_permission(from_utf8_lossy(stderr).as_str())
}

pub fn is_herdr_permission_error(stderr: &[u8]) -> (r: bool)
    ensures
        r == says_herdr_permission(text::lossy_text(stderr@)),
{
    tells_herdr_permission(from_utf8_lossy(stderr).as_str())
}

} // verus!
