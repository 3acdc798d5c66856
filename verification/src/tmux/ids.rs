//! Stable numeric identifiers: `%N` panes, `@N` windows, `$N` sessions.

use vstd::prelude::*;
use vstd::slice::*;
use vstd::string::*;

use crate::text;
use crate::bytes;
use crate::bytes::{parse_decimal, parse_signed_decimal};
use crate::text::push_decimal;
use crate::tmux::error::DecodeError;

verus! {

/// The number behind the sigil byte of an identifier.
pub open spec fn sigil_number(s: Seq<u8>, sigil: u8) -> Option<nat> {
    if s.len() > 0 && s[0] == sigil {
        bytes::decimal_number(s.skip(1), u64::MAX as nat)
    } else {
        None
    }
}

/// The pane that `%N` names.
pub open spec fn pane_id(s: Seq<u8>) -> Result<u64, DecodeError> {
    match sigil_number(s, 0x25) {
        Some(n) => Ok(n as u64),
        None => Err(DecodeError::InvalidPaneId),
    }
}

/// The window that `@N` names.
pub open spec fn window_id(s: Seq<u8>) -> Result<u64, DecodeError> {
    match sigil_number(s, 0x40) {
        Some(n) => Ok(n as u64),
        None => Err(DecodeError::InvalidNotification),
    }
}

/// The session that `$N` names, in its canonical spelling.
pub open spec fn session_id(s: Seq<u8>) -> Result<Seq<char>, DecodeError> {
    match sigil_number(s, 0x24) {
        Some(n) => Ok("$"@ + text::decimal(n)),
        None => Err(DecodeError::InvalidNotification),
    }
}

/// A decimal number from 1 to `max`, possibly written with a leading `+`.
pub open spec fn positive_number(s: Seq<u8>, max: nat) -> Result<nat, DecodeError> {
    match bytes::signed_decimal_number(s, max) {
        Some(n) => if n > 0 {
            Ok(n)
        } else {
            Err(DecodeError::InvalidNotification)
        },
        None => Err(DecodeError::InvalidNotification),
    }
}

fn parse_sigil_number(value: &[u8], sigil: u8) -> (r: Option<u64>)
    ensures
        match r {
            Some(n) => sigil_number(value@, sigil) == Some(n as nat),
            None => sigil_number(value@, sigil) is None,
        },
{
    if value.len() > 0 && value[0] == sigil {
        let digits = slice_subrange(value, 1, value.len());
        assert(digits@ == value@.skip(1));
        parse_decimal(digits, u64::MAX)
    } else {
        None
    }
}

pub fn parse_pane_id(value: &[u8]) -> (r: Result<u64, DecodeError>)
    ensures
        r == pane_id(value@),
{
    match parse_sigil_number(value, 0x25) {
        Some(n) => Ok(n),
        None => Err(DecodeError::InvalidPaneId),
    }
}

pub fn parse_window_id(value: &[u8]) -> (r: Result<u64, DecodeError>)
    ensures
        r == window_id(value@),
{
    match parse_sigil_number(value, 0x40) {
        Some(n) => Ok(n),
        None => Err(DecodeError::InvalidNotification),
    }
}

pub fn parse_session_id(value: &[u8]) -> (r: Result<String, DecodeError>)
    ensures
        match r {
            Ok(id) => session_id(value@) == Ok::<Seq<char>, DecodeError>(id@),
            Err(e) => session_id(value@) == Err::<Seq<char>, DecodeError>(e),
        },
{
    match parse_sigil_number(value, 0x24) {
        Some(n) => {
            let mut id = String::from_str("$");
            push_decimal(&mut id, n);
            Ok(id)
        },
        None => Err(DecodeError::InvalidNotification),
    }
}

pub fn parse_positive(value: &[u8], max: u64) -> (r: Result<u64, DecodeError>)
    ensures
        match r {
            Ok(n) => positive_number(value@, max as nat) == Ok::<nat, DecodeError>(n as nat),
            Err(e) => positive_number(value@, max as nat) == Err::<nat, DecodeError>(e),
        },
{
    match parse_signed_decimal(value, max) {
        Some(n) => if n > 0 {
            Ok(n)
        } else {
            Err(DecodeError::InvalidNotification)
        },
        None => Err(DecodeError::InvalidNotification),
    }
}

} // verus!
