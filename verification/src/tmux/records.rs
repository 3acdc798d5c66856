//! The one-line records that tmux prints about sessions, windows and panes.

use vstd::prelude::*;
use vstd::slice::*;
use vstd::string::*;
use vstd::utf8::*;

use crate::tmux::ids;
use crate::tmux::escape;
use crate::text;
use crate::bytes;
use crate::bytes::{find_byte, parse_signed_decimal, rfind_byte, split_bytes, Delimiter};
use crate::text::{any_control, from_utf8_lossy};
use crate::tmux::error::DecodeError;
use crate::tmux::escape::decode_tmux_quoted_bytes;
use crate::tmux::ids::{parse_pane_id, parse_positive, parse_session_id, parse_window_id};

verus! {

/// The longest session name that is accepted.
pub const MAX_SESSION_NAME_BYTES: usize = 4096;

/// The longest line that can be a session epoch.
pub const MAX_EPOCH_LINE_BYTES: usize = 128;

/// The exact tmux session identity retained by a selected connection.  A
/// `$N` id is only meaningful during the server epoch in which it was
/// listed; the PID alone is not enough because the system may reuse it.  The
/// name is a hint for display and no part of the identity.
#[derive(Debug)]
pub struct SessionIdentity {
    pub session_id: String,
    pub name: String,
    pub server_pid: u64,
    pub server_start_time: u64,
}

/// The server-epoch portion of a session identity, as an attached stream
/// reports it.
#[derive(Debug, PartialEq, Eq)]
pub struct SessionEpoch {
    pub session_id: String,
    pub server_pid: u64,
    pub server_start_time: u64,
}

#[verifier::ext_equal]
pub struct SessionIdentityView {
    pub session_id: Seq<char>,
    pub name: Seq<char>,
    pub server_pid: u64,
    pub server_start_time: u64,
}

#[verifier::ext_equal]
pub struct SessionEpochView {
    pub session_id: Seq<char>,
    pub server_pid: u64,
    pub server_start_time: u64,
}

impl View for SessionIdentity {
    type V = SessionIdentityView;

    open spec fn view(&self) -> SessionIdentityView {
        SessionIdentityView {
            session_id: self.session_id@,
            name: self.name@,
            server_pid: self.server_pid,
            server_start_time: self.server_start_time,
        }
    }
}

impl View for SessionEpoch {
    type V = SessionEpochView;

    open spec fn view(&self) -> SessionEpochView {
        SessionEpochView {
            session_id: self.session_id@,
            server_pid: self.server_pid,
            server_start_time: self.server_start_time,
        }
    }
}

impl SessionIdentityView {
    /// The identity without its display name.
    pub open spec fn epoch(self) -> SessionEpochView {
        SessionEpochView {
            session_id: self.session_id,
            server_pid: self.server_pid,
            server_start_time: self.server_start_time,
        }
    }
}

impl PartialEq for SessionIdentity {
    fn eq(&self, other: &Self) -> (r: bool) {
        self.session_id == other.session_id && self.server_pid == other.server_pid
            && self.server_start_time == other.server_start_time
    }
}

impl Eq for SessionIdentity {

}

impl vstd::std_specs::cmp::PartialEqSpecImpl for SessionIdentity {
    open spec fn obeys_eq_spec() -> bool {
        true
    }

    /// Session names are mutable display hints: two identities are the same
    /// when their server epochs are.
    open spec fn eq_spec(&self, other: &Self) -> bool {
        self.session_id@ == other.session_id@ && self.server_pid == other.server_pid
            && self.server_start_time == other.server_start_time
    }
}

impl Clone for SessionIdentity {
    fn clone(&self) -> (r: Self)
        ensures
            r == *self,
    {
        SessionIdentity {
            session_id: self.session_id.clone(),
            name: self.name.clone(),
            server_pid: self.server_pid,
            server_start_time: self.server_start_time,
        }
    }
}

impl Clone for SessionEpoch {
    fn clone(&self) -> (r: Self)
        ensures
            r == *self,
    {
        SessionEpoch {
            session_id: self.session_id.clone(),
            server_pid: self.server_pid,
            server_start_time: self.server_start_time,
        }
    }
}

impl SessionIdentity {
    pub fn epoch(&self) -> (r: SessionEpoch)
        ensures
            r@ == self@.epoch(),
    {
        SessionEpoch {
            session_id: self.session_id.clone(),
            server_pid: self.server_pid,
            server_start_time: self.server_start_time,
        }
    }

    /// The text that stands for this session: its `$N`.
    pub fn label(&self) -> (r: &str)
        ensures
            r@ == self.session_id@,
    {
        self.session_id.as_str()
    }
}

impl SessionEpoch {
    /// Whether the attached stream reached the session that was selected.
    pub fn matches(&self, expected: &SessionIdentity) -> (r: bool)
        ensures
            r == (self@ == expected@.epoch()),
    {
        self.session_id == expected.session_id && self.server_pid == expected.server_pid
            && self.server_start_time == expected.server_start_time
    }
}

/// One window as one session sees it.
#[derive(Debug, PartialEq, Eq)]
pub struct WindowTopology {
    pub session_id: String,
    pub session_name: String,
    pub window_id: u64,
    pub linked_sessions: u32,
}

#[verifier::ext_equal]
pub struct WindowTopologyView {
    pub session_id: Seq<char>,
    pub session_name: Seq<char>,
    pub window_id: u64,
    pub linked_sessions: u32,
}

impl View for WindowTopology {
    type V = WindowTopologyView;

    open spec fn view(&self) -> WindowTopologyView {
        WindowTopologyView {
            session_id: self.session_id@,
            session_name: self.session_name@,
            window_id: self.window_id,
            linked_sessions: self.linked_sessions,
        }
    }
}

/// One window of the selected session.
#[derive(Debug, PartialEq, Eq)]
pub struct WindowInfo {
    pub window_id: u64,
    pub name: String,
}

#[verifier::ext_equal]
pub struct WindowInfoView {
    pub window_id: u64,
    pub name: Seq<char>,
}

impl View for WindowInfo {
    type V = WindowInfoView;

    open spec fn view(&self) -> WindowInfoView {
        WindowInfoView { window_id: self.window_id, name: self.name@ }
    }
}

impl Clone for WindowInfo {
    fn clone(&self) -> (r: Self)
        ensures
            r == *self,
    {
        WindowInfo { window_id: self.window_id, name: self.name.clone() }
    }
}

/// One pane of the selected session.
#[derive(Debug, PartialEq, Eq)]
pub struct PaneInfo {
    pub window_id: u64,
    pub pane_id: u64,
    pub index: u32,
    pub active: bool,
    pub columns: u16,
    pub rows: u16,
    pub pane_name: String,
    pub title: String,
    pub zoomed: bool,
    pub window_active: bool,
}

#[verifier::ext_equal]
pub struct PaneInfoView {
    pub window_id: u64,
    pub pane_id: u64,
    pub index: u32,
    pub active: bool,
    pub columns: u16,
    pub rows: u16,
    pub pane_name: Seq<char>,
    pub title: Seq<char>,
    pub zoomed: bool,
    pub window_active: bool,
}

impl View for PaneInfo {
    type V = PaneInfoView;

    open spec fn view(&self) -> PaneInfoView {
        PaneInfoView {
            window_id: self.window_id,
            pane_id: self.pane_id,
            index: self.index,
            active: self.active,
            columns: self.columns,
            rows: self.rows,
            pane_name: self.pane_name@,
            title: self.title@,
            zoomed: self.zoomed,
            window_active: self.window_active,
        }
    }
}

impl Clone for PaneInfo {
    fn clone(&self) -> (r: Self)
        ensures
            r == *self,
    {
        PaneInfo {
            window_id: self.window_id,
            pane_id: self.pane_id,
            index: self.index,
            active: self.active,
            columns: self.columns,
            rows: self.rows,
            pane_name: self.pane_name.clone(),
            title: self.title.clone(),
            zoomed: self.zoomed,
            window_active: self.window_active,
        }
    }
}

/// The contents of a parsed record.
pub open spec fn told<T: View>(r: Result<T, DecodeError>) -> Result<T::V, DecodeError> {
    match r {
        Ok(value) => Ok(value@),
        Err(e) => Err(e),
    }
}

/// The four fields of an identity line.  Tabs separate them where there is
/// one; otherwise the first `|` and the last two do, so that the name, the
/// only free-form field, may hold more of them.
pub open spec fn identity_fields(line: Seq<u8>) -> Result<Seq<Seq<u8>>, DecodeError> {
    let bar = Delimiter::Byte(0x7c);
    if line.contains(0x09) {
        let fields = bytes::split(line, Delimiter::Byte(0x09));
        if fields.len() == 4 {
            Ok(fields)
        } else {
            Err(DecodeError::InvalidNotification)
        }
    } else {
        match (bytes::find(line, bar), bytes::rfind(line, bar)) {
            (Some(first), Some(last)) => match bytes::rfind(line.take(last), bar) {
                Some(middle) => if first < middle && middle < last {
                    Ok(
                        seq![
                            line.take(first),
                            line.subrange(first + 1, middle),
                            line.subrange(middle + 1, last),
                            line.skip(last + 1),
                        ],
                    )
                } else {
                    Err(DecodeError::InvalidNotification)
                },
                None => Err(DecodeError::InvalidNotification),
            },
            _ => Err(DecodeError::InvalidNotification),
        }
    }
}

/// How many backslashes `s` ends with.
pub open spec fn trailing_slashes(s: Seq<u8>) -> nat
    decreases s.len(),
{
    if s.len() > 0 && s.last() == 0x5c {
        1 + trailing_slashes(s.drop_last())
    } else {
        0
    }
}

/// A `q:` name that must not end in the middle of an escape and must be
/// UTF-8.
pub open spec fn strict_name(s: Seq<u8>) -> Result<Seq<char>, DecodeError> {
    if trailing_slashes(s) % 2 != 0 || !valid_utf8(escape::quoted_decoded(s)) {
        Err(DecodeError::InvalidNotification)
    } else {
        Ok(decode_utf8(escape::quoted_decoded(s)))
    }
}

/// A session name: not empty, bounded, without control characters.
pub open spec fn session_name(s: Seq<u8>) -> Result<Seq<char>, DecodeError> {
    match strict_name(s) {
        Err(e) => Err(e),
        Ok(name) => if name.len() == 0 || text::utf8(name).len() > MAX_SESSION_NAME_BYTES
            || text::has_control_char(name) {
            Err(DecodeError::InvalidNotification)
        } else {
            Ok(name)
        },
    }
}

/// `$N|quoted name|server pid|server start time`.
pub open spec fn session_line(line: Seq<u8>) -> Result<SessionIdentityView, DecodeError> {
    match identity_fields(line) {
        Err(e) => Err(e),
        Ok(f) => match (
            ids::session_id(f[0]),
            session_name(f[1]),
            ids::positive_number(f[2], u64::MAX as nat),
            ids::positive_number(f[3], u64::MAX as nat),
        ) {
            (Ok(id), Ok(name), Ok(pid), Ok(start)) => Ok(
                SessionIdentityView {
                    session_id: id,
                    name,
                    server_pid: pid as u64,
                    server_start_time: start as u64,
                },
            ),
            _ => Err(DecodeError::InvalidNotification),
        },
    }
}

/// `$N|server pid|server start time`.
pub open spec fn session_epoch_line(line: Seq<u8>) -> Result<SessionEpochView, DecodeError> {
    let f = bytes::split(line, Delimiter::Byte(0x7c));
    if line.len() == 0 || line.len() > MAX_EPOCH_LINE_BYTES || f.len() != 3 {
        Err(DecodeError::InvalidNotification)
    } else {
        match (
            ids::session_id(f[0]),
            ids::positive_number(f[1], u64::MAX as nat),
            ids::positive_number(f[2], u64::MAX as nat),
        ) {
            (Ok(id), Ok(pid), Ok(start)) => Ok(
                SessionEpochView {
                    session_id: id,
                    server_pid: pid as u64,
                    server_start_time: start as u64,
                },
            ),
            _ => Err(DecodeError::InvalidNotification),
        }
    }
}

/// `$N`, quoted name, `@N` and the number of sessions linked to the window.
pub open spec fn topology_line(line: Seq<u8>) -> Result<WindowTopologyView, DecodeError> {
    match identity_fields(line) {
        Err(e) => Err(e),
        Ok(f) => match (
            ids::session_id(f[0]),
            session_name(f[1]),
            ids::window_id(f[2]),
            ids::positive_number(f[3], u32::MAX as nat),
        ) {
            (Ok(id), Ok(name), Ok(window), Ok(linked)) => Ok(
                WindowTopologyView {
                    session_id: id,
                    session_name: name,
                    window_id: window,
                    linked_sessions: linked as u32,
                },
            ),
            _ => Err(DecodeError::InvalidNotification),
        },
    }
}

/// `@N`, a tab and the quoted name.
pub open spec fn window_line(line: Seq<u8>) -> Result<WindowInfoView, DecodeError> {
    match bytes::find(line, Delimiter::Byte(0x09)) {
        None => Err(DecodeError::InvalidNotification),
        Some(i) => match ids::window_id(line.take(i)) {
            Err(e) => Err(e),
            Ok(window) => Ok(
                WindowInfoView {
                    window_id: window,
                    name: text::lossy_text(escape::quoted_decoded(line.skip(i + 1))),
                },
            ),
        },
    }
}

/// `0` or `1`.
pub open spec fn flag(s: Seq<u8>) -> Option<bool> {
    if s == seq![0x30u8] {
        Some(false)
    } else if s == seq![0x31u8] {
        Some(true)
    } else {
        None
    }
}

/// Eight tab-separated fields, and optionally a ninth that tells whether the
/// window is the active one.  The first field that cannot be read decides
/// the error.
pub open spec fn pane_line(line: Seq<u8>) -> Result<PaneInfoView, DecodeError> {
    let f = bytes::split(line, Delimiter::Byte(0x09));
    if f.len() < 8 {
        Err(DecodeError::InvalidNotification)
    } else if ids::window_id(f[0]) is Err {
        Err(DecodeError::InvalidNotification)
    } else if ids::pane_id(f[1]) is Err {
        Err(DecodeError::InvalidPaneId)
    } else {
        match (
            bytes::signed_decimal_number(f[2], u32::MAX as nat),
            flag(f[3]),
            bytes::signed_decimal_number(f[4], u16::MAX as nat),
            bytes::signed_decimal_number(f[5], u16::MAX as nat),
            flag(f[7]),
            if f.len() > 8 {
                flag(f[8])
            } else {
                Some(true)
            },
        ) {
            (
                Some(index),
                Some(active),
                Some(columns),
                Some(rows),
                Some(zoomed),
                Some(window_active),
            ) => Ok(
                PaneInfoView {
                    window_id: ids::window_id(f[0])->Ok_0,
                    pane_id: ids::pane_id(f[1])->Ok_0,
                    index: index as u32,
                    active,
                    columns: columns as u16,
                    rows: rows as u16,
                    pane_name: text::lossy_text(escape::quoted_decoded(f[6])),
                    title: text::lossy_text(escape::quoted_decoded(f[6])),
                    zoomed,
                    window_active,
                },
            ),
            _ => Err(DecodeError::InvalidNotification),
        }
    }
}

fn split_identity_fields(line: &[u8]) -> (r: Result<Vec<Vec<u8>>, DecodeError>)
    ensures
        match r {
            Ok(fields) => identity_fields(line@) == Ok::<Seq<Seq<u8>>, DecodeError>(
                bytes::views(fields@),
            ) && fields@.len() == 4,
            Err(e) => identity_fields(line@) == Err::<Seq<Seq<u8>>, DecodeError>(e),
        },
{
    let tab = find_byte(line, Delimiter::Byte(0x09));
    proof {
        crate::bytes::lemma_find(line@, Delimiter::Byte(0x09));
    }
    if tab.is_some() {
        assert(line@.contains(0x09));
        let fields = split_bytes(line, Delimiter::Byte(0x09));
        if fields.len() == 4 {
            return Ok(fields);
        }
        return Err(DecodeError::InvalidNotification);
    }
    assert(!line@.contains(0x09));
    let bar = Delimiter::Byte(0x7c);
    let (first, last) = match (find_byte(line, bar), rfind_byte(line, bar)) {
        (Some(first), Some(last)) => (first, last),
        _ => {
            return Err(DecodeError::InvalidNotification);
        },
    };
    let front = slice_subrange(line, 0, last);
    assert(front@ == line@.take(last as int));
    let middle = match rfind_byte(front, bar) {
        Some(middle) => middle,
        None => {
            return Err(DecodeError::InvalidNotification);
        },
    };
    if first >= middle || middle >= last {
        return Err(DecodeError::InvalidNotification);
    }
    let mut fields: Vec<Vec<u8>> = Vec::new();
    fields.push(crate::bytes::copy_range(line, 0, first));
    fields.push(crate::bytes::copy_range(line, first + 1, middle));
    fields.push(crate::bytes::copy_range(line, middle + 1, last));
    fields.push(crate::bytes::copy_range(line, last + 1, line.len()));
    assert(bytes::views(fields@) =~= seq![
        line@.take(first as int),
        line@.subrange(first + 1, middle as int),
        line@.subrange(middle + 1, last as int),
        line@.skip(last + 1),
    ]);
    Ok(fields)
}

/// Decodes a `q:` name for display.
pub fn decode_tmux_quoted(value: &[u8]) -> (r: String)
    ensures
        r@ == text::lossy_text(escape::quoted_decoded(value@)),
        valid_utf8(escape::quoted_decoded(value@)) ==> r@ == decode_utf8(escape::quoted_decoded(value@)),
{
    let decoded = decode_tmux_quoted_bytes(value);
    from_utf8_lossy(decoded.as_slice())
}

fn decode_tmux_quoted_strict(value: &[u8]) -> (r: Result<String, DecodeError>)
    ensures
        told(r) == strict_name(value@),
{
    let mut end: usize = value.len();
    let mut odd: bool = false;
    let ghost total = trailing_slashes(value@);
    assert(value@.take(end as int) == value@);
    while end > 0 && value[end - 1] == 0x5c
        invariant
            end <= value@.len(),
            odd == ((total - trailing_slashes(value@.take(end as int))) % 2 != 0),
        decreases end,
    {
        assert(value@.take(end as int).drop_last() == value@.take(end - 1));
        end = end - 1;
        odd = !odd;
    }
    assert(trailing_slashes(value@.take(end as int)) == 0);
    if odd {
        return Err(DecodeError::InvalidNotification);
    }
    let decoded = decode_tmux_quoted_bytes(value);
    match core::str::from_utf8(decoded.as_slice()) {
        Ok(text) => Ok(text.to_owned()),
        Err(_) => Err(DecodeError::InvalidNotification),
    }
}

fn parse_session_name(value: &[u8]) -> (r: Result<String, DecodeError>)
    ensures
        told(r) == session_name(value@),
{
    match decode_tmux_quoted_strict(value) {
        Err(e) => Err(e),
        Ok(name) => {
            let length: usize = name.as_str().as_bytes().len();
            proof {
                lemma_utf8_empty(name@);
            }
            if length == 0 || length > MAX_SESSION_NAME_BYTES || any_control(name.as_str()) {
                Err(DecodeError::InvalidNotification)
            } else {
                Ok(name)
            }
        },
    }
}

pub proof fn lemma_utf8_empty(s: Seq<char>)
    ensures
        text::utf8(s).len() == 0 <==> s.len() == 0,
{
    if s.len() > 0 {
        assert(encode_scalar(s[0] as u32).len() > 0);
    }
}

/// Parses the fixed session discovery format.
pub fn parse_session_line(line: &[u8]) -> (r: Result<SessionIdentity, DecodeError>)
    ensures
        told(r) == session_line(line@),
{
    let fields = match split_identity_fields(line) {
        Ok(fields) => fields,
        Err(e) => {
            return Err(e);
        },
    };
    assert(bytes::views(fields@)[0] == fields@[0]@ && bytes::views(fields@)[1] == fields@[1]@ && bytes::views(fields@)[2]
        == fields@[2]@ && bytes::views(fields@)[3] == fields@[3]@);
    let session_id = match parse_session_id(fields[0].as_slice()) {
        Ok(id) => id,
        Err(e) => {
            return Err(e);
        },
    };
    let name = match parse_session_name(fields[1].as_slice()) {
        Ok(name) => name,
        Err(e) => {
            return Err(e);
        },
    };
    let server_pid: u64 = match parse_positive(fields[2].as_slice(), u64::MAX) {
        Ok(n) => n,
        Err(e) => {
            return Err(e);
        },
    };
    let server_start_time: u64 = match parse_positive(fields[3].as_slice(), u64::MAX) {
        Ok(n) => n,
        Err(e) => {
            return Err(e);
        },
    };
    Ok(SessionIdentity { session_id, name, server_pid, server_start_time })
}

/// Parses the bounded identity format of the epoch query.
pub fn parse_session_epoch_line(line: &[u8]) -> (r: Result<SessionEpoch, DecodeError>)
    ensures
        told(r) == session_epoch_line(line@),
{
    if line.len() == 0 || line.len() > MAX_EPOCH_LINE_BYTES {
        return Err(DecodeError::InvalidNotification);
    }
    let fields = split_bytes(line, Delimiter::Byte(0x7c));
    if fields.len() != 3 {
        return Err(DecodeError::InvalidNotification);
    }
    assert(bytes::views(fields@)[0] == fields@[0]@ && bytes::views(fields@)[1] == fields@[1]@ && bytes::views(fields@)[2]
        == fields@[2]@);
    let session_id = match parse_session_id(fields[0].as_slice()) {
        Ok(id) => id,
        Err(e) => {
            return Err(e);
        },
    };
    let server_pid: u64 = match parse_positive(fields[1].as_slice(), u64::MAX) {
        Ok(n) => n,
        Err(e) => {
            return Err(e);
        },
    };
    let server_start_time: u64 = match parse_positive(fields[2].as_slice(), u64::MAX) {
        Ok(n) => n,
        Err(e) => {
            return Err(e);
        },
    };
    Ok(SessionEpoch { session_id, server_pid, server_start_time })
}

/// Parses one line of the topology listing.
pub fn parse_topology_line(line: &[u8]) -> (r: Result<WindowTopology, DecodeError>)
    ensures
        told(r) == topology_line(line@),
{
    let fields = match split_identity_fields(line) {
        Ok(fields) => fields,
        Err(e) => {
            return Err(e);
        },
    };
    assert(bytes::views(fields@)[0] == fields@[0]@ && bytes::views(fields@)[1] == fields@[1]@ && bytes::views(fields@)[2]
        == fields@[2]@ && bytes::views(fields@)[3] == fields@[3]@);
    let session_id = match parse_session_id(fields[0].as_slice()) {
        Ok(id) => id,
        Err(e) => {
            return Err(e);
        },
    };
    let session_name = match parse_session_name(fields[1].as_slice()) {
        Ok(name) => name,
        Err(e) => {
            return Err(e);
        },
    };
    let window_id: u64 = match parse_window_id(fields[2].as_slice()) {
        Ok(id) => id,
        Err(e) => {
            return Err(e);
        },
    };
    let linked: u64 = match parse_positive(fields[3].as_slice(), u32::MAX as u64) {
        Ok(n) => n,
        Err(e) => {
            return Err(e);
        },
    };
    Ok(WindowTopology { session_id, session_name, window_id, linked_sessions: linked as u32 })
}

/// Parses one line of the window listing.
pub fn parse_window_line(line: &[u8]) -> (r: Result<WindowInfo, DecodeError>)
    ensures
        told(r) == window_line(line@),
{
    match find_byte(line, Delimiter::Byte(0x09)) {
        None => Err(DecodeError::InvalidNotification),
        Some(separator) => {
            let id = slice_subrange(line, 0, separator);
            let name = slice_subrange(line, separator + 1, line.len());
            assert(id@ == line@.take(separator as int));
            assert(name@ == line@.skip(separator + 1));
            match parse_window_id(id) {
                Err(e) => Err(e),
                Ok(window_id) => Ok(WindowInfo { window_id, name: decode_tmux_quoted(name) }),
            }
        },
    }
}

fn parse_flag(field: &[u8]) -> (r: Option<bool>)
    ensures
        r == flag(field@),
{
    if field.len() != 1 {
        return None;
    }
    assert(field@ =~= seq![field@[0]]);
    if field[0] == 0x30 {
        Some(false)
    } else if field[0] == 0x31 {
        assert(field@[0] != seq![0x30u8][0]);
        Some(true)
    } else {
        assert(field@[0] != seq![0x30u8][0]);
        assert(field@[0] != seq![0x31u8][0]);
        None
    }
}

/// Parses one line of the pane listing.
pub fn parse_pane_line(line: &[u8]) -> (r: Result<PaneInfo, DecodeError>)
    ensures
        told(r) == pane_line(line@),
{
    let fields = split_bytes(line, Delimiter::Byte(0x09));
    if fields.len() < 8 {
        return Err(DecodeError::InvalidNotification);
    }
    assert forall|i: int| 0 <= i < fields@.len() implies #[trigger] bytes::views(fields@)[i]
        == fields@[i]@ by {}
    let window_id: u64 = match parse_window_id(fields[0].as_slice()) {
        Ok(id) => id,
        Err(e) => {
            return Err(e);
        },
    };
    let pane_id: u64 = match parse_pane_id(fields[1].as_slice()) {
        Ok(id) => id,
        Err(e) => {
            return Err(e);
        },
    };
    let window_active = if fields.len() > 8 {
        parse_flag(fields[8].as_slice())
    } else {
        Some(true)
    };
    match (
        parse_signed_decimal(fields[2].as_slice(), u32::MAX as u64),
        parse_flag(fields[3].as_slice()),
        parse_signed_decimal(fields[4].as_slice(), u16::MAX as u64),
        parse_signed_decimal(fields[5].as_slice(), u16::MAX as u64),
        parse_flag(fields[7].as_slice()),
        window_active,
    ) {
        (
            Some(index),
            Some(active),
            Some(columns),
            Some(rows),
            Some(zoomed),
            Some(window_active),
        ) => {
            let name = fields[6].as_slice();
            Ok(
                PaneInfo {
                    window_id,
                    pane_id,
                    index: index as u32,
                    active,
                    columns: columns as u16,
                    rows: rows as u16,
                    pane_name: decode_tmux_quoted(name),
                    title: decode_tmux_quoted(name),
                    zoomed,
                    window_active,
                },
            )
        },
        _ => Err(DecodeError::InvalidNotification),
    }
}

/// A rename does not change a session's identity, and a new server epoch
/// does, even where the name, the id or the PID stay the same.
pub proof fn law_identity_is_the_epoch(a: SessionIdentity, b: SessionIdentity)
    ensures
        vstd::std_specs::cmp::PartialEqSpec::eq_spec(&a, &b) <==> a@.epoch() == b@.epoch(),
{
}

} // verus!
