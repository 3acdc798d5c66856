//! The control-mode hooks used while the mobile client owns a zoomed window.
//!
//! tmux stores hooks as array options.  A high, bounded index gives meeterm a
//! small namespace without replacing a user's unindexed hook or an unrelated
//! hook at the same index.

use vstd::prelude::*;
use vstd::slice::*;
use vstd::string::*;

use crate::tmux::quote;
use crate::tmux::decoder;
use crate::text;
use crate::bytes;
use crate::bytes::{
    bytes_equal, find_byte, keep_nonempty, parse_decimal, split_bytes, Delimiter,
};
use crate::text::push_decimal;
use crate::tmux::error::CommandArgumentError;
use crate::tmux::quote::{session_target, window_target};

verus! {

pub const ZOOM_RECOVERY_HOOK_INDEX_START: u32 = 1_000;

pub const ZOOM_RECOVERY_HOOK_INDEX_LIMIT: u32 = 1_100;

/// The index that the two recovery hooks of one connection share.
#[derive(Clone, Copy, Debug, PartialEq, Eq, Structural)]
pub struct ZoomRecoveryHookAllocation {
    pub index: u32,
}

/// What stands at the two hook entries of one cleanup record.
#[derive(Clone, Copy, Debug, PartialEq, Eq, Structural)]
pub enum ZoomRecoveryHookState {
    Absent,
    Owned,
    Replaced,
}

/// A hook's name and its numeric index, if it has one.
#[verifier::ext_equal]
pub struct HookEntryView {
    pub name: Seq<u8>,
    pub index: Option<u32>,
}

/// A hook line's first word: `name`, `name[index]` or `name[key]`.  Blank
/// lines hold no entry, and an unbalanced bracket is malformed.
pub open spec fn hook_entry(line: Seq<u8>) -> Result<Option<HookEntryView>, ()> {
    let words = bytes::nonempty(bytes::split(line, Delimiter::Whitespace));
    if words.len() == 0 {
        Ok(None)
    } else {
        let token = words[0];
        match bytes::find(token, Delimiter::Byte(0x5b)) {
            None => if token.contains(0x5d) {
                Err(())
            } else {
                Ok(Some(HookEntryView { name: token, index: None }))
            },
            Some(open) => {
                let key = token.subrange(open + 1, token.len() - 1);
                if token.last() != 0x5d || open == 0 || open + 1 >= token.len() - 1
                    || key.contains(0x5b) || key.contains(0x5d) {
                    Err(())
                } else if !bytes::all_digits(key) {
                    Ok(Some(HookEntryView { name: token.take(open), index: None }))
                } else {
                    match bytes::decimal_number(key, u32::MAX as nat) {
                        Some(n) => Ok(
                            Some(
                                HookEntryView { name: token.take(open), index: Some(n as u32) },
                            ),
                        ),
                        None => Err(()),
                    }
                }
            },
        }
    }
}

/// The lines of a `show-hooks` listing.
pub open spec fn hook_lines(hooks: Seq<u8>) -> Seq<Seq<u8>> {
    let raw = bytes::split(hooks, Delimiter::Byte(0x0a));
    Seq::new(raw.len(), |i: int| decoder::without_cr(raw[i]))
}

/// Some line of the listing is malformed.
pub open spec fn malformed(lines: Seq<Seq<u8>>) -> bool {
    exists|i: int| 0 <= i < lines.len() && hook_entry(#[trigger] lines[i]) is Err
}

/// The line is an entry with the given index.
pub open spec fn at_index(line: Seq<u8>, index: u32) -> bool {
    match hook_entry(line) {
        Ok(Some(entry)) => entry.index == Some(index),
        _ => false,
    }
}

/// Some entry of the listing has the given index, whatever its name.
pub open spec fn index_used(lines: Seq<Seq<u8>>, index: u32) -> bool {
    exists|i: int| 0 <= i < lines.len() && at_index(#[trigger] lines[i], index)
}

/// The line is the entry of the given name and index.
pub open spec fn is_entry(line: Seq<u8>, name: Seq<u8>, index: u32) -> bool {
    match hook_entry(line) {
        Ok(Some(entry)) => entry.name == name && entry.index == Some(index),
        _ => false,
    }
}

pub open spec fn detached_name() -> Seq<u8> {
    text::utf8("client-detached"@)
}

pub open spec fn changed_name() -> Seq<u8> {
    text::utf8("client-session-changed"@)
}

/// The line is one of the two entries of an allocation.
pub open spec fn is_own_entry(line: Seq<u8>, index: u32) -> bool {
    is_entry(line, detached_name(), index) || is_entry(line, changed_name(), index)
}

/// Neither entry of an allocation is listed.  The listing is read up to the
/// first of them, or to the first malformed line.
pub open spec fn absent_from(lines: Seq<Seq<u8>>, index: u32) -> Result<bool, ()>
    decreases lines.len(),
{
    if lines.len() == 0 {
        Ok(true)
    } else if hook_entry(lines[0]) is Err {
        Err(())
    } else if is_own_entry(lines[0], index) {
        Ok(false)
    } else {
        absent_from(lines.skip(1), index)
    }
}

/// The last line that is the entry of the given name and index.
pub open spec fn last_entry(lines: Seq<Seq<u8>>, name: Seq<u8>, index: u32) -> Option<Seq<u8>>
    decreases lines.len(),
{
    if lines.len() == 0 {
        None
    } else if is_entry(lines.last(), name, index) {
        Some(lines.last())
    } else {
        last_entry(lines.drop_last(), name, index)
    }
}

/// A text without its quote characters, which tmux does not preserve when it
/// shows a stored hook.
pub open spec fn unquoted(s: Seq<u8>) -> Seq<u8>
    decreases s.len(),
{
    if s.len() == 0 {
        seq![]
    } else if s.last() == 0x27 || s.last() == 0x22 {
        unquoted(s.drop_last())
    } else {
        unquoted(s.drop_last()).push(s.last())
    }
}

/// `name[index] body`, as `show-hooks` lists a hook.
pub open spec fn listed(name: Seq<char>, index: u32, body: Seq<char>) -> Seq<char> {
    name + "["@ + text::decimal(index as nat) + "]"@ + " "@ + body
}

/// The line is the hook of that name as it is installed for the window, apart
/// from quotes.
pub open spec fn owned_line(
    line: Seq<u8>,
    name: Seq<char>,
    window: Seq<char>,
    session: Seq<char>,
    index: u32,
) -> bool {
    unquoted(line) == unquoted(
        text::utf8(listed(name, index, hook_body(window, session, index))),
    )
}

/// Classifies the two exact entries of one cleanup record.
pub open spec fn hooks_state(
    hooks: Seq<u8>,
    index: u32,
    session: Seq<char>,
    window_id: u64,
) -> Result<ZoomRecoveryHookState, ()> {
    let lines = hook_lines(hooks);
    match (quote::window_target_text(session, window_id), quote::session_target_text(session)) {
        (Ok(window), Ok(scope)) => if malformed(lines) {
            Err(())
        } else {
            match (
                last_entry(lines, detached_name(), index),
                last_entry(lines, changed_name(), index),
            ) {
                (None, None) => Ok(ZoomRecoveryHookState::Absent),
                (Some(a), Some(b)) => if owned_line(a, "client-detached"@, window, scope, index)
                    && owned_line(b, "client-session-changed"@, window, scope, index) {
                    Ok(ZoomRecoveryHookState::Owned)
                } else {
                    Ok(ZoomRecoveryHookState::Replaced)
                },
                _ => Ok(ZoomRecoveryHookState::Replaced),
            }
        },
        _ => Err(()),
    }
}

struct HookEntry {
    name: Vec<u8>,
    index: Option<u32>,
}

impl View for HookEntry {
    type V = HookEntryView;

    closed spec fn view(&self) -> HookEntryView {
        HookEntryView { name: self.name@, index: self.index }
    }
}

fn has_byte(s: &[u8], b: u8) -> (r: bool)
    ensures
        r == s@.contains(b),
{
    proof {
        crate::bytes::lemma_find(s@, Delimiter::Byte(b));
    }
    find_byte(s, Delimiter::Byte(b)).is_some()
}

fn parse_hook_entry(line: &[u8]) -> (r: Result<Option<HookEntry>, ()>)
    ensures
        match r {
            Ok(Some(entry)) => hook_entry(line@) == Ok::<Option<HookEntryView>, ()>(Some(entry@)),
            Ok(None) => hook_entry(line@) == Ok::<Option<HookEntryView>, ()>(None),
            Err(()) => hook_entry(line@) == Err::<Option<HookEntryView>, ()>(()),
        },
{
    let words = keep_nonempty(split_bytes(line, Delimiter::Whitespace));
    if words.len() == 0 {
        return Ok(None);
    }
    let token = words[0].as_slice();
    assert(bytes::views(words@)[0] == token@);
    proof {
        lemma_nonempty_positive(bytes::split(line@, Delimiter::Whitespace));
        assert(token@.len() > 0);
    }
    match find_byte(token, Delimiter::Byte(0x5b)) {
        None => {
            if has_byte(token, 0x5d) {
                return Err(());
            }
            let name = slice_to_vec(token);
            Ok(Some(HookEntry { name, index: None }))
        },
        Some(open) => {
            if token[token.len() - 1] != 0x5d || open == 0 || token.len() - open <= 2 {
                return Err(());
            }
            let key = slice_subrange(token, open + 1, token.len() - 1);
            if has_byte(key, 0x5b) || has_byte(key, 0x5d) {
                return Err(());
            }
            let name = slice_to_vec(slice_subrange(token, 0, open));
            assert(name@ == token@.take(open as int));
            if !only_digits(key) {
                return Ok(Some(HookEntry { name, index: None }));
            }
            match parse_decimal(key, u32::MAX as u64) {
                Some(n) => Ok(Some(HookEntry { name, index: Some(n as u32) })),
                None => Err(()),
            }
        },
    }
}

proof fn lemma_nonempty_positive(fields: Seq<Seq<u8>>)
    ensures
        forall|i: int| 0 <= i < bytes::nonempty(fields).len() ==> (#[trigger] bytes::nonempty(fields)[i]).len() > 0,
    decreases fields.len(),
{
    if fields.len() > 0 {
        lemma_nonempty_positive(fields.drop_last());
        let front = bytes::nonempty(fields.drop_last());
        assert forall|i: int| 0 <= i < bytes::nonempty(fields).len() implies (
        #[trigger] bytes::nonempty(fields)[i]).len() > 0 by {
            if i < front.len() {
                assert(bytes::nonempty(fields)[i] == front[i]);
            }
        }
    }
}

fn only_digits(s: &[u8]) -> (r: bool)
    ensures
        r == bytes::all_digits(s@),
{
    let mut i: usize = 0;
    while i < s.len()
        invariant
            i <= s@.len(),
            forall|j: int| 0 <= j < i ==> crate::bytes::is_digit(#[trigger] s@[j]),
        decreases s@.len() - i,
    {
        if s[i] < 0x30 || s[i] > 0x39 {
            assert(!crate::bytes::is_digit(s@[i as int]));
            return false;
        }
        i = i + 1;
    }
    true
}

fn split_hook_lines(hooks: &[u8]) -> (r: Vec<Vec<u8>>)
    ensures
        bytes::views(r@) == hook_lines(hooks@),
{
    let raw = split_bytes(hooks, Delimiter::Byte(0x0a));
    let mut lines: Vec<Vec<u8>> = Vec::new();
    let mut i: usize = 0;
    while i < raw.len()
        invariant
            i <= raw@.len(),
            lines@.len() == i,
            forall|j: int| 0 <= j < i ==> (#[trigger] lines@[j])@ == decoder::without_cr(raw@[j]@),
        decreases raw@.len() - i,
    {
        let mut line = slice_to_vec(raw[i].as_slice());
        if line.len() > 0 && line[line.len() - 1] == 0x0d {
            let _ = line.pop();
        }
        assert(line@ == decoder::without_cr(raw@[i as int]@));
        lines.push(line);
        i = i + 1;
    }
    assert(bytes::views(lines@) =~= hook_lines(hooks@));
    lines
}

/// Chooses the lowest unused hook index of the reserved range, from the
/// output of `show-hooks`.  Every index in the range counts as used, whatever
/// the hook's name.  A malformed line makes the allocation fail, because
/// replacing an unknown hook is worse than doing without crash recovery.
pub fn choose_zoom_recovery_hook(hooks: &[u8]) -> (r: Option<ZoomRecoveryHookAllocation>)
    ensures
        match r {
            Some(a) => {
                &&& !malformed(hook_lines(hooks@))
                &&& ZOOM_RECOVERY_HOOK_INDEX_START <= a.index < ZOOM_RECOVERY_HOOK_INDEX_LIMIT
                &&& !index_used(hook_lines(hooks@), a.index)
                &&& forall|i: u32|
                    ZOOM_RECOVERY_HOOK_INDEX_START <= i < a.index ==> #[trigger] index_used(
                        hook_lines(hooks@),
                        i,
                    )
            },
            None => malformed(hook_lines(hooks@)) || forall|i: u32|
                ZOOM_RECOVERY_HOOK_INDEX_START <= i < ZOOM_RECOVERY_HOOK_INDEX_LIMIT
                    ==> #[trigger] index_used(hook_lines(hooks@), i),
        },
{
    let lines = split_hook_lines(hooks);
    let ghost all = hook_lines(hooks@);
    assert forall|j: int| 0 <= j < lines@.len() implies lines@[j]@ == #[trigger] all[j] by {
        assert(bytes::views(lines@)[j] == lines@[j]@);
    }
    let mut occupied: Vec<u32> = Vec::new();
    let mut k: usize = 0;
    while k < lines.len()
        invariant
            k <= lines@.len(),
            lines@.len() == all.len(),
            all == hook_lines(hooks@),
            forall|j: int| 0 <= j < lines@.len() ==> lines@[j]@ == #[trigger] all[j],
            forall|j: int| 0 <= j < k ==> hook_entry(#[trigger] all[j]) is Ok,
            forall|i: u32| #[trigger]
                occupied@.contains(i) <==> exists|j: int| 0 <= j < k && at_index(#[trigger] all[j], i),
        decreases lines@.len() - k,
    {
        let ghost line = all[k as int];
        let ghost before = occupied@;
        match parse_hook_entry(lines[k].as_slice()) {
            Err(()) => {
                assert(hook_entry(all[k as int]) is Err);
                return None;
            },
            Ok(None) => {
                proof {
                    lemma_index_seen(all, k as int, before, before);
                }
            },
            Ok(Some(entry)) => {
                match entry.index {
                    Some(index) => {
                        occupied.push(index);
                        proof {
                            assert(occupied@ == before.push(index));
                            assert(occupied@[before.len() as int] == index);
                            assert forall|i: u32| #[trigger] occupied@.contains(i) <==> (
                            before.contains(i) || i == index) by {
                                if before.contains(i) {
                                    let w = choose|w: int| 0 <= w < before.len() && before[w] == i;
                                    assert(occupied@[w] == i);
                                }
                            }
                            lemma_index_seen(all, k as int, before, occupied@);
                        }
                    },
                    None => {
                        proof {
                            lemma_index_seen(all, k as int, before, before);
                        }
                    },
                }
            },
        }
        k = k + 1;
    }
    assert(!malformed(all));
    let mut index: u32 = ZOOM_RECOVERY_HOOK_INDEX_START;
    while index < ZOOM_RECOVERY_HOOK_INDEX_LIMIT
        invariant
            ZOOM_RECOVERY_HOOK_INDEX_START <= index <= ZOOM_RECOVERY_HOOK_INDEX_LIMIT,
            !malformed(all),
            all == hook_lines(hooks@),
            forall|i: u32| #[trigger] occupied@.contains(i) <==> index_used(all, i),
            forall|i: u32|
                ZOOM_RECOVERY_HOOK_INDEX_START <= i < index ==> #[trigger] index_used(all, i),
        decreases ZOOM_RECOVERY_HOOK_INDEX_LIMIT - index,
    {
        let used = holds(&occupied, index);
        if !used {
            assert(!occupied@.contains(index));
            return Some(ZoomRecoveryHookAllocation { index });
        }
        assert(occupied@.contains(index));
        assert(index_used(all, index));
        index = index + 1;
    }
    None
}

fn holds(values: &Vec<u32>, value: u32) -> (r: bool)
    ensures
        r == values@.contains(value),
{
    let mut i: usize = 0;
    while i < values.len()
        invariant
            i <= values@.len(),
            forall|j: int| 0 <= j < i ==> #[trigger] values@[j] != value,
        decreases values@.len() - i,
    {
        if values[i] == value {
            return true;
        }
        i = i + 1;
    }
    false
}

proof fn lemma_index_seen(all: Seq<Seq<u8>>, k: int, before: Seq<u32>, after: Seq<u32>)
    requires
        0 <= k < all.len(),
        forall|i: u32| #[trigger]
            before.contains(i) <==> exists|j: int| 0 <= j < k && at_index(#[trigger] all[j], i),
        forall|i: u32| #[trigger]
            after.contains(i) <==> before.contains(i) || at_index(all[k], i),
    ensures
        forall|i: u32| #[trigger]
            after.contains(i) <==> exists|j: int| 0 <= j < k + 1 && at_index(#[trigger] all[j], i),
{
    assert forall|i: u32| #[trigger]
        after.contains(i) <==> exists|j: int| 0 <= j < k + 1 && at_index(#[trigger] all[j], i) by {
        if after.contains(i) {
            if before.contains(i) {
                let w = choose|j: int| 0 <= j < k && at_index(#[trigger] all[j], i);
                assert(0 <= w < k + 1 && at_index(all[w], i));
            } else {
                assert(at_index(all[k], i));
            }
        }
        if exists|j: int| 0 <= j < k + 1 && at_index(#[trigger] all[j], i) {
            let w = choose|j: int| 0 <= j < k + 1 && at_index(#[trigger] all[j], i);
            if w < k {
                assert(before.contains(i));
            }
        }
    }
}

fn own_slot(entry: &HookEntry, index: u32) -> (r: Option<bool>)
    ensures
        r == Some(false) <==> entry@.name == detached_name() && entry@.index == Some(index),
        r == Some(true) <==> entry@.name == changed_name() && entry@.index == Some(index)
            && entry@.name != detached_name(),
        r is Some ==> entry@.index == Some(index) && (entry@.name == detached_name() || entry@.name
            == changed_name()),
{
    match entry.index {
        Some(i) => if i != index {
            None
        } else if bytes_equal(entry.name.as_slice(), "client-detached".as_bytes()) {
            Some(false)
        } else if bytes_equal(entry.name.as_slice(), "client-session-changed".as_bytes()) {
            Some(true)
        } else {
            None
        },
        None => None,
    }
}

pub proof fn lemma_names_differ()
    ensures
        detached_name() != changed_name(),
{
    reveal_strlit("client-detached");
    reveal_strlit("client-session-changed");
    crate::text::lemma_utf8_ascii("client-detached"@);
    crate::text::lemma_utf8_ascii("client-session-changed"@);
    assert(detached_name().len() != changed_name().len());
}

/// Confirms that both indexed hooks of an allocation are absent.  Other
/// hooks do not matter, so that cleanup never takes them for a failure.
pub fn zoom_recovery_hooks_absent(hooks: &[u8], allocation: ZoomRecoveryHookAllocation) -> (r:
    Result<bool, ()>)
    ensures
        r == absent_from(hook_lines(hooks@), allocation.index),
{
    let lines = split_hook_lines(hooks);
    let ghost all = hook_lines(hooks@);
    let mut k: usize = 0;
    assert(all.skip(0) == all);
    proof {
        lemma_names_differ();
    }
    while k < lines.len()
        invariant
            k <= lines@.len(),
            bytes::views(lines@) == all,
            all == hook_lines(hooks@),
            detached_name() != changed_name(),
            absent_from(all.skip(k as int), allocation.index) == absent_from(
                all,
                allocation.index,
            ),
        decreases lines@.len() - k,
    {
        let ghost rest = all.skip(k as int);
        assert(rest[0] == lines@[k as int]@) by {
            assert(bytes::views(lines@)[k as int] == lines@[k as int]@);
        }
        assert(rest.skip(1) == all.skip(k + 1));
        match parse_hook_entry(lines[k].as_slice()) {
            Err(()) => {
                return Err(());
            },
            Ok(None) => {},
            Ok(Some(entry)) => {
                if own_slot(&entry, allocation.index).is_some() {
                    return Ok(false);
                }
            },
        }
        k = k + 1;
    }
    assert(all.skip(k as int).len() == 0);
    Ok(true)
}

fn strip_quotes(value: &[u8]) -> (r: Vec<u8>)
    ensures
        r@ == unquoted(value@),
{
    let mut out: Vec<u8> = Vec::new();
    let mut i: usize = 0;
    assert(value@.take(0) == Seq::<u8>::empty());
    while i < value.len()
        invariant
            i <= value@.len(),
            out@ == unquoted(value@.take(i as int)),
        decreases value@.len() - i,
    {
        assert(value@.take(i + 1).drop_last() == value@.take(i as int));
        if value[i] != 0x27 && value[i] != 0x22 {
            out.push(value[i]);
        }
        i = i + 1;
    }
    assert(value@.take(i as int) == value@);
    out
}

/// The listed line of a hook that runs `body`, without quotes.
fn bare_line(name: &str, index: u32, body: &str) -> (r: Vec<u8>)
    ensures
        r@ == unquoted(text::utf8(listed(name@, index, body@))),
{
    let mut line = String::from_str(name);
    line.append("[");
    push_decimal(&mut line, index as u64);
    line.append("]");
    line.append(" ");
    line.append(body);
    strip_quotes(line.as_str().as_bytes())
}

fn is_bare(line: &[u8], bare: &Vec<u8>) -> (r: bool)
    ensures
        r == (unquoted(line@) == bare@),
{
    let stripped = strip_quotes(line);
    bytes_equal(stripped.as_slice(), bare.as_slice())
}

/// Classifies only the two exact indexed entries owned by one cleanup record.
/// A matching name and index with a different body counts as replaced:
/// another client may have taken the slot after a transport loss.  tmux shows
/// a stored hook with its own quotes, so that quotes do not count.
pub fn zoom_recovery_hooks_state(
    hooks: &[u8],
    allocation: ZoomRecoveryHookAllocation,
    session: &str,
    window_id: u64,
) -> (r: Result<ZoomRecoveryHookState, ()>)
    ensures
        r == hooks_state(hooks@, allocation.index, session@, window_id),
{
    let window = match window_target(session, window_id) {
        Ok(window) => window,
        Err(_) => {
            return Err(());
        },
    };
    let scope = match session_target(session) {
        Ok(scope) => scope,
        Err(_) => {
            return Err(());
        },
    };
    let ghost w = window@;
    let ghost s = scope@;
    let ghost index = allocation.index;
    let body = build_body(window.as_str(), scope.as_str(), allocation.index);
    let own_detached = bare_line("client-detached", allocation.index, body.as_str());
    let own_changed = bare_line("client-session-changed", allocation.index, body.as_str());
    let lines = split_hook_lines(hooks);
    let ghost all = hook_lines(hooks@);
    let mut detached: Option<bool> = None;
    let mut changed: Option<bool> = None;
    let mut k: usize = 0;
    proof {
        lemma_names_differ();
        assert(all.take(0) == Seq::<Seq<u8>>::empty());
    }
    while k < lines.len()
        invariant
            k <= lines@.len(),
            bytes::views(lines@) == all,
            index == allocation.index,
            detached_name() != changed_name(),
            own_detached@ == unquoted(
                text::utf8(listed("client-detached"@, index, hook_body(w, s, index))),
            ),
            own_changed@ == unquoted(
                text::utf8(listed("client-session-changed"@, index, hook_body(w, s, index))),
            ),
            forall|j: int| 0 <= j < k ==> hook_entry(#[trigger] all[j]) is Ok,
            detached == slot_state(all.take(k as int), "client-detached"@, w, s, index),
            changed == slot_state(
                all.take(k as int),
                "client-session-changed"@,
                w,
                s,
                index,
            ),
            quote::window_target_text(session@, window_id) == Ok::<Seq<char>, CommandArgumentError>(w),
            quote::session_target_text(session@) == Ok::<Seq<char>, CommandArgumentError>(s),
            all == hook_lines(hooks@),
        decreases lines@.len() - k,
    {
        let ghost part = all.take(k + 1);
        assert(part.drop_last() == all.take(k as int));
        assert(part.last() == lines@[k as int]@ && all[k as int] == lines@[k as int]@) by {
            assert(bytes::views(lines@)[k as int] == lines@[k as int]@);
        }
        match parse_hook_entry(lines[k].as_slice()) {
            Err(()) => {
                assert(hook_entry(all[k as int]) is Err);
                assert(malformed(all));
                return Err(());
            },
            Ok(None) => {},
            Ok(Some(entry)) => {
                match own_slot(&entry, allocation.index) {
                    Some(false) => {
                        detached = Some(is_bare(lines[k].as_slice(), &own_detached));
                    },
                    Some(true) => {
                        changed = Some(is_bare(lines[k].as_slice(), &own_changed));
                    },
                    None => {},
                }
            },
        }
        k = k + 1;
    }
    assert(all.take(k as int) == all);
    assert(!malformed(all));
    match (detached, changed) {
        (None, None) => Ok(ZoomRecoveryHookState::Absent),
        (Some(true), Some(true)) => Ok(ZoomRecoveryHookState::Owned),
        _ => Ok(ZoomRecoveryHookState::Replaced),
    }
}

/// Whether the last entry of a name is there, and whether it is ours.
spec fn slot_state(
    lines: Seq<Seq<u8>>,
    name: Seq<char>,
    window: Seq<char>,
    session: Seq<char>,
    index: u32,
) -> Option<bool> {
    match last_entry(lines, text::utf8(name), index) {
        Some(line) => Some(owned_line(line, name, window, session, index)),
        None => None,
    }
}

/// Unsets both entries of an allocation.  `scope` names the session.
pub open spec fn remove_pair(scope: Seq<char>, index: u32) -> Seq<char> {
    "set-hook -u -t "@ + scope + ": client-detached["@ + text::decimal(index as nat)
        + "] ; set-hook -u -t "@ + scope + ": client-session-changed["@ + text::decimal(index as nat)
        + "]"@
}

/// Collapses a zoom, where there is one.
pub open spec fn collapse(target: Seq<char>) -> Seq<char> {
    "if-shell -F -t "@ + target + " \"#{window_zoomed_flag}\" \"resize-pane -Z -t "@ + target
        + "\""@
}

/// What a recovery hook runs: it collapses the zoom of its window, where it
/// is still there, and removes both hooks.
pub open spec fn hook_body(target: Seq<char>, scope: Seq<char>, index: u32) -> Seq<char> {
    collapse(target) + " ; "@ + remove_pair(scope, index)
}

/// Installs both hooks with the same body.
pub open spec fn install_pair(scope: Seq<char>, index: u32, body: Seq<char>) -> Seq<char> {
    "set-hook -t "@ + scope + ": client-detached["@ + text::decimal(index as nat) + "] '"@ + body
        + "' ; set-hook -t "@ + scope + ": client-session-changed["@ + text::decimal(index as nat)
        + "] '"@ + body + "'"@
}

/// The quoted target of a window of the managed session.
pub open spec fn managed_window(window_id: u64) -> Seq<char> {
    "'=meeterm:@"@ + text::decimal(window_id as nat) + "'"@
}

fn build_remove(scope: &str, index: u32) -> (r: String)
    ensures
        r@ == remove_pair(scope@, index),
{
    let mut command = String::from_str("set-hook -u -t ");
    command.append(scope);
    command.append(": client-detached[");
    push_decimal(&mut command, index as u64);
    command.append("] ; set-hook -u -t ");
    command.append(scope);
    command.append(": client-session-changed[");
    push_decimal(&mut command, index as u64);
    command.append("]");
    command
}

fn build_collapse(target: &str) -> (r: String)
    ensures
        r@ == collapse(target@),
{
    let mut command = String::from_str("if-shell -F -t ");
    command.append(target);
    command.append(" \"#{window_zoomed_flag}\" \"resize-pane -Z -t ");
    command.append(target);
    command.append("\"");
    command
}

fn build_body(target: &str, scope: &str, index: u32) -> (r: String)
    ensures
        r@ == hook_body(target@, scope@, index),
{
    let mut body = build_collapse(target);
    body.append(" ; ");
    let remove = build_remove(scope, index);
    body.append(remove.as_str());
    body
}

fn build_install(scope: &str, index: u32, body: &str) -> (r: String)
    ensures
        r@ == install_pair(scope@, index, body@),
{
    let mut command = String::from_str("set-hook -t ");
    command.append(scope);
    command.append(": client-detached[");
    push_decimal(&mut command, index as u64);
    command.append("] '");
    command.append(body);
    command.append("' ; set-hook -t ");
    command.append(scope);
    command.append(": client-session-changed[");
    push_decimal(&mut command, index as u64);
    command.append("] '");
    command.append(body);
    command.append("'");
    command
}

/// The body of the recovery hooks in the managed session.
pub fn zoom_recovery_hook_body(allocation: ZoomRecoveryHookAllocation, window_id: u64) -> (r:
    String)
    ensures
        r@ == hook_body(managed_window(window_id), "=meeterm"@, allocation.index),
{
    let mut target = String::from_str("'=meeterm:@");
    push_decimal(&mut target, window_id);
    target.append("'");
    build_body(target.as_str(), "=meeterm", allocation.index)
}

/// The body of the recovery hooks in the exact session.
pub open spec fn hook_body_for_session(session: Seq<char>, index: u32, window_id: u64) -> Result<
    Seq<char>,
    CommandArgumentError,
> {
    match quote::window_target_text(session, window_id) {
        Err(e) => Err(e),
        Ok(target) => match quote::session_target_text(session) {
            Err(e) => Err(e),
            Ok(scope) => Ok(hook_body(target, scope, index)),
        },
    }
}

pub fn zoom_recovery_hook_body_for_session(
    session: &str,
    allocation: ZoomRecoveryHookAllocation,
    window_id: u64,
) -> (r: Result<String, CommandArgumentError>)
    ensures
        quote::said(r) == hook_body_for_session(session@, allocation.index, window_id),
{
    let target = match window_target(session, window_id) {
        Ok(target) => target,
        Err(e) => {
            return Err(e);
        },
    };
    let remove = match remove_zoom_recovery_hooks_command_for_session(session, allocation) {
        Ok(remove) => remove,
        Err(e) => {
            return Err(e);
        },
    };
    let mut body = build_collapse(target.as_str());
    body.append(" ; ");
    body.append(remove.as_str());
    Ok(body)
}

/// Installs the recovery pair in the managed session.  The hook collapses
/// one window's zoom where it is still set, then removes both hooks.
pub fn install_zoom_recovery_hooks_command(
    allocation: ZoomRecoveryHookAllocation,
    window_id: u64,
) -> (r: String)
    ensures
        r@ == install_pair(
            "=meeterm"@,
            allocation.index,
            hook_body(managed_window(window_id), "=meeterm"@, allocation.index),
        ),
{
    let body = zoom_recovery_hook_body(allocation, window_id);
    build_install("=meeterm", allocation.index, body.as_str())
}

/// Installs the recovery pair in the exact session.
pub open spec fn install_for_session(session: Seq<char>, index: u32, window_id: u64) -> Result<
    Seq<char>,
    CommandArgumentError,
> {
    match quote::session_target_text(session) {
        Err(e) => Err(e),
        Ok(scope) => match hook_body_for_session(session, index, window_id) {
            Err(e) => Err(e),
            Ok(body) => Ok(install_pair(scope, index, body)),
        },
    }
}

pub fn install_zoom_recovery_hooks_command_for_session(
    session: &str,
    allocation: ZoomRecoveryHookAllocation,
    window_id: u64,
) -> (r: Result<String, CommandArgumentError>)
    ensures
        quote::said(r) == install_for_session(session@, allocation.index, window_id),
{
    let scope = match session_target(session) {
        Ok(scope) => scope,
        Err(e) => {
            return Err(e);
        },
    };
    match zoom_recovery_hook_body_for_session(session, allocation, window_id) {
        Ok(body) => Ok(build_install(scope.as_str(), allocation.index, body.as_str())),
        Err(e) => Err(e),
    }
}

/// Removes the recovery pair of the managed session without changing the
/// layout.
pub fn remove_zoom_recovery_hooks_command(allocation: ZoomRecoveryHookAllocation) -> (r: String)
    ensures
        r@ == remove_pair("=meeterm"@, allocation.index),
{
    build_remove("=meeterm", allocation.index)
}

/// Removes the recovery pair of the exact session.
pub open spec fn remove_for_session(session: Seq<char>, index: u32) -> Result<
    Seq<char>,
    CommandArgumentError,
> {
    match quote::session_target_text(session) {
        Ok(scope) => Ok(remove_pair(scope, index)),
        Err(e) => Err(e),
    }
}

pub fn remove_zoom_recovery_hooks_command_for_session(
    session: &str,
    allocation: ZoomRecoveryHookAllocation,
) -> (r: Result<String, CommandArgumentError>)
    ensures
        quote::said(r) == remove_for_session(session@, allocation.index),
{
    match session_target(session) {
        Ok(scope) => Ok(build_remove(scope.as_str(), allocation.index)),
        Err(e) => Err(e),
    }
}

/// Restores a zoom that meeterm owns and removes its recovery hooks during
/// an orderly disconnect.
pub fn cleanup_zoom_recovery_hooks_command(
    allocation: ZoomRecoveryHookAllocation,
    pane_id: u64,
) -> (r: String)
    ensures
        r@ == collapse("%"@ + text::decimal(pane_id as nat)) + " ; "@ + remove_pair(
            "=meeterm"@,
            allocation.index,
        ),
{
    let mut target = String::from_str("%");
    push_decimal(&mut target, pane_id);
    let mut command = build_collapse(target.as_str());
    command.append(" ; ");
    let remove = remove_zoom_recovery_hooks_command(allocation);
    command.append(remove.as_str());
    command
}

/// Like the hook body: an orderly disconnect runs what the hook would run.
pub fn cleanup_zoom_recovery_hooks_command_for_session(
    session: &str,
    allocation: ZoomRecoveryHookAllocation,
    window_id: u64,
) -> (r: Result<String, CommandArgumentError>)
    ensures
        quote::said(r) == hook_body_for_session(session@, allocation.index, window_id),
{
    zoom_recovery_hook_body_for_session(session, allocation, window_id)
}

proof fn lemma_absent(lines: Seq<Seq<u8>>, index: u32)
    requires
        !malformed(lines),
    ensures
        absent_from(lines, index) == Ok::<bool, ()>(
            last_entry(lines, detached_name(), index) is None && last_entry(
                lines,
                changed_name(),
                index,
            ) is None,
        ),
    decreases lines.len(),
{
    if lines.len() > 0 {
        let tail = lines.skip(1);
        assert(hook_entry(lines[0]) is Ok);
        assert forall|i: int| 0 <= i < tail.len() implies hook_entry(#[trigger] tail[i]) is Ok by {
            assert(tail[i] == lines[i + 1]);
        }
        lemma_absent(tail, index);
        lemma_last_first(lines, detached_name(), index);
        lemma_last_first(lines, changed_name(), index);
    }
}

proof fn lemma_last_first(lines: Seq<Seq<u8>>, name: Seq<u8>, index: u32)
    requires
        lines.len() > 0,
    ensures
        last_entry(lines, name, index) is None <==> !is_entry(lines[0], name, index) && last_entry(
            lines.skip(1),
            name,
            index,
        ) is None,
    decreases lines.len(),
{
    if lines.len() == 1 {
        assert(last_entry(lines.drop_last(), name, index) is None);
        assert(last_entry(lines.skip(1), name, index) is None);
        assert(lines.last() == lines[0]);
    } else {
        lemma_last_first(lines.drop_last(), name, index);
        assert(lines.drop_last()[0] == lines[0]);
        assert(last_entry(lines.skip(1), name, index) == (if is_entry(lines.last(), name, index) {
            Some(lines.last())
        } else {
            last_entry(lines.skip(1).drop_last(), name, index)
        }));
        assert(lines.drop_last().skip(1) == lines.skip(1).drop_last());
        assert(lines.skip(1).last() == lines.last());
    }
}

/// A chosen index is free: right after the choice, the same listing shows
/// both entries of the allocation as absent.
pub proof fn law_chosen_index_is_free(hooks: Seq<u8>, index: u32)
    requires
        !malformed(hook_lines(hooks)),
        !index_used(hook_lines(hooks), index),
    ensures
        absent_from(hook_lines(hooks), index) == Ok::<bool, ()>(true),
{
    lemma_unused_absent(hook_lines(hooks), index);
    lemma_absent(hook_lines(hooks), index);
}

proof fn lemma_unused_absent(lines: Seq<Seq<u8>>, index: u32)
    requires
        !index_used(lines, index),
    ensures
        last_entry(lines, detached_name(), index) is None,
        last_entry(lines, changed_name(), index) is None,
    decreases lines.len(),
{
    if lines.len() > 0 {
        assert(!at_index(lines[lines.len() - 1], index));
        assert forall|i: int| 0 <= i < lines.drop_last().len() implies !at_index(
            #[trigger] lines.drop_last()[i],
            index,
        ) by {
            assert(lines.drop_last()[i] == lines[i]);
        }
        lemma_unused_absent(lines.drop_last(), index);
    }
}

/// The two readbacks agree: for a listing without malformed lines and a
/// session that can be targeted, an allocation is absent in the one exactly
/// when it is absent in the other.
pub proof fn law_absent_agrees_with_state(
    hooks: Seq<u8>,
    index: u32,
    session: Seq<char>,
    window_id: u64,
)
    requires
        hooks_state(hooks, index, session, window_id) is Ok,
    ensures
        absent_from(hook_lines(hooks), index) == Ok::<bool, ()>(
            hooks_state(hooks, index, session, window_id) == Ok::<ZoomRecoveryHookState, ()>(
                ZoomRecoveryHookState::Absent,
            ),
        ),
{
    lemma_absent(hook_lines(hooks), index);
}

} // verus!
