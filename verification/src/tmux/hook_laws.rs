//! Installed recovery hooks are recognised as our own, and no others are.

use vstd::prelude::*;

use crate::bytes;
use crate::bytes::Delimiter;
use crate::text;
use crate::tmux::decoder;
use crate::tmux::hooks;
use crate::tmux::hooks::{HookEntryView, ZoomRecoveryHookState};
use crate::tmux::quote;

verus! {

/// A `show-hooks` listing: each line with its line feed.
pub open spec fn listing(lines: Seq<Seq<u8>>) -> Seq<u8>
    decreases lines.len(),
{
    if lines.len() == 0 {
        seq![]
    } else {
        lines[0] + seq![0x0au8] + listing(lines.skip(1))
    }
}

/// The line that lists one recovery hook of a window, quoted as it was sent.
pub open spec fn installed_line(
    name: Seq<char>,
    session: Seq<char>,
    window_id: u64,
    index: u32,
) -> Seq<u8> {
    text::utf8(
        hooks::listed(name, index, hooks::hook_body_for_session(session, index, window_id)->Ok_0),
    )
}

/// The line is the entry of that name and shows the hook of the window,
/// however it is quoted.
pub open spec fn shows_hook(
    line: Seq<u8>,
    name: Seq<char>,
    session: Seq<char>,
    window_id: u64,
    index: u32,
) -> bool {
    &&& hooks::is_entry(line, text::utf8(name), index)
    &&& hooks::unquoted(line) == hooks::unquoted(installed_line(name, session, window_id, index))
}

/// No line but those at the two places is an entry of the allocation.
pub open spec fn only_at(lines: Seq<Seq<u8>>, index: u32, i: int, j: int) -> bool {
    forall|k: int|
        0 <= k < lines.len() && k != i && k != j ==> !hooks::is_own_entry(#[trigger] lines[k], index)
}

proof fn lemma_unquoted_join(a: Seq<u8>, b: Seq<u8>)
    ensures
        hooks::unquoted(a + b) == hooks::unquoted(a) + hooks::unquoted(b),
    decreases b.len(),
{
    if b.len() == 0 {
        assert(a + b == a);
        assert(hooks::unquoted(a) + hooks::unquoted(b) == hooks::unquoted(a));
    } else {
        lemma_unquoted_join(a, b.drop_last());
        assert((a + b).drop_last() == a + b.drop_last());
        assert((a + b).last() == b.last());
        assert(hooks::unquoted(a) + hooks::unquoted(b.drop_last()).push(b.last()) == (hooks::unquoted(a) + hooks::unquoted(
            b.drop_last(),
        )).push(b.last()));
    }
}

proof fn lemma_unquoted_plain(s: Seq<u8>)
    requires
        forall|i: int| 0 <= i < s.len() ==> #[trigger] s[i] != 0x27 && s[i] != 0x22,
    ensures
        hooks::unquoted(s) == s,
    decreases s.len(),
{
    if s.len() == 0 {
        assert(s == Seq::<u8>::empty());
    } else {
        assert forall|i: int| 0 <= i < s.drop_last().len() implies #[trigger] s.drop_last()[i]
            != 0x27 && s.drop_last()[i] != 0x22 by {
            assert(s.drop_last()[i] == s[i]);
        }
        lemma_unquoted_plain(s.drop_last());
        assert(s[s.len() - 1] != 0x27);
        assert(s.drop_last().push(s.last()) == s);
    }
}

/// No line feed, and no carriage return.
pub open spec fn one_line(s: Seq<u8>) -> bool {
    forall|i: int| 0 <= i < s.len() ==> #[trigger] s[i] != 0x0a && s[i] != 0x0d
}

proof fn lemma_one_line(s: Seq<char>)
    requires
        !text::has_control_char(s),
    ensures
        one_line(text::utf8(s)),
    decreases s.len(),
{
    if s.len() > 0 {
        assert forall|i: int| 0 <= i < s.drop_first().len() implies !text::is_control_char(
            #[trigger] s.drop_first()[i],
        ) by {
            assert(s.drop_first()[i] == s[i + 1]);
        }
        lemma_one_line(s.drop_first());
        assert(!text::is_control_char(s[0]));
        lemma_scalar_one_line(s[0]);
        let first = vstd::utf8::encode_scalar(s[0] as u32);
        let rest = text::utf8(s.drop_first());
        assert forall|i: int| 0 <= i < text::utf8(s).len() implies #[trigger] text::utf8(s)[i] != 0x0a && text::utf8(
            s,
        )[i] != 0x0d by {
            if i < first.len() {
                assert(text::utf8(s)[i] == first[i]);
            } else {
                assert(text::utf8(s)[i] == rest[i - first.len()]);
            }
        }
    }
}

proof fn lemma_scalar_one_line(ch: char)
    requires
        !text::is_control_char(ch),
    ensures
        one_line(vstd::utf8::encode_scalar(ch as u32)),
{
    let c = ch as u32;
    assert((0xC0 | ((c >> 6) & 0x1F) as u8) >= 0x80 && (0xE0 | ((c >> 12) & 0x0F) as u8) >= 0x80
        && (0xF0 | ((c >> 18) & 0x7) as u8) >= 0x80 && (0x80 | (c & 0x3F) as u8) >= 0x80 && (0x80
        | ((c >> 6) & 0x3F) as u8) >= 0x80 && (0x80 | ((c >> 12) & 0x3F) as u8) >= 0x80)
        by (bit_vector);
    if c < 0x80 {
        assert((c & 0x7F) as u8 == c as u8) by (bit_vector)
            requires
                c < 0x80,
        ;
    }
}

proof fn lemma_join_control(a: Seq<char>, b: Seq<char>)
    requires
        !text::has_control_char(a),
        !text::has_control_char(b),
    ensures
        !text::has_control_char(a + b),
{
    assert forall|i: int| 0 <= i < (a + b).len() implies !text::is_control_char(#[trigger] (a + b)[i]) by {
        if i < a.len() {
            assert((a + b)[i] == a[i]);
        } else {
            assert((a + b)[i] == b[i - a.len()]);
        }
    }
}

proof fn lemma_decimal_control(n: nat)
    ensures
        !text::has_control_char(text::decimal(n)),
    decreases n,
{
    if n >= 10 {
        lemma_decimal_control(n / 10);
        let front = text::decimal(n / 10);
        assert forall|i: int| 0 <= i < text::decimal(n).len() implies !text::is_control_char(
            #[trigger] text::decimal(n)[i],
        ) by {
            if i < front.len() {
                assert(text::decimal(n)[i] == front[i]);
            }
        }
    }
}

proof fn lemma_body_control(target: Seq<char>, scope: Seq<char>, index: u32)
    requires
        !text::has_control_char(target),
        !text::has_control_char(scope),
    ensures
        !text::has_control_char(hooks::hook_body(target, scope, index)),
{
    let d = text::decimal(index as nat);
    lemma_decimal_control(index as nat);
    reveal_strlit("if-shell -F -t ");
    reveal_strlit(" \"#{window_zoomed_flag}\" \"resize-pane -Z -t ");
    reveal_strlit("\"");
    reveal_strlit(" ; ");
    reveal_strlit("set-hook -u -t ");
    reveal_strlit(": client-detached[");
    reveal_strlit("] ; set-hook -u -t ");
    reveal_strlit(": client-session-changed[");
    reveal_strlit("]");
    let c1 = "if-shell -F -t "@ + target;
    lemma_join_control("if-shell -F -t "@, target);
    let c2 = c1 + " \"#{window_zoomed_flag}\" \"resize-pane -Z -t "@;
    lemma_join_control(c1, " \"#{window_zoomed_flag}\" \"resize-pane -Z -t "@);
    lemma_join_control(c2, target);
    lemma_join_control(c2 + target, "\""@);
    let r1 = "set-hook -u -t "@ + scope;
    lemma_join_control("set-hook -u -t "@, scope);
    let r2 = r1 + ": client-detached["@;
    lemma_join_control(r1, ": client-detached["@);
    lemma_join_control(r2, d);
    let r3 = r2 + d + "] ; set-hook -u -t "@;
    lemma_join_control(r2 + d, "] ; set-hook -u -t "@);
    lemma_join_control(r3, scope);
    let r4 = r3 + scope + ": client-session-changed["@;
    lemma_join_control(r3 + scope, ": client-session-changed["@);
    lemma_join_control(r4, d);
    lemma_join_control(r4 + d, "]"@);
    lemma_join_control(hooks::collapse(target), " ; "@);
    lemma_join_control(hooks::collapse(target) + " ; "@, hooks::remove_pair(scope, index));
}

proof fn lemma_bare_join(a: Seq<char>, b: Seq<char>)
    ensures
        hooks::unquoted(text::utf8(a + b)) == hooks::unquoted(text::utf8(a)) + hooks::unquoted(text::utf8(b)),
{
    text::lemma_utf8_join(a, b);
    lemma_unquoted_join(text::utf8(a), text::utf8(b));
}

proof fn lemma_plain_literal(s: Seq<char>)
    requires
        vstd::utf8::is_ascii_chars(s),
        forall|i: int| 0 <= i < s.len() ==> #[trigger] s[i] != '\'' && s[i] != '"',
    ensures
        hooks::unquoted(text::utf8(s)) == text::utf8(s),
{
    text::lemma_utf8_ascii(s);
    assert forall|i: int| 0 <= i < text::utf8(s).len() implies #[trigger] text::utf8(s)[i] != 0x27 && text::utf8(
        s,
    )[i] != 0x22 by {
        assert(text::utf8(s)[i] == s[i] as u8);
        assert('\0' <= s[i] <= '\u{7f}');
    }
    lemma_unquoted_plain(text::utf8(s));
}

proof fn lemma_decimal_plain(n: nat)
    ensures
        forall|i: int|
            0 <= i < text::decimal(n).len() ==> '0' <= #[trigger] text::decimal(n)[i] <= '9',
    decreases n,
{
    if n >= 10 {
        lemma_decimal_plain(n / 10);
        let front = text::decimal(n / 10);
        assert forall|i: int| 0 <= i < text::decimal(n).len() implies '0' <= #[trigger] text::decimal(n)[i]
            <= '9' by {
            if i < front.len() {
                assert(text::decimal(n)[i] == front[i]);
            }
        }
    }
}

/// The first word of a listed hook is its name and index.
proof fn lemma_listed_entry(name: Seq<char>, index: u32, body: Seq<char>)
    requires
        name == "client-detached"@ || name == "client-session-changed"@,
    ensures
        hooks::hook_entry(text::utf8(hooks::listed(name, index, body))) == Ok::<Option<HookEntryView>, ()>(
            Some(HookEntryView { name: text::utf8(name), index: Some(index) }),
        ),
{
    let d = text::decimal(index as nat);
    reveal_strlit("client-detached");
    reveal_strlit("client-session-changed");
    reveal_strlit("[");
    reveal_strlit("]");
    reveal_strlit(" ");
    text::lemma_utf8_ascii(name);
    text::lemma_utf8_ascii("["@);
    text::lemma_utf8_ascii("]"@);
    text::lemma_utf8_ascii(" "@);
    lemma_decimal_plain(index as nat);
    text::law_decimal_reads_back(index as nat, u32::MAX as nat);
    let digits = text::utf8(d);
    let n = text::utf8(name);
    let token = n + seq![0x5bu8] + digits + seq![0x5du8];
    let tail = text::utf8(body);
    let line = text::utf8(hooks::listed(name, index, body));
    text::lemma_utf8_join(name + "["@ + d + "]"@ + " "@, body);
    text::lemma_utf8_join(name + "["@ + d + "]"@, " "@);
    text::lemma_utf8_join(name + "["@ + d, "]"@);
    text::lemma_utf8_join(name + "["@, d);
    text::lemma_utf8_join(name, "["@);
    assert(text::utf8("["@) =~= seq![0x5bu8]);
    assert(text::utf8("]"@) =~= seq![0x5du8]);
    assert(text::utf8(" "@) =~= seq![0x20u8]);
    assert(line =~= token + seq![0x20u8] + tail);
    let ws = Delimiter::Whitespace;
    assert(forall|j: int| 0 <= j < digits.len() ==> bytes::is_digit(#[trigger] digits[j]));
    assert forall|j: int| 0 <= j < token.len() implies !ws.matches(#[trigger] token[j]) by {
        if j < n.len() {
            assert(token[j] == n[j]);
            assert(n[j] == name[j] as u8);
        } else if n.len() < j < token.len() - 1 {
            assert(token[j] == digits[j - n.len() - 1]);
            assert(bytes::is_digit(digits[j - n.len() - 1]));
        }
    }
    bytes::lemma_split_first(token, 0x20, tail, ws);
    lemma_nonempty_first(token, bytes::split(tail, ws));
    let words = bytes::nonempty(bytes::split(line, ws));
    assert(words[0] == token);
    let open = n.len() as int;
    assert(token[open] == 0x5b);
    assert forall|j: int| 0 <= j < open implies !Delimiter::Byte(0x5b).matches(
        #[trigger] token[j],
    ) by {
        assert(token[j] == n[j]);
        assert(n[j] == name[j] as u8);
    }
    bytes::lemma_find_is(token, Delimiter::Byte(0x5b), open);
    let key = token.subrange(open + 1, token.len() - 1);
    assert(key =~= digits);
    assert(token.take(open) =~= n);
    assert(token.last() == 0x5d);
    assert forall|j: int| 0 <= j < key.len() implies #[trigger] key[j] != 0x5b && key[j]
        != 0x5d by {
        assert(bytes::is_digit(digits[j]));
    }
    assert(!key.contains(0x5b) && !key.contains(0x5d));
}

proof fn lemma_nonempty_first(first: Seq<u8>, rest: Seq<Seq<u8>>)
    requires
        first.len() > 0,
    ensures
        bytes::nonempty(seq![first] + rest).len() > 0,
        bytes::nonempty(seq![first] + rest)[0] == first,
    decreases rest.len(),
{
    let all = seq![first] + rest;
    if rest.len() == 0 {
        assert(all =~= seq![first]);
        assert(all.drop_last() =~= Seq::<Seq<u8>>::empty());
        assert(bytes::nonempty(all.drop_last()) =~= Seq::<Seq<u8>>::empty());
    } else {
        lemma_nonempty_first(first, rest.drop_last());
        assert(all.drop_last() =~= seq![first] + rest.drop_last());
    }
}

proof fn lemma_listed_line(name: Seq<char>, index: u32, body: Seq<char>)
    requires
        name == "client-detached"@ || name == "client-session-changed"@,
        !text::has_control_char(body),
    ensures
        one_line(text::utf8(hooks::listed(name, index, body))),
{
    reveal_strlit("client-detached");
    reveal_strlit("client-session-changed");
    reveal_strlit("[");
    reveal_strlit("]");
    reveal_strlit(" ");
    let d = text::decimal(index as nat);
    lemma_decimal_control(index as nat);
    lemma_join_control(name, "["@);
    lemma_join_control(name + "["@, d);
    lemma_join_control(name + "["@ + d, "]"@);
    lemma_join_control(name + "["@ + d + "]"@, " "@);
    lemma_join_control(name + "["@ + d + "]"@ + " "@, body);
    lemma_one_line(hooks::listed(name, index, body));
}

/// A listing reads as its lines, and an empty one behind the last line feed.
pub proof fn law_a_listing_reads_as_its_lines(lines: Seq<Seq<u8>>)
    requires
        forall|i: int| 0 <= i < lines.len() ==> one_line(#[trigger] lines[i]),
    ensures
        hooks::hook_lines(listing(lines)) == lines.push(Seq::<u8>::empty()),
        hooks::hook_entry(Seq::<u8>::empty()) == Ok::<Option<HookEntryView>, ()>(None),
{
    let feed = Delimiter::Byte(0x0a);
    let empty = Seq::<u8>::empty();
    lemma_listing_split(lines);
    let raw = bytes::split(listing(lines), feed);
    assert(hooks::hook_lines(listing(lines)) =~= lines.push(empty)) by {
        assert forall|i: int| 0 <= i < raw.len() implies decoder::without_cr(raw[i])
            == #[trigger] lines.push(empty)[i] by {
            if i < lines.len() {
                assert(one_line(lines[i]));
                if lines[i].len() > 0 {
                    assert(lines[i][lines[i].len() - 1] != 0x0d);
                }
            }
        }
    }
    bytes::lemma_split_last(empty, Delimiter::Whitespace);
    assert(bytes::nonempty(seq![empty]) =~= Seq::<Seq<u8>>::empty()) by {
        assert(seq![empty].drop_last() =~= Seq::<Seq<u8>>::empty());
        assert(bytes::nonempty(seq![empty].drop_last()) =~= Seq::<Seq<u8>>::empty());
    }
}

proof fn lemma_listing_split(lines: Seq<Seq<u8>>)
    requires
        forall|i: int| 0 <= i < lines.len() ==> one_line(#[trigger] lines[i]),
    ensures
        bytes::split(listing(lines), Delimiter::Byte(0x0a)) == lines.push(Seq::<u8>::empty()),
    decreases lines.len(),
{
    let feed = Delimiter::Byte(0x0a);
    let empty = Seq::<u8>::empty();
    if lines.len() == 0 {
        bytes::lemma_split_last(empty, feed);
        assert(lines.push(empty) =~= seq![empty]);
    } else {
        let rest = lines.skip(1);
        assert forall|i: int| 0 <= i < rest.len() implies one_line(#[trigger] rest[i]) by {
            assert(rest[i] == lines[i + 1]);
        }
        lemma_listing_split(rest);
        assert(one_line(lines[0]));
        bytes::lemma_split_first(lines[0], 0x0a, listing(rest), feed);
        assert(seq![lines[0]] + rest.push(empty) =~= lines.push(empty));
    }
}

proof fn lemma_last_at(lines: Seq<Seq<u8>>, name: Seq<u8>, index: u32, i: int)
    requires
        0 <= i < lines.len(),
        hooks::is_entry(lines[i], name, index),
        forall|k: int| i < k < lines.len() ==> !hooks::is_entry(#[trigger] lines[k], name, index),
    ensures
        hooks::last_entry(lines, name, index) == Some(lines[i]),
    decreases lines.len(),
{
    if i < lines.len() - 1 {
        assert(!hooks::is_entry(lines[lines.len() - 1], name, index));
        let front = lines.drop_last();
        assert forall|k: int| i < k < front.len() implies !hooks::is_entry(
            #[trigger] front[k],
            name,
            index,
        ) by {
            assert(front[k] == lines[k]);
        }
        lemma_last_at(front, name, index, i);
    }
}

proof fn lemma_last_none(lines: Seq<Seq<u8>>, name: Seq<u8>, index: u32)
    requires
        forall|k: int| 0 <= k < lines.len() ==> !hooks::is_entry(#[trigger] lines[k], name, index),
    ensures
        hooks::last_entry(lines, name, index) is None,
    decreases lines.len(),
{
    if lines.len() > 0 {
        assert(!hooks::is_entry(lines[lines.len() - 1], name, index));
        let front = lines.drop_last();
        assert forall|k: int| 0 <= k < front.len() implies !hooks::is_entry(
            #[trigger] front[k],
            name,
            index,
        ) by {
            assert(front[k] == lines[k]);
        }
        lemma_last_none(front, name, index);
    }
}

/// The two entries of a listing that holds one line of each.
proof fn lemma_pair(lines: Seq<Seq<u8>>, index: u32, i: int, j: int)
    requires
        0 <= i < lines.len(),
        0 <= j < lines.len(),
        hooks::is_entry(lines[i], hooks::detached_name(), index),
        hooks::is_entry(lines[j], hooks::changed_name(), index),
        only_at(lines, index, i, j),
    ensures
        hooks::last_entry(lines, hooks::detached_name(), index) == Some(lines[i]),
        hooks::last_entry(lines, hooks::changed_name(), index) == Some(lines[j]),
{
    hooks::lemma_names_differ();
    assert forall|k: int| i < k < lines.len() implies !hooks::is_entry(
        #[trigger] lines[k],
        hooks::detached_name(),
        index,
    ) by {
        if k != j {
            assert(!hooks::is_own_entry(lines[k], index));
        }
    }
    assert forall|k: int| j < k < lines.len() implies !hooks::is_entry(
        #[trigger] lines[k],
        hooks::changed_name(),
        index,
    ) by {
        if k != i {
            assert(!hooks::is_own_entry(lines[k], index));
        }
    }
    lemma_last_at(lines, hooks::detached_name(), index, i);
    lemma_last_at(lines, hooks::changed_name(), index, j);
}

/// The lines of an installed pair show it: each is one line of a listing, and
/// its entry is the hook's name with the allocation's index.
pub proof fn law_installed_lines_show_their_hook(
    name: Seq<char>,
    session: Seq<char>,
    window_id: u64,
    index: u32,
)
    requires
        name == "client-detached"@ || name == "client-session-changed"@,
        hooks::hook_body_for_session(session, index, window_id) is Ok,
    ensures
        one_line(installed_line(name, session, window_id, index)),
        shows_hook(
            installed_line(name, session, window_id, index),
            name,
            session,
            window_id,
            index,
        ),
{
    let target = quote::window_target_text(session, window_id)->Ok_0;
    let scope = quote::session_target_text(session)->Ok_0;
    let body = hooks::hook_body(target, scope, index);
    quote::law_quoted_argument_reads_back("="@ + session + ":@"@ + text::decimal(window_id as nat));
    quote::law_quoted_argument_reads_back("="@ + session);
    lemma_body_control(target, scope, index);
    lemma_listed_line(name, index, body);
    lemma_listed_entry(name, index, body);
}

/// A recovery pair that was installed for a session and window is owned, for
/// every session that can be targeted: in either order, however tmux quotes
/// it, and whatever well-formed lines of other hooks stand around it.
pub proof fn law_installed_hooks_are_owned(
    hooks: Seq<u8>,
    session: Seq<char>,
    window_id: u64,
    index: u32,
    i: int,
    j: int,
)
    requires
        hooks::hook_body_for_session(session, index, window_id) is Ok,
        !hooks::malformed(hooks::hook_lines(hooks)),
        0 <= i < hooks::hook_lines(hooks).len(),
        0 <= j < hooks::hook_lines(hooks).len(),
        shows_hook(hooks::hook_lines(hooks)[i], "client-detached"@, session, window_id, index),
        shows_hook(
            hooks::hook_lines(hooks)[j],
            "client-session-changed"@,
            session,
            window_id,
            index,
        ),
        only_at(hooks::hook_lines(hooks), index, i, j),
    ensures
        hooks::hooks_state(hooks, index, session, window_id) == Ok::<ZoomRecoveryHookState, ()>(
            ZoomRecoveryHookState::Owned,
        ),
{
    lemma_pair(hooks::hook_lines(hooks), index, i, j);
}

/// One hook of a pair alone is no pair of ours, whatever it runs.
pub proof fn law_half_a_pair_is_replaced(
    hooks: Seq<u8>,
    session: Seq<char>,
    window_id: u64,
    index: u32,
    i: int,
)
    requires
        hooks::hook_body_for_session(session, index, window_id) is Ok,
        !hooks::malformed(hooks::hook_lines(hooks)),
        0 <= i < hooks::hook_lines(hooks).len(),
        hooks::is_own_entry(hooks::hook_lines(hooks)[i], index),
        only_at(hooks::hook_lines(hooks), index, i, i),
    ensures
        hooks::hooks_state(hooks, index, session, window_id) == Ok::<ZoomRecoveryHookState, ()>(
            ZoomRecoveryHookState::Replaced,
        ),
{
    let lines = hooks::hook_lines(hooks);
    let (here, other) = if hooks::is_entry(lines[i], hooks::detached_name(), index) {
        (hooks::detached_name(), hooks::changed_name())
    } else {
        (hooks::changed_name(), hooks::detached_name())
    };
    hooks::lemma_names_differ();
    assert forall|k: int| 0 <= k < lines.len() implies !hooks::is_entry(
        #[trigger] lines[k],
        other,
        index,
    ) by {
        if k != i {
            assert(!hooks::is_own_entry(lines[k], index));
        }
    }
    assert forall|k: int| i < k < lines.len() implies !hooks::is_entry(
        #[trigger] lines[k],
        here,
        index,
    ) by {
        assert(!hooks::is_own_entry(lines[k], index));
    }
    lemma_last_none(lines, other, index);
    lemma_last_at(lines, here, index, i);
}

/// A pair of which one hook restores another window is not ours: it is
/// replaced, and never taken for the pair of the window asked for.
pub proof fn law_hooks_of_another_window_are_replaced(
    hooks: Seq<u8>,
    session: Seq<char>,
    window_id: u64,
    detached_window: u64,
    changed_window: u64,
    index: u32,
    i: int,
    j: int,
)
    requires
        detached_window != window_id || changed_window != window_id,
        hooks::hook_body_for_session(session, index, window_id) is Ok,
        hooks::hook_body_for_session(session, index, detached_window) is Ok,
        hooks::hook_body_for_session(session, index, changed_window) is Ok,
        !hooks::malformed(hooks::hook_lines(hooks)),
        0 <= i < hooks::hook_lines(hooks).len(),
        0 <= j < hooks::hook_lines(hooks).len(),
        shows_hook(
            hooks::hook_lines(hooks)[i],
            "client-detached"@,
            session,
            detached_window,
            index,
        ),
        shows_hook(
            hooks::hook_lines(hooks)[j],
            "client-session-changed"@,
            session,
            changed_window,
            index,
        ),
        only_at(hooks::hook_lines(hooks), index, i, j),
    ensures
        hooks::hooks_state(hooks, index, session, window_id) == Ok::<ZoomRecoveryHookState, ()>(
            ZoomRecoveryHookState::Replaced,
        ),
{
    lemma_pair(hooks::hook_lines(hooks), index, i, j);
    if detached_window != window_id {
        lemma_windows_differ("client-detached"@, session, detached_window, window_id, index);
    } else {
        lemma_windows_differ("client-session-changed"@, session, changed_window, window_id, index);
    }
}

proof fn lemma_windows_differ(name: Seq<char>, session: Seq<char>, a: u64, b: u64, index: u32)
    requires
        a != b,
        hooks::hook_body_for_session(session, index, a) is Ok,
        hooks::hook_body_for_session(session, index, b) is Ok,
    ensures
        hooks::unquoted(installed_line(name, session, a, index)) != hooks::unquoted(
            installed_line(name, session, b, index),
        ),
{
    let (front_a, rest_a) = lemma_window_shown(name, session, a, index);
    let (front_b, rest_b) = lemma_window_shown(name, session, b, index);
    let da = text::utf8(text::decimal(a as nat));
    let db = text::utf8(text::decimal(b as nat));
    let line_a = hooks::unquoted(installed_line(name, session, a, index));
    let line_b = hooks::unquoted(installed_line(name, session, b, index));
    text::law_decimal_reads_back(a as nat, u64::MAX as nat);
    text::law_decimal_reads_back(b as nat, u64::MAX as nat);
    if line_a == line_b {
        let n = front_a.len() as int;
        let tail = line_a.skip(n);
        assert(tail =~= da + seq![0x20u8] + rest_a);
        assert(tail =~= db + seq![0x20u8] + rest_b);
        let space = Delimiter::Byte(0x20);
        assert forall|k: int| 0 <= k < da.len() implies !space.matches(#[trigger] tail[k]) by {
            assert(tail[k] == da[k]);
            assert(bytes::is_digit(da[k]));
        }
        assert forall|k: int| 0 <= k < db.len() implies !space.matches(#[trigger] tail[k]) by {
            assert(tail[k] == db[k]);
            assert(bytes::is_digit(db[k]));
        }
        assert(tail[da.len() as int] == 0x20 && tail[db.len() as int] == 0x20);
        bytes::lemma_find_is(tail, space, da.len() as int);
        bytes::lemma_find_is(tail, space, db.len() as int);
        assert(da =~= tail.take(da.len() as int));
        assert(db =~= tail.take(db.len() as int));
        assert(false);
    }
}

/// What stands in front of the window's number in a line of the session, apart
/// from quotes.
spec fn before_window(name: Seq<char>, session: Seq<char>, index: u32) -> Seq<u8> {
    hooks::unquoted(
        text::utf8(
            name + "["@ + text::decimal(index as nat) + "]"@ + " "@ + "if-shell -F -t "@ + (seq![
                '\'',
            ] + quote::quoted_chars("="@ + session + ":@"@)),
        ),
    )
}

/// Apart from quotes, the window's number stands between a front that does not
/// depend on it and a space.
proof fn lemma_window_shown(name: Seq<char>, session: Seq<char>, window_id: u64, index: u32) -> (r: (
    Seq<u8>,
    Seq<u8>,
))
    requires
        hooks::hook_body_for_session(session, index, window_id) is Ok,
    ensures
        r.0 == before_window(name, session, index),
        hooks::unquoted(installed_line(name, session, window_id, index)) == r.0 + text::utf8(
            text::decimal(window_id as nat),
        ) + seq![0x20u8] + r.1,
{
    let w = text::decimal(window_id as nat);
    let target = quote::window_target_text(session, window_id)->Ok_0;
    let scope = quote::session_target_text(session)->Ok_0;
    let head = name + "["@ + text::decimal(index as nat) + "]"@ + " "@ + "if-shell -F -t "@;
    let named = quote::quoted_chars("="@ + session + ":@"@);
    lemma_decimal_plain(window_id as nat);
    lemma_quoted_digits("="@ + session + ":@"@, w);
    let front = head + (seq!['\''] + named);
    let flag = "\"#{window_zoomed_flag}\" \"resize-pane -Z -t "@;
    let rest = flag + target + "\""@ + " ; "@ + hooks::remove_pair(scope, index);
    reveal_strlit(" \"#{window_zoomed_flag}\" \"resize-pane -Z -t ");
    reveal_strlit("\"#{window_zoomed_flag}\" \"resize-pane -Z -t ");
    assert(" \"#{window_zoomed_flag}\" \"resize-pane -Z -t "@ =~= seq![' '] + flag);
    assert(target =~= seq!['\''] + named + w + seq!['\'']);
    let line = hooks::listed(name, index, hooks::hook_body(target, scope, index));
    assert(line =~= front + w + (seq!['\''] + (seq![' '] + rest)));
    lemma_bare_join(front + w, seq!['\''] + (seq![' '] + rest));
    lemma_bare_join(front, w);
    lemma_bare_join(seq!['\''], seq![' '] + rest);
    lemma_bare_join(seq![' '], rest);
    lemma_plain_literal(w);
    lemma_plain_literal(seq![' ']);
    text::lemma_utf8_ascii(seq![' ']);
    text::lemma_utf8_ascii(seq!['\'']);
    assert(text::utf8(seq![' ']) =~= seq![0x20u8]);
    assert(text::utf8(seq!['\'']) =~= seq![0x27u8]);
    assert(hooks::unquoted(seq![0x27u8]) =~= Seq::<u8>::empty()) by {
        assert(seq![0x27u8].drop_last() =~= Seq::<u8>::empty());
        assert(hooks::unquoted(Seq::<u8>::empty()) =~= Seq::<u8>::empty());
    }
    let tail = hooks::unquoted(text::utf8(rest));
    let shown = hooks::unquoted(text::utf8(front));
    assert(hooks::unquoted(text::utf8(line)) =~= shown + text::utf8(w) + seq![0x20u8] + tail);
    (shown, tail)
}

proof fn lemma_quoted_digits(front: Seq<char>, digits: Seq<char>)
    requires
        forall|i: int| 0 <= i < digits.len() ==> '0' <= #[trigger] digits[i] <= '9',
    ensures
        quote::quoted_chars(front + digits) == quote::quoted_chars(front) + digits,
    decreases digits.len(),
{
    if digits.len() == 0 {
        assert(front + digits =~= front);
        assert(quote::quoted_chars(front) + digits =~= quote::quoted_chars(front));
    } else {
        let less = digits.drop_last();
        assert forall|i: int| 0 <= i < less.len() implies '0' <= #[trigger] less[i] <= '9' by {
            assert(less[i] == digits[i]);
        }
        lemma_quoted_digits(front, less);
        assert((front + digits).drop_last() =~= front + less);
        assert('0' <= digits[digits.len() - 1] <= '9');
        assert(quote::quoted_char(digits.last()) == seq![digits.last()]);
        assert(quote::quoted_chars(front) + less + seq![digits.last()] =~= quote::quoted_chars(
            front,
        ) + digits);
    }
}

} // verus!
