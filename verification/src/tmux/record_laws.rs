//! What the records of sessions, windows and panes are read as.

use vstd::prelude::*;
use vstd::string::*;
use vstd::utf8::*;

use crate::bytes;
use crate::bytes::Delimiter;
use crate::text;
use crate::tmux::commands;
use crate::tmux::error::DecodeError;
use crate::tmux::escape;
use crate::tmux::format_laws::{
    expanded, last_quoted, lemma_format_field, lemma_listing_fields, lemma_since_quote, listing,
};
use crate::tmux::ids;
use crate::tmux::quote;
use crate::tmux::records;
use crate::tmux::records::{
    PaneInfoView, SessionEpochView, SessionIdentityView, WindowInfoView, WindowTopologyView,
};

verus! {

#[verifier::spinoff_prover]
#[verifier::rlimit(60)]
proof fn lemma_pane_values(env: Map<Seq<char>, Seq<char>>)
    ensures
        expanded(
            env,
            "#{window_id}\t#{pane_id}\t#{pane_index}\t#{pane_active}\t#{pane_width}\t#{pane_height}\t#{q:pane_title}\t#{window_zoomed_flag}\t#{window_active}"@,
        ) == listing(pane_values(env), '\t'),
        !"#{window_id}\t#{pane_id}\t#{pane_index}\t#{pane_active}\t#{pane_width}\t#{pane_height}\t#{q:pane_title}\t#{window_zoomed_flag}\t#{window_active}"@.contains(
            '\'',
        ),
{
    let f = "#{window_id}\t#{pane_id}\t#{pane_index}\t#{pane_active}\t#{pane_width}\t#{pane_height}\t#{q:pane_title}\t#{window_zoomed_flag}\t#{window_active}"@;
    reveal_strlit(
        "#{window_id}\t#{pane_id}\t#{pane_index}\t#{pane_active}\t#{pane_width}\t#{pane_height}\t#{q:pane_title}\t#{window_zoomed_flag}\t#{window_active}",
    );
    let values = pane_values(env);
    assert(f.subrange(122, 135) =~= "window_active"@) by {
        reveal_strlit("window_active");
    }
    lemma_format_field(env, f, 120, 13, values, 8, '\t');
    assert(f.subrange(100, 118) =~= "window_zoomed_flag"@) by {
        reveal_strlit("window_zoomed_flag");
    }
    lemma_format_field(env, f, 98, 18, values, 7, '\t');
    assert(f.subrange(84, 96) =~= "q:pane_title"@) by {
        reveal_strlit("q:pane_title");
    }
    lemma_format_field(env, f, 82, 12, values, 6, '\t');
    assert(f.subrange(69, 80) =~= "pane_height"@) by {
        reveal_strlit("pane_height");
    }
    lemma_format_field(env, f, 67, 11, values, 5, '\t');
    assert(f.subrange(55, 65) =~= "pane_width"@) by {
        reveal_strlit("pane_width");
    }
    lemma_format_field(env, f, 53, 10, values, 4, '\t');
    assert(f.subrange(40, 51) =~= "pane_active"@) by {
        reveal_strlit("pane_active");
    }
    lemma_format_field(env, f, 38, 11, values, 3, '\t');
    assert(f.subrange(26, 36) =~= "pane_index"@) by {
        reveal_strlit("pane_index");
    }
    lemma_format_field(env, f, 24, 10, values, 2, '\t');
    assert(f.subrange(15, 22) =~= "pane_id"@) by {
        reveal_strlit("pane_id");
    }
    lemma_format_field(env, f, 13, 7, values, 1, '\t');
    assert(f.subrange(2, 11) =~= "window_id"@) by {
        reveal_strlit("window_id");
    }
    lemma_format_field(env, f, 0, 9, values, 0, '\t');
    assert(f.skip(0) =~= f);
    assert(values.skip(0) =~= values);
}

spec fn pane_values(env: Map<Seq<char>, Seq<char>>) -> Seq<Seq<char>> {
    seq![
        env["window_id"@],
        env["pane_id"@],
        env["pane_index"@],
        env["pane_active"@],
        env["pane_width"@],
        env["pane_height"@],
        env["q:pane_title"@],
        env["window_zoomed_flag"@],
        env["window_active"@],
    ]
}

#[verifier::spinoff_prover]
#[verifier::rlimit(60)]
proof fn lemma_window_values(env: Map<Seq<char>, Seq<char>>)
    ensures
        expanded(
            env,
            "#{window_id}\t#{q:window_name}"@,
        ) == listing(window_values(env), '\t'),
        !"#{window_id}\t#{q:window_name}"@.contains(
            '\'',
        ),
{
    let f = "#{window_id}\t#{q:window_name}"@;
    reveal_strlit(
        "#{window_id}\t#{q:window_name}",
    );
    let values = window_values(env);
    assert(f.subrange(15, 28) =~= "q:window_name"@) by {
        reveal_strlit("q:window_name");
    }
    lemma_format_field(env, f, 13, 13, values, 1, '\t');
    assert(f.subrange(2, 11) =~= "window_id"@) by {
        reveal_strlit("window_id");
    }
    lemma_format_field(env, f, 0, 9, values, 0, '\t');
    assert(f.skip(0) =~= f);
    assert(values.skip(0) =~= values);
}

spec fn window_values(env: Map<Seq<char>, Seq<char>>) -> Seq<Seq<char>> {
    seq![
        env["window_id"@],
        env["q:window_name"@],
    ]
}

#[verifier::spinoff_prover]
#[verifier::rlimit(60)]
proof fn lemma_topology_values(env: Map<Seq<char>, Seq<char>>)
    ensures
        expanded(
            env,
            "#{session_id}\t#{q:session_name}\t#{window_id}\t#{window_linked_sessions}"@,
        ) == listing(topology_values(env), '\t'),
        !"#{session_id}\t#{q:session_name}\t#{window_id}\t#{window_linked_sessions}"@.contains(
            '\'',
        ),
{
    let f = "#{session_id}\t#{q:session_name}\t#{window_id}\t#{window_linked_sessions}"@;
    reveal_strlit(
        "#{session_id}\t#{q:session_name}\t#{window_id}\t#{window_linked_sessions}",
    );
    let values = topology_values(env);
    assert(f.subrange(47, 69) =~= "window_linked_sessions"@) by {
        reveal_strlit("window_linked_sessions");
    }
    lemma_format_field(env, f, 45, 22, values, 3, '\t');
    assert(f.subrange(34, 43) =~= "window_id"@) by {
        reveal_strlit("window_id");
    }
    lemma_format_field(env, f, 32, 9, values, 2, '\t');
    assert(f.subrange(16, 30) =~= "q:session_name"@) by {
        reveal_strlit("q:session_name");
    }
    lemma_format_field(env, f, 14, 14, values, 1, '\t');
    assert(f.subrange(2, 12) =~= "session_id"@) by {
        reveal_strlit("session_id");
    }
    lemma_format_field(env, f, 0, 10, values, 0, '\t');
    assert(f.skip(0) =~= f);
    assert(values.skip(0) =~= values);
}

spec fn topology_values(env: Map<Seq<char>, Seq<char>>) -> Seq<Seq<char>> {
    seq![
        env["session_id"@],
        env["q:session_name"@],
        env["window_id"@],
        env["window_linked_sessions"@],
    ]
}

#[verifier::spinoff_prover]
#[verifier::rlimit(60)]
proof fn lemma_session_values(env: Map<Seq<char>, Seq<char>>)
    ensures
        expanded(
            env,
            "#{session_id}|#{q:session_name}|#{pid}|#{start_time}"@,
        ) == listing(session_values(env), '|'),
        !"#{session_id}|#{q:session_name}|#{pid}|#{start_time}"@.contains(
            '\'',
        ),
{
    let f = "#{session_id}|#{q:session_name}|#{pid}|#{start_time}"@;
    reveal_strlit(
        "#{session_id}|#{q:session_name}|#{pid}|#{start_time}",
    );
    let values = session_values(env);
    assert(f.subrange(41, 51) =~= "start_time"@) by {
        reveal_strlit("start_time");
    }
    lemma_format_field(env, f, 39, 10, values, 3, '|');
    assert(f.subrange(34, 37) =~= "pid"@) by {
        reveal_strlit("pid");
    }
    lemma_format_field(env, f, 32, 3, values, 2, '|');
    assert(f.subrange(16, 30) =~= "q:session_name"@) by {
        reveal_strlit("q:session_name");
    }
    lemma_format_field(env, f, 14, 14, values, 1, '|');
    assert(f.subrange(2, 12) =~= "session_id"@) by {
        reveal_strlit("session_id");
    }
    lemma_format_field(env, f, 0, 10, values, 0, '|');
    assert(f.skip(0) =~= f);
    assert(values.skip(0) =~= values);
}

spec fn session_values(env: Map<Seq<char>, Seq<char>>) -> Seq<Seq<char>> {
    seq![
        env["session_id"@],
        env["q:session_name"@],
        env["pid"@],
        env["start_time"@],
    ]
}

#[verifier::spinoff_prover]
#[verifier::rlimit(60)]
proof fn lemma_epoch_values(env: Map<Seq<char>, Seq<char>>)
    ensures
        expanded(
            env,
            "#{session_id}|#{pid}|#{start_time}"@,
        ) == listing(epoch_values(env), '|'),
        !"#{session_id}|#{pid}|#{start_time}"@.contains(
            '\'',
        ),
{
    let f = "#{session_id}|#{pid}|#{start_time}"@;
    reveal_strlit(
        "#{session_id}|#{pid}|#{start_time}",
    );
    let values = epoch_values(env);
    assert(f.subrange(23, 33) =~= "start_time"@) by {
        reveal_strlit("start_time");
    }
    lemma_format_field(env, f, 21, 10, values, 2, '|');
    assert(f.subrange(16, 19) =~= "pid"@) by {
        reveal_strlit("pid");
    }
    lemma_format_field(env, f, 14, 3, values, 1, '|');
    assert(f.subrange(2, 12) =~= "session_id"@) by {
        reveal_strlit("session_id");
    }
    lemma_format_field(env, f, 0, 10, values, 0, '|');
    assert(f.skip(0) =~= f);
    assert(values.skip(0) =~= values);
}

spec fn epoch_values(env: Map<Seq<char>, Seq<char>>) -> Seq<Seq<char>> {
    seq![
        env["session_id"@],
        env["pid"@],
        env["start_time"@],
    ]
}

/// A number with a sigil in front of it.
pub open spec fn sigiled(sigil: char, n: nat) -> Seq<char> {
    seq![sigil] + text::decimal(n)
}

/// A flag as tmux prints it.
pub open spec fn printed(flag: bool) -> Seq<char> {
    if flag {
        seq!['1']
    } else {
        seq!['0']
    }
}

proof fn lemma_number(n: nat, max: nat, other: u8)
    requires
        n <= max,
        !bytes::is_digit(other),
    ensures
        bytes::decimal_number(text::utf8(text::decimal(n)), max) == Some(n),
        bytes::signed_decimal_number(text::utf8(text::decimal(n)), max) == Some(n),
        !text::utf8(text::decimal(n)).contains(other),
{
    text::law_decimal_reads_back(n, max);
    let u = text::utf8(text::decimal(n));
    assert(bytes::is_digit(u[0]));
    if u.contains(other) {
        let i = choose|i: int| 0 <= i < u.len() && u[i] == other;
        assert(bytes::is_digit(u[i]));
    }
}

pub proof fn lemma_sigiled(sigil: char, n: u64, other: u8)
    requires
        sigil < '\u{80}',
        !bytes::is_digit(other),
        sigil as u8 != other,
    ensures
        ids::sigil_number(text::utf8(sigiled(sigil, n as nat)), sigil as u8) == Some(n as nat),
        !text::utf8(sigiled(sigil, n as nat)).contains(other),
{
    let d = text::decimal(n as nat);
    lemma_number(n as nat, u64::MAX as nat, other);
    text::lemma_utf8_join(seq![sigil], d);
    text::lemma_utf8_ascii(seq![sigil]);
    assert(text::utf8(seq![sigil]) =~= seq![sigil as u8]);
    let s = seq![sigil as u8] + text::utf8(d);
    assert(s.skip(1) =~= text::utf8(d));
    if s.contains(other) {
        let i = choose|i: int| 0 <= i < s.len() && s[i] == other;
        assert(text::utf8(d)[i - 1] == other);
    }
}

proof fn lemma_printed(flag: bool)
    ensures
        records::flag(text::utf8(printed(flag))) == Some(flag),
        !text::utf8(printed(flag)).contains(0x09),
{
    text::lemma_utf8_ascii(printed(flag));
    assert(text::utf8(printed(flag)) =~= seq![
        if flag {
            0x31u8
        } else {
            0x30u8
        },
    ]);
    assert(seq![0x31u8][0] != seq![0x30u8][0]);
}

/// The last argument of a command that ends in a quoted format.
proof fn lemma_last_argument(front: Seq<char>, format: Seq<char>)
    requires
        !format.contains('\''),
    ensures
        last_quoted(front + (seq!['\''] + format + seq!['\''])) == format,
{
    let all = front + (seq!['\''] + format + seq!['\'']);
    assert(all.drop_last() =~= (front + seq!['\'']) + format);
    lemma_since_quote(front + seq!['\''], format);
}

/// A listing of panes is asked for as it is read: each pane comes back with its
/// window, its place, its size, its flags and its title.
pub proof fn law_panes_are_read_as_they_are_listed(
    session: Seq<char>,
    env: Map<Seq<char>, Seq<char>>,
    pane: PaneInfoView,
    title: Seq<char>,
)
    requires
        commands::list_panes_for_session_text(session) is Ok,
        env["window_id"@] == sigiled('@', pane.window_id as nat),
        env["pane_id"@] == sigiled('%', pane.pane_id as nat),
        env["pane_index"@] == text::decimal(pane.index as nat),
        env["pane_active"@] == printed(pane.active),
        env["pane_width"@] == text::decimal(pane.columns as nat),
        env["pane_height"@] == text::decimal(pane.rows as nat),
        env["q:pane_title"@] == title,
        env["window_zoomed_flag"@] == printed(pane.zoomed),
        env["window_active"@] == printed(pane.window_active),
        !text::utf8(title).contains(0x09),
        pane.title == text::lossy_text(escape::quoted_decoded(text::utf8(title))),
        pane.pane_name == pane.title,
    ensures
        records::pane_line(
            text::utf8(
                expanded(env, last_quoted(commands::list_panes_for_session_text(session)->Ok_0)),
            ),
        ) == Ok::<PaneInfoView, DecodeError>(pane),
{
    let f = "#{window_id}\t#{pane_id}\t#{pane_index}\t#{pane_active}\t#{pane_width}\t#{pane_height}\t#{q:pane_title}\t#{window_zoomed_flag}\t#{window_active}"@;
    lemma_pane_values(env);
    let target = quote::session_target_text(session)->Ok_0;
    let quoted = " -F '#{window_id}\t#{pane_id}\t#{pane_index}\t#{pane_active}\t#{pane_width}\t#{pane_height}\t#{q:pane_title}\t#{window_zoomed_flag}\t#{window_active}'"@;
    assert(quoted =~= seq![' ', '-', 'F', ' '] + (seq!['\''] + f + seq!['\''])) by {
        reveal_strlit(
            " -F '#{window_id}\t#{pane_id}\t#{pane_index}\t#{pane_active}\t#{pane_width}\t#{pane_height}\t#{q:pane_title}\t#{window_zoomed_flag}\t#{window_active}'",
        );
        reveal_strlit(
            "#{window_id}\t#{pane_id}\t#{pane_index}\t#{pane_active}\t#{pane_width}\t#{pane_height}\t#{q:pane_title}\t#{window_zoomed_flag}\t#{window_active}",
        );
    }
    let front = "list-panes -s -t "@ + target;
    assert(front + quoted =~= (front + seq![' ', '-', 'F', ' ']) + (seq!['\''] + f + seq!['\'']));
    lemma_last_argument(front + seq![' ', '-', 'F', ' '], f);
    let values = pane_values(env);
    lemma_sigiled('@', pane.window_id, 0x09);
    lemma_sigiled('%', pane.pane_id, 0x09);
    lemma_number(pane.index as nat, u32::MAX as nat, 0x09);
    lemma_number(pane.columns as nat, u16::MAX as nat, 0x09);
    lemma_number(pane.rows as nat, u16::MAX as nat, 0x09);
    lemma_printed(pane.active);
    lemma_printed(pane.zoomed);
    lemma_printed(pane.window_active);
    assert forall|i: int| 0 <= i < values.len() implies !text::utf8(#[trigger] values[i]).contains(
        '\t' as u8,
    ) by {
        assert(i == 0 || i == 1 || i == 2 || i == 3 || i == 4 || i == 5 || i == 6 || i == 7 || i
            == 8);
    }
    lemma_listing_fields(values, '\t');
    let fields = bytes::split(text::utf8(listing(values, '\t')), Delimiter::Byte(0x09));
    assert(fields[0] == text::utf8(values[0]));
    assert(fields[1] == text::utf8(values[1]));
    assert(fields[2] == text::utf8(values[2]));
    assert(fields[3] == text::utf8(values[3]));
    assert(fields[4] == text::utf8(values[4]));
    assert(fields[5] == text::utf8(values[5]));
    assert(fields[6] == text::utf8(values[6]));
    assert(fields[7] == text::utf8(values[7]));
    assert(fields[8] == text::utf8(values[8]));
}

/// A listing of windows is asked for as it is read.
pub proof fn law_windows_are_read_as_they_are_listed(
    session: Seq<char>,
    env: Map<Seq<char>, Seq<char>>,
    window: u64,
    name: Seq<char>,
)
    requires
        commands::list_windows_for_session_text(session) is Ok,
        env["window_id"@] == sigiled('@', window as nat),
        env["q:window_name"@] == name,
    ensures
        records::window_line(
            text::utf8(
                expanded(env, last_quoted(commands::list_windows_for_session_text(session)->Ok_0)),
            ),
        ) == Ok::<WindowInfoView, DecodeError>(
            WindowInfoView {
                window_id: window,
                name: text::lossy_text(escape::quoted_decoded(text::utf8(name))),
            },
        ),
{
    let f = "#{window_id}\t#{q:window_name}"@;
    lemma_window_values(env);
    let target = quote::session_target_text(session)->Ok_0;
    let quoted = " -F '#{window_id}\t#{q:window_name}'"@;
    assert(quoted =~= seq![' ', '-', 'F', ' '] + (seq!['\''] + f + seq!['\''])) by {
        reveal_strlit(" -F '#{window_id}\t#{q:window_name}'");
        reveal_strlit("#{window_id}\t#{q:window_name}");
    }
    let front = "list-windows -t "@ + target;
    assert(front + quoted =~= (front + seq![' ', '-', 'F', ' ']) + (seq!['\''] + f + seq!['\'']));
    lemma_last_argument(front + seq![' ', '-', 'F', ' '], f);
    let values = window_values(env);
    lemma_sigiled('@', window, 0x09);
    assert(values.skip(1) =~= seq![name]);
    let id = text::utf8(values[0]);
    text::lemma_utf8_join(values[0], seq!['\t'] + name);
    text::lemma_utf8_join(seq!['\t'], name);
    text::lemma_utf8_ascii(seq!['\t']);
    assert(text::utf8(seq!['\t']) =~= seq![0x09u8]);
    let line = id + (seq![0x09u8] + text::utf8(name));
    assert(listing(values, '\t') == values[0] + (seq!['\t'] + listing(values.skip(1), '\t')));
    assert(text::utf8(listing(values, '\t')) == line);
    let at = id.len() as int;
    assert forall|j: int| 0 <= j < at implies !Delimiter::Byte(0x09).matches(
        #[trigger] line[j],
    ) by {
        if line[j] == 0x09 {
            assert(id[j] == 0x09);
        }
    }
    bytes::lemma_find_is(line, Delimiter::Byte(0x09), at);
    assert(line.take(at) =~= id);
    assert(line.skip(at + 1) =~= text::utf8(name));
}

/// The four fields of a line that bars separate.  The name may hold bars.
proof fn lemma_bars(a: Seq<u8>, b: Seq<u8>, c: Seq<u8>, e: Seq<u8>)
    requires
        !a.contains(0x7c),
        !c.contains(0x7c),
        !e.contains(0x7c),
        !a.contains(0x09),
        !b.contains(0x09),
        !c.contains(0x09),
        !e.contains(0x09),
    ensures
        records::identity_fields(
            a + (seq![0x7cu8] + (b + (seq![0x7cu8] + (c + (seq![0x7cu8] + e))))),
        ) == Ok::<Seq<Seq<u8>>, DecodeError>(seq![a, b, c, e]),
{
    let bar = Delimiter::Byte(0x7c);
    let line = a + (seq![0x7cu8] + (b + (seq![0x7cu8] + (c + (seq![0x7cu8] + e)))));
    let p1 = a.len() as int;
    let p2 = p1 + 1 + b.len();
    let p3 = p2 + 1 + c.len();
    assert(line.len() == p3 + 1 + e.len());
    assert(line[p1] == 0x7c && line[p2] == 0x7c && line[p3] == 0x7c);
    assert(!line.contains(0x09)) by {
        if line.contains(0x09) {
            let i = choose|i: int| 0 <= i < line.len() && line[i] == 0x09;
            if i < p1 {
                assert(a[i] == 0x09);
            } else if p1 < i < p2 {
                assert(b[i - p1 - 1] == 0x09);
            } else if p2 < i < p3 {
                assert(c[i - p2 - 1] == 0x09);
            } else if p3 < i {
                assert(e[i - p3 - 1] == 0x09);
            }
        }
    }
    assert forall|j: int| 0 <= j < p1 implies !bar.matches(#[trigger] line[j]) by {
        if line[j] == 0x7c {
            assert(a[j] == 0x7c);
        }
    }
    bytes::lemma_find_is(line, bar, p1);
    bytes::lemma_rfind(line, bar);
    let last = bytes::rfind(line, bar)->0;
    assert(bytes::rfind(line, bar) == Some(p3)) by {
        if bytes::rfind(line, bar) is None {
            assert(!bar.matches(line[p3]));
        } else {
            if last < p3 {
                assert(!bar.matches(line[p3]));
            }
            if last > p3 {
                assert(e[last - p3 - 1] == 0x7c);
            }
        }
    }
    let head = line.take(p3);
    bytes::lemma_rfind(head, bar);
    let middle = bytes::rfind(head, bar)->0;
    assert(head[p2] == 0x7c);
    assert(bytes::rfind(head, bar) == Some(p2)) by {
        if bytes::rfind(head, bar) is None {
            assert(!bar.matches(head[p2]));
        } else {
            if middle < p2 {
                assert(!bar.matches(head[p2]));
            }
            if middle > p2 {
                assert(c[middle - p2 - 1] == 0x7c);
            }
        }
    }
    assert(line.take(p1) =~= a);
    assert(line.subrange(p1 + 1, p2) =~= b);
    assert(line.subrange(p2 + 1, p3) =~= c);
    assert(line.skip(p3 + 1) =~= e);
}

/// The listings of the managed session ask for the same.
pub proof fn law_the_managed_session_is_listed_alike(session: Seq<char>)
    requires
        commands::list_panes_for_session_text(session) is Ok,
        commands::list_windows_for_session_text(session) is Ok,
    ensures
        last_quoted(commands::list_panes_text()) == last_quoted(
            commands::list_panes_for_session_text(session)->Ok_0,
        ),
        last_quoted(commands::list_windows_text()) == last_quoted(
            commands::list_windows_for_session_text(session)->Ok_0,
        ),
{
    let f = "#{window_id}\t#{pane_id}\t#{pane_index}\t#{pane_active}\t#{pane_width}\t#{pane_height}\t#{q:pane_title}\t#{window_zoomed_flag}\t#{window_active}"@;
    let g = "#{window_id}\t#{q:window_name}"@;
    let any = Map::<Seq<char>, Seq<char>>::empty();
    lemma_pane_values(any);
    lemma_window_values(any);
    let target = quote::session_target_text(session)->Ok_0;
    let quoted = " -F '#{window_id}\t#{pane_id}\t#{pane_index}\t#{pane_active}\t#{pane_width}\t#{pane_height}\t#{q:pane_title}\t#{window_zoomed_flag}\t#{window_active}'"@;
    let named = " -F '#{window_id}\t#{q:window_name}'"@;
    let flag = seq![' ', '-', 'F', ' '];
    assert(quoted =~= flag + (seq!['\''] + f + seq!['\''])) by {
        reveal_strlit(
            " -F '#{window_id}\t#{pane_id}\t#{pane_index}\t#{pane_active}\t#{pane_width}\t#{pane_height}\t#{q:pane_title}\t#{window_zoomed_flag}\t#{window_active}'",
        );
        reveal_strlit(
            "#{window_id}\t#{pane_id}\t#{pane_index}\t#{pane_active}\t#{pane_width}\t#{pane_height}\t#{q:pane_title}\t#{window_zoomed_flag}\t#{window_active}",
        );
    }
    assert(named =~= flag + (seq!['\''] + g + seq!['\''])) by {
        reveal_strlit(" -F '#{window_id}\t#{q:window_name}'");
        reveal_strlit("#{window_id}\t#{q:window_name}");
    }
    let front = "list-panes -s -t "@ + target;
    assert(front + quoted =~= (front + flag) + (seq!['\''] + f + seq!['\'']));
    lemma_last_argument(front + flag, f);
    let before = "list-windows -t "@ + target;
    assert(before + named =~= (before + flag) + (seq!['\''] + g + seq!['\'']));
    lemma_last_argument(before + flag, g);
    let head = "list-panes -s -t =meeterm -F "@;
    assert(commands::list_panes_text() =~= head + (seq!['\''] + f + seq!['\''])) by {
        reveal_strlit(
            "list-panes -s -t =meeterm -F '#{window_id}\t#{pane_id}\t#{pane_index}\t#{pane_active}\t#{pane_width}\t#{pane_height}\t#{q:pane_title}\t#{window_zoomed_flag}\t#{window_active}'",
        );
        reveal_strlit(
            "#{window_id}\t#{pane_id}\t#{pane_index}\t#{pane_active}\t#{pane_width}\t#{pane_height}\t#{q:pane_title}\t#{window_zoomed_flag}\t#{window_active}",
        );
        reveal_strlit("list-panes -s -t =meeterm -F ");
    }
    lemma_last_argument(head, f);
    let start = "list-windows -t =meeterm -F "@;
    assert(commands::list_windows_text() =~= start + (seq!['\''] + g + seq!['\''])) by {
        reveal_strlit("list-windows -t =meeterm -F '#{window_id}\t#{q:window_name}'");
        reveal_strlit("#{window_id}\t#{q:window_name}");
        reveal_strlit("list-windows -t =meeterm -F ");
    }
    lemma_last_argument(start, g);
}

/// A session's name reads back from tmux's quoting, whichever bytes are quoted.
pub proof fn law_a_session_name_reads_back(name: Seq<char>, special: Set<u8>)
    requires
        0 < name.len(),
        text::utf8(name).len() <= 4096,
        !text::has_control_char(name),
        !text::utf8(name).contains(0x5c),
        forall|b: u8| escape::is_octal(b) ==> !#[trigger] special.contains(b),
    ensures
        records::session_name(escape::quoted_encoded(text::utf8(name), special)) == Ok::<
            Seq<char>,
            DecodeError,
        >(name),
{
    let u = text::utf8(name);
    escape::law_quoted_name_reads_back(u, special);
    encode_utf8_decode_utf8(name);
    encode_utf8_valid_utf8(name);
    lemma_no_trailing(u, special);
}

proof fn lemma_no_trailing(u: Seq<u8>, special: Set<u8>)
    requires
        !u.contains(0x5c),
    ensures
        records::trailing_slashes(escape::quoted_encoded(u, special)) == 0,
        u.len() > 0 ==> escape::quoted_encoded(u, special).len() > 0,
    decreases u.len(),
{
    if u.len() > 0 {
        let rest = u.skip(1);
        assert(!rest.contains(0x5c)) by {
            if rest.contains(0x5c) {
                let i = choose|i: int| 0 <= i < rest.len() && rest[i] == 0x5c;
                assert(u[i + 1] == 0x5c);
            }
        }
        lemma_no_trailing(rest, special);
        assert(u.contains(u[0]));
        let tail = escape::quoted_encoded(rest, special);
        let all = escape::quoted_encoded(u, special);
        if rest.len() > 0 {
            assert(all.last() == tail.last());
        } else {
            assert(tail =~= Seq::<u8>::empty());
            assert(all.last() == u[0]);
        }
    }
}

/// A listing of sessions, and the answer to a creation, are asked for as they
/// are read: the id, the name, the server's process and its start.
#[verifier::spinoff_prover]
#[verifier::rlimit(40)]
pub proof fn law_sessions_are_read_as_they_are_listed(
    env: Map<Seq<char>, Seq<char>>,
    name: Seq<char>,
    id: u64,
    pid: u64,
    start: u64,
    created: Seq<char>,
)
    requires
        env["session_id"@] == sigiled('$', id as nat),
        env["pid"@] == text::decimal(pid as nat),
        env["start_time"@] == text::decimal(start as nat),
        pid > 0,
        start > 0,
        !text::utf8(env["q:session_name"@]).contains(0x09),
        records::session_name(text::utf8(env["q:session_name"@])) == Ok::<Seq<char>, DecodeError>(
            name,
        ),
        commands::create_session_text(created) is Ok,
    ensures
        ({
            let read = Ok::<SessionIdentityView, DecodeError>(
                SessionIdentityView {
                    session_id: sigiled('$', id as nat),
                    name,
                    server_pid: pid,
                    server_start_time: start,
                },
            );
            &&& records::session_line(
                text::utf8(
                    expanded(
                        env,
                        last_quoted(commands::list_sessions_text()),
                    ),
                ),
            ) == read
            &&& records::session_line(
                text::utf8(
                    expanded(env, last_quoted(commands::create_session_text(created)->Ok_0)),
                ),
            ) == read
        }),
{
    let f = "#{session_id}|#{q:session_name}|#{pid}|#{start_time}"@;
    lemma_session_values(env);
    let lists = "tmux list-sessions -F '#{session_id}|#{q:session_name}|#{pid}|#{start_time}'"@;
    let head = "tmux list-sessions -F "@;
    assert(lists =~= head + (seq!['\''] + f + seq!['\''])) by {
        reveal_strlit(
            "tmux list-sessions -F '#{session_id}|#{q:session_name}|#{pid}|#{start_time}'",
        );
        reveal_strlit("#{session_id}|#{q:session_name}|#{pid}|#{start_time}");
        reveal_strlit("tmux list-sessions -F ");
    }
    lemma_last_argument(head, f);
    let quoted = " -P -F '#{session_id}|#{q:session_name}|#{pid}|#{start_time}'"@;
    let flags = seq![' ', '-', 'P', ' ', '-', 'F', ' '];
    assert(quoted =~= flags + (seq!['\''] + f + seq!['\''])) by {
        reveal_strlit(" -P -F '#{session_id}|#{q:session_name}|#{pid}|#{start_time}'");
        reveal_strlit("#{session_id}|#{q:session_name}|#{pid}|#{start_time}");
    }
    let front = "tmux new-session -d -s "@ + quote::argument(created)->Ok_0;
    assert(front + quoted =~= (front + flags) + (seq!['\''] + f + seq!['\'']));
    lemma_last_argument(front + flags, f);
    lemma_session_read(env, name, id, pid, start);
}

proof fn lemma_session_read(
    env: Map<Seq<char>, Seq<char>>,
    name: Seq<char>,
    id: u64,
    pid: u64,
    start: u64,
)
    requires
        env["session_id"@] == sigiled('$', id as nat),
        env["pid"@] == text::decimal(pid as nat),
        env["start_time"@] == text::decimal(start as nat),
        pid > 0,
        start > 0,
        !text::utf8(env["q:session_name"@]).contains(0x09),
        records::session_name(text::utf8(env["q:session_name"@])) == Ok::<Seq<char>, DecodeError>(
            name,
        ),
    ensures
        records::session_line(text::utf8(listing(session_values(env), '|'))) == Ok::<
            SessionIdentityView,
            DecodeError,
        >(
            SessionIdentityView {
                session_id: sigiled('$', id as nat),
                name,
                server_pid: pid,
                server_start_time: start,
            },
        ),
{
    let values = session_values(env);
    lemma_four(values, '|');
    lemma_sigiled('$', id, 0x7c);
    lemma_sigiled('$', id, 0x09);
    lemma_number(pid as nat, u64::MAX as nat, 0x7c);
    lemma_number(pid as nat, u64::MAX as nat, 0x09);
    lemma_number(start as nat, u64::MAX as nat, 0x7c);
    lemma_number(start as nat, u64::MAX as nat, 0x09);
    lemma_bars(
        text::utf8(values[0]),
        text::utf8(values[1]),
        text::utf8(values[2]),
        text::utf8(values[3]),
    );
    lemma_dollar(id);
}

proof fn lemma_dollar(id: u64)
    ensures
        ids::session_id(text::utf8(sigiled('$', id as nat))) == Ok::<Seq<char>, DecodeError>(
            sigiled('$', id as nat),
        ),
{
    lemma_sigiled('$', id, 0x7c);
    reveal_strlit("$");
    assert("$"@ =~= seq!['$']);
}

/// Four values in bytes.
proof fn lemma_four(values: Seq<Seq<char>>, between: char)
    requires
        values.len() == 4,
        between < '\u{80}',
    ensures
        ({
            let b = seq![between as u8];
            text::utf8(listing(values, between)) == text::utf8(values[0]) + (b + (text::utf8(
                values[1],
            ) + (b + (text::utf8(values[2]) + (b + text::utf8(values[3]))))))
        }),
{
    let v1 = values.skip(1);
    let v2 = v1.skip(1);
    let v3 = v2.skip(1);
    assert(v1[0] == values[1] && v2[0] == values[2] && v3[0] == values[3]);
    assert(v3.len() == 1);
    text::lemma_utf8_ascii(seq![between]);
    assert(text::utf8(seq![between]) =~= seq![between as u8]);
    text::lemma_utf8_join(values[0], seq![between] + listing(v1, between));
    text::lemma_utf8_join(seq![between], listing(v1, between));
    text::lemma_utf8_join(values[1], seq![between] + listing(v2, between));
    text::lemma_utf8_join(seq![between], listing(v2, between));
    text::lemma_utf8_join(values[2], seq![between] + listing(v3, between));
    text::lemma_utf8_join(seq![between], listing(v3, between));
    assert(listing(v3, between) == values[3]);
}

/// The epoch of the attached session is asked for as it is read.
pub proof fn law_an_epoch_is_read_as_it_is_told(
    env: Map<Seq<char>, Seq<char>>,
    id: u64,
    pid: u64,
    start: u64,
)
    requires
        env["session_id"@] == sigiled('$', id as nat),
        env["pid"@] == text::decimal(pid as nat),
        env["start_time"@] == text::decimal(start as nat),
        pid > 0,
        start > 0,
    ensures
        records::session_epoch_line(
            text::utf8(
                expanded(
                    env,
                    last_quoted(commands::attached_session_epoch_text()),
                ),
            ),
        ) == Ok::<SessionEpochView, DecodeError>(
            SessionEpochView {
                session_id: sigiled('$', id as nat),
                server_pid: pid,
                server_start_time: start,
            },
        ),
{
    let f = "#{session_id}|#{pid}|#{start_time}"@;
    lemma_epoch_values(env);
    let asks = "display-message -p '#{session_id}|#{pid}|#{start_time}'"@;
    let head = "display-message -p "@;
    assert(asks =~= head + (seq!['\''] + f + seq!['\''])) by {
        reveal_strlit("display-message -p '#{session_id}|#{pid}|#{start_time}'");
        reveal_strlit("#{session_id}|#{pid}|#{start_time}");
        reveal_strlit("display-message -p ");
    }
    lemma_last_argument(head, f);
    let values = epoch_values(env);
    lemma_sigiled('$', id, 0x7c);
    lemma_number(pid as nat, u64::MAX as nat, 0x7c);
    lemma_number(start as nat, u64::MAX as nat, 0x7c);
    assert forall|i: int| 0 <= i < values.len() implies !text::utf8(#[trigger] values[i]).contains(
        '|' as u8,
    ) by {
        assert(i == 0 || i == 1 || i == 2);
    }
    lemma_listing_fields(values, '|');
    let line = text::utf8(listing(values, '|'));
    let fields = bytes::split(line, Delimiter::Byte(0x7c));
    assert(fields[0] == text::utf8(values[0]));
    assert(fields[1] == text::utf8(values[1]));
    assert(fields[2] == text::utf8(values[2]));
    lemma_dollar(id);
    lemma_digits(id as nat);
    lemma_digits(pid as nat);
    lemma_digits(start as nat);
    let v1 = values.skip(1);
    let v2 = v1.skip(1);
    assert(v1[0] == values[1] && v2[0] == values[2] && v2.len() == 1);
    text::lemma_utf8_ascii(seq!['|']);
    text::lemma_utf8_ascii(seq!['$']);
    text::lemma_utf8_join(seq!['$'], text::decimal(id as nat));
    text::lemma_utf8_join(values[0], seq!['|'] + listing(v1, '|'));
    text::lemma_utf8_join(seq!['|'], listing(v1, '|'));
    text::lemma_utf8_join(values[1], seq!['|'] + listing(v2, '|'));
    text::lemma_utf8_join(seq!['|'], listing(v2, '|'));
    assert(line.len() <= 63 + 2);
}

/// A number of sixty-four bits has at most twenty digits.
proof fn lemma_digits(n: nat)
    requires
        n <= u64::MAX,
    ensures
        0 < text::utf8(text::decimal(n)).len() <= 20,
{
    assert(tens(20) == 100_000_000_000_000_000_000) by {
        reveal_with_fuel(tens, 21);
    }
    lemma_digits_bound(n, 20);
    lemma_decimal_ascii(n);
    text::lemma_utf8_ascii(text::decimal(n));
}

proof fn lemma_decimal_ascii(n: nat)
    ensures
        is_ascii_chars(text::decimal(n)),
        text::decimal(n).len() > 0,
    decreases n,
{
    if n >= 10 {
        lemma_decimal_ascii(n / 10);
    }
}

spec fn tens(k: nat) -> nat
    decreases k,
{
    if k == 0 {
        1
    } else {
        10 * tens((k - 1) as nat)
    }
}

proof fn lemma_digits_bound(n: nat, k: nat)
    requires
        n < tens(k),
        k > 0,
    ensures
        text::decimal(n).len() <= k,
    decreases k,
{
    if n >= 10 {
        assert(tens(0) == 1);
        assert(k > 1);
        lemma_digits_bound(n / 10, (k - 1) as nat);
    }
}

/// The listing of every window is asked for as it is read.
pub proof fn law_topology_is_read_as_it_is_listed(
    env: Map<Seq<char>, Seq<char>>,
    name: Seq<char>,
    id: u64,
    window: u64,
    linked: u32,
)
    requires
        env["session_id"@] == sigiled('$', id as nat),
        env["window_id"@] == sigiled('@', window as nat),
        env["window_linked_sessions"@] == text::decimal(linked as nat),
        linked > 0,
        !text::utf8(env["q:session_name"@]).contains(0x09),
        records::session_name(text::utf8(env["q:session_name"@])) == Ok::<Seq<char>, DecodeError>(
            name,
        ),
    ensures
        records::topology_line(
            text::utf8(
                expanded(
                    env,
                    last_quoted(commands::list_topology_text()),
                ),
            ),
        ) == Ok::<WindowTopologyView, DecodeError>(
            WindowTopologyView {
                session_id: sigiled('$', id as nat),
                session_name: name,
                window_id: window,
                linked_sessions: linked,
            },
        ),
{
    let f = "#{session_id}\t#{q:session_name}\t#{window_id}\t#{window_linked_sessions}"@;
    lemma_topology_values(env);
    let asks = "list-windows -a -F '#{session_id}\t#{q:session_name}\t#{window_id}\t#{window_linked_sessions}'"@;
    let head = "list-windows -a -F "@;
    assert(asks =~= head + (seq!['\''] + f + seq!['\''])) by {
        reveal_strlit(
            "list-windows -a -F '#{session_id}\t#{q:session_name}\t#{window_id}\t#{window_linked_sessions}'",
        );
        reveal_strlit("#{session_id}\t#{q:session_name}\t#{window_id}\t#{window_linked_sessions}");
        reveal_strlit("list-windows -a -F ");
    }
    lemma_last_argument(head, f);
    let values = topology_values(env);
    lemma_sigiled('$', id, 0x09);
    lemma_sigiled('@', window, 0x09);
    lemma_number(linked as nat, u32::MAX as nat, 0x09);
    assert forall|i: int| 0 <= i < values.len() implies !text::utf8(#[trigger] values[i]).contains(
        '\t' as u8,
    ) by {
        assert(i == 0 || i == 1 || i == 2 || i == 3);
    }
    lemma_listing_fields(values, '\t');
    lemma_four(values, '\t');
    let line = text::utf8(listing(values, '\t'));
    assert(line[text::utf8(values[0]).len() as int] == 0x09);
    let fields = bytes::split(line, Delimiter::Byte(0x09));
    assert(fields[0] == text::utf8(values[0]));
    assert(fields[1] == text::utf8(values[1]));
    assert(fields[2] == text::utf8(values[2]));
    assert(fields[3] == text::utf8(values[3]));
    lemma_dollar(id);
}

} // verus!
