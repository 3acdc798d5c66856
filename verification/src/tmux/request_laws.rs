//! What the commands that change sessions, windows and panes are made of.

use vstd::prelude::*;
use vstd::string::*;

use crate::text;
use crate::tmux::command_laws;
use crate::tmux::command_laws::{pane_name, session_pane, session_window, window_name, Quote};
use crate::tmux::commands;
use crate::tmux::hook_run_laws;
use crate::tmux::hook_run_laws::reads;
use crate::tmux::quote;

verus! {

/// Words, each with a blank behind it.
spec fn spaced(words: Seq<Seq<char>>) -> Seq<char>
    decreases words.len(),
{
    if words.len() == 0 {
        seq![]
    } else {
        words[0] + (seq![' '] + spaced(words.skip(1)))
    }
}

spec fn all_plain(words: Seq<Seq<char>>) -> bool {
    forall|i: int|
        0 <= i < words.len() ==> command_laws::plain(#[trigger] words[i]) && words[i].len() > 0
}

/// Words in front of the words of a single command.
spec fn in_front(words: Seq<Seq<char>>, rest: Option<Seq<Seq<Seq<char>>>>) -> Option<
    Seq<Seq<Seq<char>>>,
>
    decreases words.len(),
{
    if words.len() == 0 {
        rest
    } else {
        command_laws::with_word(words[0], in_front(words.skip(1), rest))
    }
}

proof fn lemma_spaced(words: Seq<Seq<char>>, rest: Seq<char>)
    requires
        all_plain(words),
    ensures
        command_laws::scanned(spaced(words) + rest, Quote::Outside, None) == in_front(
            words,
            command_laws::scanned(rest, Quote::Outside, None),
        ),
    decreases words.len(),
{
    if words.len() == 0 {
        assert(spaced(words) + rest =~= rest);
    } else {
        let more = words.skip(1);
        assert forall|i: int| 0 <= i < more.len() implies command_laws::plain(#[trigger] more[i])
            && more[i].len() > 0 by {
            assert(more[i] == words[i + 1]);
        }
        assert(command_laws::plain(words[0]));
        lemma_spaced(more, rest);
        command_laws::lemma_word(words[0], spaced(more) + rest);
        assert(spaced(words) + rest =~= words[0] + (seq![' '] + (spaced(more) + rest)));
    }
}

proof fn lemma_in_front(words: Seq<Seq<char>>, c: Seq<Seq<char>>)
    ensures
        in_front(words, Some(seq![c])) == Some(seq![words + c]),
    decreases words.len(),
{
    let none = Seq::<Seq<Seq<char>>>::empty();
    if words.len() == 0 {
        assert(words + c =~= c);
    } else {
        lemma_in_front(words.skip(1), c);
        let rest = words.skip(1) + c;
        assert(seq![rest] =~= seq![rest] + none);
        command_laws::lemma_put(words[0], rest, none);
        assert(seq![words[0]] + rest =~= words + c);
        assert(seq![words + c] + none =~= seq![words + c]);
    }
}

/// A line of plain words and one last argument.
proof fn lemma_one(words: Seq<Seq<char>>, t: Seq<char>, v: Seq<char>)
    requires
        all_plain(words),
        reads(t, v),
    ensures
        command_laws::commands_of(spaced(words) + t) == Some(seq![words.push(v)]),
{
    let none = Seq::<char>::empty();
    lemma_spaced(words, t);
    assert(t + none =~= t);
    assert(command_laws::scanned(t + none, Quote::Outside, None) == command_laws::scanned(
        none,
        Quote::Outside,
        Some(v),
    ));
    command_laws::lemma_last(v);
    lemma_in_front(words, seq![v]);
    assert(words + seq![v] =~= words.push(v));
}

/// A line of plain words, an argument, more plain words and a last argument.
proof fn lemma_two(
    words: Seq<Seq<char>>,
    t: Seq<char>,
    v: Seq<char>,
    more: Seq<Seq<char>>,
    u: Seq<char>,
    w: Seq<char>,
)
    requires
        all_plain(words),
        all_plain(more),
        reads(t, v),
        reads(u, w),
    ensures
        command_laws::commands_of(spaced(words) + t + seq![' '] + spaced(more) + u) == Some(
            seq![words.push(v) + more.push(w)],
        ),
{
    let tail = spaced(more) + u;
    let rest = seq![' '] + tail;
    assert(spaced(words) + t + seq![' '] + spaced(more) + u =~= spaced(words) + (t + rest));
    lemma_spaced(words, t + rest);
    assert(command_laws::scanned(t + rest, Quote::Outside, None) == command_laws::scanned(
        rest,
        Quote::Outside,
        Some(v),
    ));
    command_laws::lemma_blank(tail, v);
    lemma_one(more, u, w);
    let last = more.push(w);
    let none = Seq::<Seq<Seq<char>>>::empty();
    assert(seq![last] =~= seq![last] + none);
    command_laws::lemma_put(v, last, none);
    assert(seq![seq![v] + last] + none =~= seq![seq![v] + last]);
    lemma_in_front(words, seq![v] + last);
    assert(words + (seq![v] + last) =~= words.push(v) + more.push(w));
}

proof fn lemma_plain_reads(t: Seq<char>)
    requires
        command_laws::plain(t),
        t.len() > 0,
    ensures
        reads(t, t),
{
    assert forall|rest: Seq<char>| #[trigger]
        command_laws::scanned(t + rest, Quote::Outside, None) == command_laws::scanned(
            rest,
            Quote::Outside,
            Some(t),
        ) by {
        command_laws::lemma_plain(t, rest, None);
        assert(command_laws::begun(None::<Seq<char>>) + t =~= t);
    }
}

proof fn lemma_attach_words()
    ensures
        "tmux -C -u attach-session -t "@ == spaced(seq!["tmux"@, "-C"@, "-u"@, "attach-session"@, "-t"@]),
        all_plain(seq!["tmux"@, "-C"@, "-u"@, "attach-session"@, "-t"@]),
{
    let words = seq!["tmux"@, "-C"@, "-u"@, "attach-session"@, "-t"@];
    reveal_strlit("tmux -C -u attach-session -t ");
    reveal_strlit("-C");
    reveal_strlit("-t");
    reveal_strlit("-u");
    reveal_strlit("attach-session");
    reveal_strlit("tmux");
    assert(all_plain(words));
    reveal_with_fuel(spaced, 6);
    let none = Seq::<Seq<char>>::empty();
    assert(words.skip(1) =~= seq!["-C"@, "-u"@, "attach-session"@, "-t"@]);
    let w1 = seq!["-C"@, "-u"@, "attach-session"@, "-t"@];
    assert(w1.skip(1) =~= seq!["-u"@, "attach-session"@, "-t"@]);
    let w2 = seq!["-u"@, "attach-session"@, "-t"@];
    assert(w2.skip(1) =~= seq!["attach-session"@, "-t"@]);
    let w3 = seq!["attach-session"@, "-t"@];
    assert(w3.skip(1) =~= seq!["-t"@]);
    let w4 = seq!["-t"@];
    assert(w4.skip(1) =~= none);
    assert("tmux -C -u attach-session -t "@ =~= spaced(words));
}

proof fn lemma_new_session_words()
    ensures
        "tmux new-session -d -s "@ == spaced(seq!["tmux"@, "new-session"@, "-d"@, "-s"@]),
        all_plain(seq!["tmux"@, "new-session"@, "-d"@, "-s"@]),
{
    let words = seq!["tmux"@, "new-session"@, "-d"@, "-s"@];
    reveal_strlit("tmux new-session -d -s ");
    reveal_strlit("-d");
    reveal_strlit("-s");
    reveal_strlit("new-session");
    reveal_strlit("tmux");
    assert(all_plain(words));
    reveal_with_fuel(spaced, 5);
    let none = Seq::<Seq<char>>::empty();
    assert(words.skip(1) =~= seq!["new-session"@, "-d"@, "-s"@]);
    let w1 = seq!["new-session"@, "-d"@, "-s"@];
    assert(w1.skip(1) =~= seq!["-d"@, "-s"@]);
    let w2 = seq!["-d"@, "-s"@];
    assert(w2.skip(1) =~= seq!["-s"@]);
    let w3 = seq!["-s"@];
    assert(w3.skip(1) =~= none);
    assert("tmux new-session -d -s "@ =~= spaced(words));
}

proof fn lemma_new_window_words()
    ensures
        "new-window -d -t "@ == spaced(seq!["new-window"@, "-d"@, "-t"@]),
        all_plain(seq!["new-window"@, "-d"@, "-t"@]),
{
    let words = seq!["new-window"@, "-d"@, "-t"@];
    reveal_strlit("new-window -d -t ");
    reveal_strlit("-d");
    reveal_strlit("-t");
    reveal_strlit("new-window");
    assert(all_plain(words));
    reveal_with_fuel(spaced, 4);
    let none = Seq::<Seq<char>>::empty();
    assert(words.skip(1) =~= seq!["-d"@, "-t"@]);
    let w1 = seq!["-d"@, "-t"@];
    assert(w1.skip(1) =~= seq!["-t"@]);
    let w2 = seq!["-t"@];
    assert(w2.skip(1) =~= none);
    assert("new-window -d -t "@ =~= spaced(words));
}

proof fn lemma_rename_window_words()
    ensures
        "rename-window -t "@ == spaced(seq!["rename-window"@, "-t"@]),
        all_plain(seq!["rename-window"@, "-t"@]),
{
    let words = seq!["rename-window"@, "-t"@];
    reveal_strlit("rename-window -t ");
    reveal_strlit("-t");
    reveal_strlit("rename-window");
    assert(all_plain(words));
    reveal_with_fuel(spaced, 3);
    let none = Seq::<Seq<char>>::empty();
    assert(words.skip(1) =~= seq!["-t"@]);
    let w1 = seq!["-t"@];
    assert(w1.skip(1) =~= none);
    assert("rename-window -t "@ =~= spaced(words));
}

proof fn lemma_kill_window_words()
    ensures
        "kill-window -t "@ == spaced(seq!["kill-window"@, "-t"@]),
        all_plain(seq!["kill-window"@, "-t"@]),
{
    let words = seq!["kill-window"@, "-t"@];
    reveal_strlit("kill-window -t ");
    reveal_strlit("-t");
    reveal_strlit("kill-window");
    assert(all_plain(words));
    reveal_with_fuel(spaced, 3);
    let none = Seq::<Seq<char>>::empty();
    assert(words.skip(1) =~= seq!["-t"@]);
    let w1 = seq!["-t"@];
    assert(w1.skip(1) =~= none);
    assert("kill-window -t "@ =~= spaced(words));
}

proof fn lemma_split_words()
    ensures
        "split-window -d -t "@ == spaced(seq!["split-window"@, "-d"@, "-t"@]),
        all_plain(seq!["split-window"@, "-d"@, "-t"@]),
{
    let words = seq!["split-window"@, "-d"@, "-t"@];
    reveal_strlit("split-window -d -t ");
    reveal_strlit("-d");
    reveal_strlit("-t");
    reveal_strlit("split-window");
    assert(all_plain(words));
    reveal_with_fuel(spaced, 4);
    let none = Seq::<Seq<char>>::empty();
    assert(words.skip(1) =~= seq!["-d"@, "-t"@]);
    let w1 = seq!["-d"@, "-t"@];
    assert(w1.skip(1) =~= seq!["-t"@]);
    let w2 = seq!["-t"@];
    assert(w2.skip(1) =~= none);
    assert("split-window -d -t "@ =~= spaced(words));
}

proof fn lemma_select_words()
    ensures
        "select-pane -t "@ == spaced(seq!["select-pane"@, "-t"@]),
        all_plain(seq!["select-pane"@, "-t"@]),
{
    let words = seq!["select-pane"@, "-t"@];
    reveal_strlit("select-pane -t ");
    reveal_strlit("-t");
    reveal_strlit("select-pane");
    assert(all_plain(words));
    reveal_with_fuel(spaced, 3);
    let none = Seq::<Seq<char>>::empty();
    assert(words.skip(1) =~= seq!["-t"@]);
    let w1 = seq!["-t"@];
    assert(w1.skip(1) =~= none);
    assert("select-pane -t "@ =~= spaced(words));
}

proof fn lemma_kill_pane_words()
    ensures
        "kill-pane -t "@ == spaced(seq!["kill-pane"@, "-t"@]),
        all_plain(seq!["kill-pane"@, "-t"@]),
{
    let words = seq!["kill-pane"@, "-t"@];
    reveal_strlit("kill-pane -t ");
    reveal_strlit("-t");
    reveal_strlit("kill-pane");
    assert(all_plain(words));
    reveal_with_fuel(spaced, 3);
    let none = Seq::<Seq<char>>::empty();
    assert(words.skip(1) =~= seq!["-t"@]);
    let w1 = seq!["-t"@];
    assert(w1.skip(1) =~= none);
    assert("kill-pane -t "@ =~= spaced(words));
}

proof fn lemma_flag_words()
    ensures
        " -n "@ == seq![' '] + spaced(seq!["-n"@]),
        all_plain(seq!["-n"@]),
        " -T "@ == seq![' '] + spaced(seq!["-T"@]),
        all_plain(seq!["-T"@]),
        " "@ == seq![' '] + spaced(Seq::<Seq<char>>::empty()),
        all_plain(Seq::<Seq<char>>::empty()),
{
    reveal_strlit(" -n ");
    reveal_strlit("-n");
    reveal_strlit(" -T ");
    reveal_strlit("-T");
    reveal_strlit(" ");
    let none = Seq::<Seq<char>>::empty();
    assert(spaced(none) =~= Seq::<char>::empty());
    assert(seq!["-n"@].skip(1) =~= none);
    assert(seq!["-T"@].skip(1) =~= none);
    assert(" -n "@ =~= seq![' '] + spaced(seq!["-n"@]));
    assert(" -T "@ =~= seq![' '] + spaced(seq!["-T"@]));
    assert(" "@ =~= seq![' '] + spaced(none));
}

/// The targets of a session are each one word.
proof fn lemma_session_words(session: Seq<char>, window: u64, pane: u64)
    ensures
        quote::session_target_text(session) matches Ok(t) ==> reads(t, session_word(session)),
        quote::window_target_text(session, window) matches Ok(t) ==> reads(
            t,
            session_window(session, window),
        ),
        quote::pane_target_text(session, window, pane) matches Ok(t) ==> reads(
            t,
            session_window_pane(session, window, pane),
        ),
        quote::pane_only_target_text(session, pane) matches Ok(t) ==> reads(
            t,
            session_pane(session, pane),
        ),
{
    reveal_strlit("=");
    reveal_strlit(":@");
    reveal_strlit(".%");
    reveal_strlit(":.%");
    assert("="@ =~= seq!['=']);
    assert(":@"@ =~= seq![':', '@']);
    assert(".%"@ =~= seq!['.', '%']);
    assert(":.%"@ =~= seq![':', '.', '%']);
    let w = text::decimal(window as nat);
    let p = text::decimal(pane as nat);
    if quote::session_target_text(session) is Ok {
        hook_run_laws::law_an_argument_is_one_word("="@ + session);
    }
    if quote::window_target_text(session, window) is Ok {
        hook_run_laws::law_an_argument_is_one_word("="@ + session + ":@"@ + w);
    }
    if quote::pane_target_text(session, window, pane) is Ok {
        hook_run_laws::law_an_argument_is_one_word("="@ + session + ":@"@ + w + ".%"@ + p);
    }
    if quote::pane_only_target_text(session, pane) is Ok {
        hook_run_laws::law_an_argument_is_one_word("="@ + session + ":.%"@ + p);
    }
}

/// A session by its exact name.
pub open spec fn session_word(session: Seq<char>) -> Seq<char> {
    quote::hashes_doubled(seq!['='] + session)
}

/// A pane in a window of a session.
pub open spec fn session_window_pane(session: Seq<char>, window: u64, pane: u64) -> Seq<char> {
    quote::hashes_doubled(
        seq!['='] + session + seq![':', '@'] + text::decimal(window as nat) + seq!['.', '%']
            + text::decimal(pane as nat),
    )
}

/// Attaching names the exact session and creates nothing; creating makes one
/// detached session of the given name.
pub proof fn law_sessions_are_attached_and_created_apart(session: Seq<char>, name: Seq<char>)
    ensures
        commands::attach_for_session_text(session) matches Ok(line) ==> command_laws::commands_of(
            line,
        ) == Some(
            seq![
                seq!["tmux"@, "-C"@, "-u"@, "attach-session"@, "-t"@, session_word(session)],
            ],
        ),
        commands::create_session_text(name) matches Ok(line) ==> exists|rest: Seq<Seq<char>>|
            #[trigger] command_laws::commands_of(line) == Some(
                seq![
                    seq!["tmux"@, "new-session"@, "-d"@, "-s"@, quote::hashes_doubled(name)] + rest,
                ],
            ),
{
    lemma_session_words(session, 0, 0);
    lemma_attach_words();
    match quote::session_target_text(session) {
        Ok(t) => {
            let words = seq!["tmux"@, "-C"@, "-u"@, "attach-session"@, "-t"@];
            lemma_one(words, t, session_word(session));
            assert(words.push(session_word(session)) =~= seq![
                "tmux"@,
                "-C"@,
                "-u"@,
                "attach-session"@,
                "-t"@,
                session_word(session),
            ]);
        },
        Err(_) => {},
    }
    lemma_new_session_words();
    if commands::create_session_text(name) is Ok {
        hook_run_laws::law_an_argument_is_one_word(name);
        let words = seq!["tmux"@, "new-session"@, "-d"@, "-s"@];
        let t = quote::argument(name)->Ok_0;
        let v = quote::hashes_doubled(name);
        let format = "#{session_id}|#{q:session_name}|#{pid}|#{start_time}"@;
        let quoted = " -P -F '#{session_id}|#{q:session_name}|#{pid}|#{start_time}'"@;
        let more = seq!["-P"@, "-F"@];
        let u = seq!['\''] + format + seq!['\''];
        let none = Seq::<Seq<char>>::empty();
        assert(quoted =~= seq![' '] + spaced(more) + u) by {
            reveal_strlit(" -P -F '#{session_id}|#{q:session_name}|#{pid}|#{start_time}'");
            reveal_strlit("#{session_id}|#{q:session_name}|#{pid}|#{start_time}");
            reveal_strlit("-P");
            reveal_strlit("-F");
            assert(more.skip(1) =~= seq!["-F"@]);
            assert(seq!["-F"@].skip(1) =~= none);
            assert(spaced(none) =~= Seq::<char>::empty());
            assert(spaced(seq!["-F"@]) =~= "-F"@ + seq![' ']);
            assert(spaced(more) =~= "-P"@ + seq![' '] + "-F"@ + seq![' ']);
        }
        assert(all_plain(more)) by {
            reveal_strlit("-P");
            reveal_strlit("-F");
        }
        assert(reads(u, format)) by {
            assert(!format.contains('\'')) by {
                reveal_strlit("#{session_id}|#{q:session_name}|#{pid}|#{start_time}");
            }
            assert forall|rest: Seq<char>| #[trigger]
                command_laws::scanned(u + rest, Quote::Outside, None) == command_laws::scanned(
                    rest,
                    Quote::Outside,
                    Some(format),
                ) by {
                let tail = seq!['\''] + rest;
                assert((u + rest).skip(1) =~= format + tail);
                command_laws::lemma_single(format, tail, seq![]);
                assert(Seq::<char>::empty() + format =~= format);
                assert(tail.skip(1) =~= rest);
            }
        }
        lemma_two(words, t, v, more, u, format);
        let line = commands::create_session_text(name)->Ok_0;
        assert(line =~= spaced(words) + t + seq![' '] + spaced(more) + u);
        let rest = more.push(format);
        assert(words.push(v) + rest =~= seq!["tmux"@, "new-session"@, "-d"@, "-s"@, v] + rest);
        assert(command_laws::commands_of(line) == Some(
            seq![seq!["tmux"@, "new-session"@, "-d"@, "-s"@, v] + rest],
        ));
    }
}

/// The commands on windows of a session name that window and no other, and a
/// new or renamed one gets the name that was asked for.
pub proof fn law_window_commands_name_their_window(
    session: Seq<char>,
    window: u64,
    name: Seq<char>,
)
    ensures
        commands::close_workspace_for_session_text(session, window) matches Ok(line)
            ==> command_laws::commands_of(line) == Some(
            seq![seq!["kill-window"@, "-t"@, session_window(session, window)]],
        ),
        commands::create_pane_for_session_text(session, window) matches Ok(line)
            ==> command_laws::commands_of(line) == Some(
            seq![seq!["split-window"@, "-d"@, "-t"@, session_window(session, window)]],
        ),
        commands::rename_workspace_for_session_text(session, window, name) matches Ok(line)
            ==> command_laws::commands_of(line) == Some(
            seq![
                seq![
                    "rename-window"@,
                    "-t"@,
                    session_window(session, window),
                    quote::hashes_doubled(name),
                ],
            ],
        ),
        commands::create_workspace_for_session_text(session, name) matches Ok(line)
            ==> command_laws::commands_of(line) == Some(
            seq![
                seq![
                    "new-window"@,
                    "-d"@,
                    "-t"@,
                    session_word(session),
                    "-n"@,
                    quote::hashes_doubled(name),
                ],
            ],
        ),
{
    lemma_session_words(session, window, 0);
    lemma_flag_words();
    let w = session_window(session, window);
    let n = quote::hashes_doubled(name);
    if quote::argument(name) is Ok {
        hook_run_laws::law_an_argument_is_one_word(name);
    }
    match quote::window_target_text(session, window) {
        Ok(t) => {
            lemma_kill_window_words();
            lemma_one(seq!["kill-window"@, "-t"@], t, w);
            assert(seq!["kill-window"@, "-t"@].push(w) =~= seq!["kill-window"@, "-t"@, w]);
            lemma_split_words();
            lemma_one(seq!["split-window"@, "-d"@, "-t"@], t, w);
            assert(seq!["split-window"@, "-d"@, "-t"@].push(w) =~= seq![
                "split-window"@,
                "-d"@,
                "-t"@,
                w,
            ]);
            if quote::argument(name) is Ok {
                let q = quote::argument(name)->Ok_0;
                let none = Seq::<Seq<char>>::empty();
                lemma_rename_window_words();
                let words = seq!["rename-window"@, "-t"@];
                lemma_two(words, t, w, none, q, n);
                assert(spaced(words) + t + seq![' '] + spaced(none) + q =~= spaced(words) + t
                    + " "@ + q);
                assert(words.push(w) + none.push(n) =~= seq!["rename-window"@, "-t"@, w, n]);
            }
        },
        Err(_) => {},
    }
    match quote::session_target_text(session) {
        Ok(t) => {
            if quote::argument(name) is Ok {
                let q = quote::argument(name)->Ok_0;
                let s = session_word(session);
                lemma_new_window_words();
                let words = seq!["new-window"@, "-d"@, "-t"@];
                let more = seq!["-n"@];
                lemma_two(words, t, s, more, q, n);
                assert(spaced(words) + t + seq![' '] + spaced(more) + q =~= spaced(words) + t
                    + " -n "@ + q);
                assert(words.push(s) + more.push(n) =~= seq![
                    "new-window"@,
                    "-d"@,
                    "-t"@,
                    s,
                    "-n"@,
                    n,
                ]);
            }
        },
        Err(_) => {},
    }
}

/// The commands on panes of a session name that pane and no other.
pub proof fn law_pane_commands_name_their_pane(
    session: Seq<char>,
    window: u64,
    pane: u64,
    name: Seq<char>,
)
    ensures
        commands::close_pane_for_session_text(session, window, pane) matches Ok(line)
            ==> command_laws::commands_of(line) == Some(
            seq![seq!["kill-pane"@, "-t"@, session_window_pane(session, window, pane)]],
        ),
        commands::rename_pane_for_session_text(session, window, pane, name) matches Ok(line)
            ==> command_laws::commands_of(line) == Some(
            seq![
                seq![
                    "select-pane"@,
                    "-t"@,
                    session_window_pane(session, window, pane),
                    "-T"@,
                    quote::hashes_doubled(name),
                ],
            ],
        ),
{
    lemma_session_words(session, window, pane);
    lemma_flag_words();
    let p = session_window_pane(session, window, pane);
    let n = quote::hashes_doubled(name);
    match quote::pane_target_text(session, window, pane) {
        Ok(t) => {
            lemma_kill_pane_words();
            lemma_one(seq!["kill-pane"@, "-t"@], t, p);
            assert(seq!["kill-pane"@, "-t"@].push(p) =~= seq!["kill-pane"@, "-t"@, p]);
            if quote::argument(name) is Ok {
                hook_run_laws::law_an_argument_is_one_word(name);
                let q = quote::argument(name)->Ok_0;
                lemma_select_words();
                let words = seq!["select-pane"@, "-t"@];
                let more = seq!["-T"@];
                lemma_two(words, t, p, more, q, n);
                assert(spaced(words) + t + seq![' '] + spaced(more) + q =~= spaced(words) + t
                    + " -T "@ + q);
                assert(words.push(p) + more.push(n) =~= seq![
                    "select-pane"@,
                    "-t"@,
                    p,
                    "-T"@,
                    n,
                ]);
            }
        },
        Err(_) => {},
    }
}

/// A client's size is told as columns, then rows.
pub proof fn law_a_size_is_columns_by_rows(columns: u16, rows: u16)
    ensures
        command_laws::commands_of(commands::refresh_client_text(columns, rows)) == Some(
            seq![
                seq![
                    "refresh-client"@,
                    "-C"@,
                    text::decimal(columns as nat) + seq!['x'] + text::decimal(rows as nat),
                ],
            ],
        ),
{
    let c = text::decimal(columns as nat);
    let r = text::decimal(rows as nat);
    let size = c + seq!['x'] + r;
    reveal_strlit("x");
    assert("x"@ =~= seq!['x']);
    command_laws::lemma_decimal_plain(columns as nat);
    command_laws::lemma_decimal_plain(rows as nat);
    assert(command_laws::plain(seq!['x']));
    command_laws::lemma_plain_join(c, seq!['x']);
    command_laws::lemma_plain_join(c + seq!['x'], r);
    lemma_plain_reads(size);
    lemma_refresh_words();
    let words = seq!["refresh-client"@, "-C"@];
    lemma_one(words, size, size);
    assert(commands::refresh_client_text(columns, rows) =~= spaced(words) + size);
    assert(words.push(size) =~= seq!["refresh-client"@, "-C"@, size]);
}

/// Typed bytes go to the named pane.
pub proof fn law_typed_bytes_go_to_their_pane(
    session: Seq<char>,
    pane: u64,
    bytes: Seq<u8>,
)
    ensures
        commands::send_bytes_for_session_text(session, pane, bytes) matches Ok(line) ==> exists|
            typed: Seq<Seq<char>>,
        |
            #[trigger] command_laws::commands_of(line) == Some(
                seq![seq!["send-keys"@, "-t"@, session_pane(session, pane), "-H"@] + typed],
            ) && typed.len() == bytes.len() && forall|i: int|
                0 <= i < bytes.len() ==> #[trigger] typed[i] == text::hex(bytes[i]),
{
    lemma_session_words(session, 0, pane);
    match quote::pane_only_target_text(session, pane) {
        Ok(t) => {
            let v = session_pane(session, pane);
            let words = seq!["send-keys"@, "-t"@];
            lemma_send_words();
            let h = seq![' '] + ("-H"@ + commands::hex_words(bytes));
            reveal_strlit(" -H");
            reveal_strlit("-H");
            let line = "send-keys -t "@ + t + " -H"@ + commands::hex_words(bytes);
            assert(line =~= spaced(words) + (t + h));
            lemma_spaced(words, t + h);
            assert(command_laws::scanned(t + h, Quote::Outside, None) == command_laws::scanned(
                h,
                Quote::Outside,
                Some(v),
            ));
            command_laws::lemma_blank("-H"@ + commands::hex_words(bytes), v);
            command_laws::lemma_plain("-H"@, commands::hex_words(bytes), None);
            assert(command_laws::begun(None::<Seq<char>>) + "-H"@ =~= "-H"@);
            let typed = Seq::new(bytes.len(), |i: int| text::hex(bytes[i]));
            lemma_hex_scanned(bytes, "-H"@);
            let last = seq!["-H"@] + typed;
            let none = Seq::<Seq<Seq<char>>>::empty();
            assert(seq![last] =~= seq![last] + none);
            command_laws::lemma_put(v, last, none);
            assert(seq![seq![v] + last] + none =~= seq![seq![v] + last]);
            lemma_in_front(words, seq![v] + last);
            assert(words + (seq![v] + last) =~= seq!["send-keys"@, "-t"@, v, "-H"@] + typed);
        },
        Err(_) => {},
    }
}

proof fn lemma_hex_plain(b: u8)
    ensures
        command_laws::plain(text::hex(b)),
        text::hex(b).len() == 2,
{
    assert(command_laws::is_plain(text::hex_char((b / 16) as nat)));
    assert(command_laws::is_plain(text::hex_char((b % 16) as nat)));
}

proof fn lemma_hex_first(bytes: Seq<u8>)
    requires
        bytes.len() > 0,
    ensures
        commands::hex_words(bytes) == seq![' '] + (text::hex(bytes[0]) + commands::hex_words(
            bytes.skip(1),
        )),
    decreases bytes.len(),
{
    reveal_strlit(" ");
    assert(" "@ =~= seq![' ']);
    let front = bytes.drop_last();
    if bytes.len() == 1 {
        assert(front =~= Seq::<u8>::empty());
        assert(bytes.skip(1) =~= Seq::<u8>::empty());
        assert(commands::hex_words(bytes) =~= seq![' '] + (text::hex(bytes[0])
            + commands::hex_words(bytes.skip(1))));
    } else {
        lemma_hex_first(front);
        assert(front.skip(1) =~= bytes.skip(1).drop_last());
        assert(bytes.skip(1).last() == bytes.last());
        assert(commands::hex_words(bytes) =~= seq![' '] + (text::hex(bytes[0])
            + commands::hex_words(bytes.skip(1))));
    }
}

proof fn lemma_hex_scanned(bytes: Seq<u8>, word: Seq<char>)
    ensures
        command_laws::scanned(commands::hex_words(bytes), Quote::Outside, Some(word)) == Some(
            seq![seq![word] + Seq::new(bytes.len(), |i: int| text::hex(bytes[i]))],
        ),
    decreases bytes.len(),
{
    let typed = Seq::new(bytes.len(), |i: int| text::hex(bytes[i]));
    if bytes.len() == 0 {
        assert(commands::hex_words(bytes) =~= Seq::<char>::empty());
        command_laws::lemma_last(word);
        assert(seq![word] + typed =~= seq![word]);
    } else {
        let rest = commands::hex_words(bytes.skip(1));
        let h = text::hex(bytes[0]);
        lemma_hex_first(bytes);
        command_laws::lemma_blank(h + rest, word);
        lemma_hex_plain(bytes[0]);
        command_laws::lemma_plain(h, rest, None);
        assert(command_laws::begun(None::<Seq<char>>) + h =~= h);
        lemma_hex_scanned(bytes.skip(1), h);
        let more = Seq::new(bytes.skip(1).len(), |i: int| text::hex(bytes.skip(1)[i]));
        assert(seq![h] + more =~= typed);
        let none = Seq::<Seq<Seq<char>>>::empty();
        assert(seq![typed] =~= seq![typed] + none);
        command_laws::lemma_put(word, typed, none);
        assert(seq![seq![word] + typed] + none =~= seq![seq![word] + typed]);
    }
}

/// The commands of the managed session are those of the session of its name,
/// where a name needs no quotes.
pub proof fn law_the_managed_session_is_meeterm(window: u64, pane: u64)
    ensures
        command_laws::commands_of(commands::close_workspace_text(window)) == Some(
            seq![seq!["kill-window"@, "-t"@, managed_window(window)]],
        ),
        command_laws::commands_of(commands::create_pane_text(window)) == Some(
            seq![seq!["split-window"@, "-d"@, "-t"@, managed_window(window)]],
        ),
        command_laws::commands_of(commands::close_pane_text(window, pane)) == Some(
            seq![seq!["kill-pane"@, "-t"@, managed_window(window) + seq!['.'] + pane_name(pane)]],
        ),
{
    let w = managed_window(window);
    let p = w + seq!['.'] + pane_name(pane);
    let name = seq!['=', 'm', 'e', 'e', 't', 'e', 'r', 'm', ':'];
    command_laws::lemma_ids_written(window, pane);
    assert(command_laws::plain(name));
    command_laws::lemma_plain_join(name, window_name(window));
    assert(command_laws::plain(seq!['.']));
    command_laws::lemma_plain_join(w, seq!['.']);
    command_laws::lemma_plain_join(w + seq!['.'], pane_name(pane));
    lemma_plain_reads(w);
    lemma_plain_reads(p);
    lemma_kill_window_words();
    lemma_split_words();
    lemma_kill_pane_words();
    lemma_one(seq!["kill-window"@, "-t"@], w, w);
    assert(seq!["kill-window"@, "-t"@].push(w) =~= seq!["kill-window"@, "-t"@, w]);
    lemma_one(seq!["split-window"@, "-d"@, "-t"@], w, w);
    assert(seq!["split-window"@, "-d"@, "-t"@].push(w) =~= seq!["split-window"@, "-d"@, "-t"@, w]);
    lemma_one(seq!["kill-pane"@, "-t"@], p, p);
    assert(seq!["kill-pane"@, "-t"@].push(p) =~= seq!["kill-pane"@, "-t"@, p]);
    let n = text::decimal(window as nat);
    let m = text::decimal(pane as nat);
    let at = name + seq!['@'];
    assert("kill-window -t =meeterm:@"@ =~= "kill-window -t "@ + at) by {
        reveal_strlit("kill-window -t =meeterm:@");
        reveal_strlit("kill-window -t ");
    }
    assert("split-window -d -t =meeterm:@"@ =~= "split-window -d -t "@ + at) by {
        reveal_strlit("split-window -d -t =meeterm:@");
        reveal_strlit("split-window -d -t ");
    }
    assert("kill-pane -t =meeterm:@"@ =~= "kill-pane -t "@ + at) by {
        reveal_strlit("kill-pane -t =meeterm:@");
        reveal_strlit("kill-pane -t ");
    }
    assert(".%"@ =~= seq!['.', '%']) by {
        reveal_strlit(".%");
    }
    assert(at + n =~= w);
    assert(at + n + ".%"@ + m =~= p);
    assert("kill-window -t "@ + at + n =~= "kill-window -t "@ + (at + n));
    assert("split-window -d -t "@ + at + n =~= "split-window -d -t "@ + (at + n));
    assert("kill-pane -t "@ + at + n + ".%"@ + m =~= "kill-pane -t "@ + (at + n + ".%"@ + m));
}

/// The window `@N` of the managed session.
pub open spec fn managed_window(window: u64) -> Seq<char> {
    seq!['=', 'm', 'e', 'e', 't', 'e', 'r', 'm', ':'] + window_name(window)
}

proof fn lemma_refresh_words()
    ensures
        "refresh-client -C "@ == spaced(seq!["refresh-client"@, "-C"@]),
        all_plain(seq!["refresh-client"@, "-C"@]),
{
    let words = seq!["refresh-client"@, "-C"@];
    reveal_strlit("refresh-client -C ");
    reveal_strlit("-C");
    reveal_strlit("refresh-client");
    assert(all_plain(words));
    reveal_with_fuel(spaced, 3);
    let none = Seq::<Seq<char>>::empty();
    assert(words.skip(1) =~= seq!["-C"@]);
    let w1 = seq!["-C"@];
    assert(w1.skip(1) =~= none);
    assert("refresh-client -C "@ =~= spaced(words));
}

proof fn lemma_send_words()
    ensures
        "send-keys -t "@ == spaced(seq!["send-keys"@, "-t"@]),
        all_plain(seq!["send-keys"@, "-t"@]),
{
    let words = seq!["send-keys"@, "-t"@];
    reveal_strlit("send-keys -t ");
    reveal_strlit("-t");
    reveal_strlit("send-keys");
    assert(all_plain(words));
    reveal_with_fuel(spaced, 3);
    let none = Seq::<Seq<char>>::empty();
    assert(words.skip(1) =~= seq!["-t"@]);
    let w1 = seq!["-t"@];
    assert(w1.skip(1) =~= none);
    assert("send-keys -t "@ =~= spaced(words));
}

} // verus!
