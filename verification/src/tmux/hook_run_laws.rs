//! What the recovery hooks do when tmux installs and runs them.

use vstd::prelude::*;
use vstd::string::*;

use crate::text;
use crate::tmux::command_laws;
use crate::tmux::command_laws::{Desk, Places, Quote};
use crate::tmux::hooks;
use crate::tmux::quote;

verus! {

/// A text that is read as one word outside of quotes.
pub open spec fn reads(t: Seq<char>, v: Seq<char>) -> bool {
    forall|rest: Seq<char>| #[trigger]
        command_laws::scanned(t + rest, Quote::Outside, None) == command_laws::scanned(
            rest,
            Quote::Outside,
            Some(v),
        )
}

pub proof fn lemma_written_reads(t: Seq<char>, v: Seq<char>)
    requires
        command_laws::written(t, v),
    ensures
        reads(t, v),
{
    assert forall|rest: Seq<char>| #[trigger]
        command_laws::scanned(t + rest, Quote::Outside, None) == command_laws::scanned(
            rest,
            Quote::Outside,
            Some(v),
        ) by {
        command_laws::lemma_target(t, v, rest);
    }
}

/// Characters behind an apostrophe that opened, up to the one that closes.
proof fn lemma_quoted_scanned(s: Seq<char>, rest: Seq<char>, word: Seq<char>)
    ensures
        command_laws::scanned(
            quote::quoted_chars(s) + (seq!['\''] + rest),
            Quote::Single,
            Some(word),
        ) == command_laws::scanned(
            rest,
            Quote::Outside,
            Some(word + quote::hashes_doubled(s)),
        ),
    decreases s.len(),
{
    let q = quote::quoted_chars(s) + (seq!['\''] + rest);
    if s.len() == 0 {
        assert(q =~= seq!['\''] + rest);
        assert(q.skip(1) =~= rest);
        assert(word + quote::hashes_doubled(s) =~= word);
    } else {
        quote::lemma_quoted_first(s);
        let more = quote::quoted_chars(s.skip(1)) + (seq!['\''] + rest);
        assert(q =~= quote::quoted_char(s[0]) + more);
        reveal_strlit("'\\''");
        reveal_strlit("##");
        if s[0] == '\'' {
            let next = word.push('\'');
            lemma_quoted_scanned(s.skip(1), rest, next);
            assert(q[0] == '\'' && q[1] == '\\' && q[2] == '\'' && q[3] == '\'');
            let q1 = q.skip(1);
            let q3 = q1.skip(2);
            assert(q1[0] == '\\' && q1[1] == '\'');
            assert(q3[0] == '\'');
            assert(q3.skip(1) =~= more);
            assert(command_laws::scanned(q3, Quote::Outside, Some(next)) == command_laws::scanned(
                more,
                Quote::Single,
                Some(next),
            ));
            assert(command_laws::scanned(q1, Quote::Outside, Some(word)) == command_laws::scanned(
                q3,
                Quote::Outside,
                Some(next),
            ));
            assert(next + quote::hashes_doubled(s.skip(1)) =~= word + quote::hashes_doubled(s));
        } else if s[0] == '#' {
            let next = word.push('#').push('#');
            lemma_quoted_scanned(s.skip(1), rest, next);
            assert(q[0] == '#' && q[1] == '#');
            let q1 = q.skip(1);
            assert(q1[0] == '#');
            assert(q1.skip(1) =~= more);
            assert(command_laws::scanned(q1, Quote::Single, Some(word.push('#')))
                == command_laws::scanned(more, Quote::Single, Some(next)));
            assert(next + quote::hashes_doubled(s.skip(1)) =~= word + quote::hashes_doubled(s));
        } else {
            let next = word.push(s[0]);
            lemma_quoted_scanned(s.skip(1), rest, next);
            assert(q[0] == s[0]);
            assert(q.skip(1) =~= more);
            assert(next + quote::hashes_doubled(s.skip(1)) =~= word + quote::hashes_doubled(s));
        }
    }
}

/// A quoted argument is one word: the value with every `#` doubled.
pub proof fn law_an_argument_is_one_word(value: Seq<char>)
    requires
        quote::argument(value) is Ok,
    ensures
        reads(quote::argument(value)->Ok_0, quote::hashes_doubled(value)),
        quote::formatted(quote::hashes_doubled(value)) == Some(value),
{
    quote::lemma_formatted(value);
    let t = quote::argument(value)->Ok_0;
    let v = quote::hashes_doubled(value);
    assert forall|rest: Seq<char>| #[trigger]
        command_laws::scanned(t + rest, Quote::Outside, None) == command_laws::scanned(
            rest,
            Quote::Outside,
            Some(v),
        ) by {
        let s = t + rest;
        assert(s[0] == '\'');
        assert(s.skip(1) =~= quote::quoted_chars(value) + (seq!['\''] + rest));
        lemma_quoted_scanned(value, rest, seq![]);
        assert(Seq::<char>::empty() + v =~= v);
    }
}

/// The word of a hook entry.
pub open spec fn entry(name: Seq<char>, index: u32) -> Seq<char> {
    name + seq!['['] + text::decimal(index as nat) + seq![']']
}

/// The word of a session as the scope of a hook.
pub open spec fn scope_word(v: Seq<char>) -> Seq<char> {
    v + seq![':']
}

proof fn lemma_five(
    a: Seq<char>,
    b: Seq<char>,
    c: Seq<char>,
    e: Seq<char>,
    f: Seq<char>,
    more: Seq<Seq<Seq<char>>>,
)
    ensures
        command_laws::with_word(
            a,
            command_laws::with_word(
                b,
                command_laws::with_word(
                    c,
                    command_laws::with_word(
                        e,
                        command_laws::with_word(f, command_laws::with_end(Some(more))),
                    ),
                ),
            ),
        ) == Some(seq![seq![a, b, c, e, f]] + more),
        command_laws::with_word(
            a,
            command_laws::with_word(
                b,
                command_laws::with_word(c, command_laws::with_word(e, Some(seq![seq![f]]))),
            ),
        ) == Some(seq![seq![a, b, c, e, f]]),
{
    let no = Seq::<Seq<char>>::empty();
    let none = Seq::<Seq<Seq<char>>>::empty();
    command_laws::lemma_put(f, no, more);
    assert(seq![f] + no =~= seq![f]);
    command_laws::lemma_put(e, seq![f], more);
    command_laws::lemma_put(c, seq![e] + seq![f], more);
    command_laws::lemma_put(b, seq![c] + (seq![e] + seq![f]), more);
    command_laws::lemma_put(a, seq![b] + (seq![c] + (seq![e] + seq![f])), more);
    assert(seq![a] + (seq![b] + (seq![c] + (seq![e] + seq![f]))) =~= seq![a, b, c, e, f]);
    assert(seq![seq![f]] =~= seq![seq![f]] + none);
    command_laws::lemma_put(e, seq![f], none);
    command_laws::lemma_put(c, seq![e] + seq![f], none);
    command_laws::lemma_put(b, seq![c] + (seq![e] + seq![f]), none);
    command_laws::lemma_put(a, seq![b] + (seq![c] + (seq![e] + seq![f])), none);
    assert(seq![seq![a, b, c, e, f]] + none =~= seq![seq![a, b, c, e, f]]);
}

proof fn lemma_hook_heads(rest: Seq<char>)
    ensures
        command_laws::scanned("set-hook -u -t "@ + rest, Quote::Outside, None)
            == command_laws::with_word(
            "set-hook"@,
            command_laws::with_word(
                "-u"@,
                command_laws::with_word(
                    "-t"@,
                    command_laws::scanned(rest, Quote::Outside, None),
                ),
            ),
        ),
        command_laws::scanned("set-hook -t "@ + rest, Quote::Outside, None)
            == command_laws::with_word(
            "set-hook"@,
            command_laws::with_word("-t"@, command_laws::scanned(rest, Quote::Outside, None)),
        ),
{
    reveal_strlit("-t");
    reveal_strlit("-u");
    command_laws::lemma_word("-t"@, rest);
    let t = "-t"@ + (seq![' '] + rest);
    command_laws::lemma_word("-u"@, t);
    let u = "-u"@ + (seq![' '] + t);
    assert("set-hook -u -t "@ + rest =~= "set-hook"@ + (seq![' '] + u)) by {
        reveal_strlit("set-hook -u -t ");
        reveal_strlit("set-hook");
    }
    assert(command_laws::plain("set-hook"@) && "set-hook"@.len() > 0) by {
        reveal_strlit("set-hook");
    }
    command_laws::lemma_word("set-hook"@, u);
    assert("set-hook -t "@ + rest =~= "set-hook"@ + (seq![' '] + t)) by {
        reveal_strlit("set-hook -t ");
        reveal_strlit("set-hook");
    }
    command_laws::lemma_word("set-hook"@, t);
}

/// A scope, its colon and an entry.
proof fn lemma_entry(
    scope: Seq<char>,
    v: Seq<char>,
    name: Seq<char>,
    index: u32,
    rest: Seq<char>,
)
    requires
        reads(scope, v),
        command_laws::plain(name),
    ensures
        command_laws::scanned(
            scope + (seq![':', ' '] + name + seq!['['] + text::decimal(index as nat) + seq![']']
                + rest),
            Quote::Outside,
            None,
        ) == command_laws::with_word(
            scope_word(v),
            command_laws::scanned(rest, Quote::Outside, Some(entry(name, index))),
        ),
{
    let n = text::decimal(index as nat);
    let word = entry(name, index);
    let s = seq![':', ' '] + name + seq!['['] + n + seq![']'] + rest;
    assert(command_laws::scanned(scope + s, Quote::Outside, None) == command_laws::scanned(
        s,
        Quote::Outside,
        Some(v),
    ));
    let s1 = s.skip(1);
    assert(s[0] == ':');
    assert(v.push(':') =~= scope_word(v));
    assert(s1 =~= seq![' '] + (word + rest));
    command_laws::lemma_blank(word + rest, scope_word(v));
    command_laws::lemma_decimal_plain(index as nat);
    assert(command_laws::plain(seq!['[']));
    assert(command_laws::plain(seq![']']));
    command_laws::lemma_plain_join(name, seq!['[']);
    command_laws::lemma_plain_join(name + seq!['['], n);
    command_laws::lemma_plain_join(name + seq!['['] + n, seq![']']);
    command_laws::lemma_plain(word, rest, None);
    assert(command_laws::begun(None::<Seq<char>>) + word =~= word);
}

spec fn unset_words(v: Seq<char>, name: Seq<char>, index: u32) -> Seq<Seq<char>> {
    seq!["set-hook"@, "-u"@, "-t"@, scope_word(v), entry(name, index)]
}

proof fn lemma_hook_literals()
    ensures
        ": client-detached["@ == seq![':', ' '] + "client-detached"@ + seq!['['],
        ": client-session-changed["@ == seq![':', ' '] + "client-session-changed"@ + seq!['['],
        "] ; set-hook -u -t "@ == seq![']'] + " ; "@ + "set-hook -u -t "@,
        "] '"@ == seq![']', ' ', '\''],
        "' ; set-hook -t "@ == seq!['\''] + " ; "@ + "set-hook -t "@,
        "]"@ == seq![']'],
        "'"@ == seq!['\''],
        "\""@ == seq!['"'],
        command_laws::plain("client-detached"@),
        command_laws::plain("client-session-changed"@),
        "client-detached"@ != "client-session-changed"@,
{
    reveal_strlit("client-detached");
    reveal_strlit("client-session-changed");
    reveal_strlit("]");
    reveal_strlit("'");
    reveal_strlit("\"");
    reveal_strlit("] '");
    reveal_strlit(" ; ");
    assert("client-detached"@.len() == 15);
    assert("]"@ =~= seq![']']);
    assert("'"@ =~= seq!['\'']);
    assert("\""@ =~= seq!['"']);
    assert("] '"@ =~= seq![']', ' ', '\'']);
    assert(": client-detached["@ =~= seq![':', ' '] + "client-detached"@ + seq!['[']) by {
        reveal_strlit(": client-detached[");
    }
    assert(": client-session-changed["@ =~= seq![':', ' '] + "client-session-changed"@ + seq![
        '[',
    ]) by {
        reveal_strlit(": client-session-changed[");
    }
    assert("] ; set-hook -u -t "@ =~= seq![']'] + " ; "@ + "set-hook -u -t "@) by {
        reveal_strlit("] ; set-hook -u -t ");
        reveal_strlit("set-hook -u -t ");
    }
    assert("' ; set-hook -t "@ =~= seq!['\''] + " ; "@ + "set-hook -t "@) by {
        reveal_strlit("' ; set-hook -t ");
        reveal_strlit("set-hook -t ");
    }
}

/// Both entries are unset, as it is written.
#[verifier::spinoff_prover]
proof fn lemma_remove_read(scope: Seq<char>, v: Seq<char>, index: u32)
    requires
        reads(scope, v),
    ensures
        command_laws::commands_of(hooks::remove_pair(scope, index)) == Some(
            seq![
                unset_words(v, "client-detached"@, index),
                unset_words(v, "client-session-changed"@, index),
            ],
        ),
{
    lemma_hook_literals();
    let none = Seq::<char>::empty();
    let n = text::decimal(index as nat);
    let cd = "client-detached"@;
    let cs = "client-session-changed"@;
    let unset = "set-hook -u -t "@;
    let semi = " ; "@;
    let tail = seq![':', ' '] + cs + seq!['['] + n + seq![']'] + none;
    let second = unset + (scope + tail);
    lemma_hook_heads(scope + tail);
    lemma_entry(scope, v, cs, index, none);
    command_laws::lemma_last(entry(cs, index));
    lemma_five("set-hook"@, "-u"@, "-t"@, scope_word(v), entry(cs, index), seq![]);
    let c2 = seq![unset_words(v, cs, index)];
    assert(command_laws::commands_of(second) == Some(c2));
    let front = seq![':', ' '] + cd + seq!['['] + n + seq![']'] + (semi + second);
    lemma_hook_heads(scope + front);
    lemma_entry(scope, v, cd, index, semi + second);
    command_laws::lemma_semicolon(entry(cd, index), second);
    lemma_five("set-hook"@, "-u"@, "-t"@, scope_word(v), entry(cd, index), c2);
    assert(seq![unset_words(v, cd, index)] + c2 =~= seq![
        unset_words(v, cd, index),
        unset_words(v, cs, index),
    ]);
    assert(hooks::remove_pair(scope, index) =~= unset + (scope + front)) by {
        lemma_remove_shape(scope, index);
    }
}

proof fn lemma_remove_shape(scope: Seq<char>, index: u32)
    ensures
        ({
            let n = text::decimal(index as nat);
            let unset = "set-hook -u -t "@;
            let second = unset + (scope + (seq![':', ' '] + "client-session-changed"@ + seq!['[']
                + n + seq![']'] + Seq::<char>::empty()));
            hooks::remove_pair(scope, index) == unset + (scope + (seq![':', ' ']
                + "client-detached"@ + seq!['['] + n + seq![']'] + (" ; "@ + second)))
        }),
{
    lemma_hook_literals();
    let n = text::decimal(index as nat);
    let unset = "set-hook -u -t "@;
    let semi = " ; "@;
    let a = seq![':', ' '] + "client-detached"@ + seq!['['];
    let b = seq![':', ' '] + "client-session-changed"@ + seq!['['];
    let none = Seq::<char>::empty();
    let second = unset + (scope + (b + n + seq![']'] + none));
    assert(b + n + seq![']'] + none =~= b + n + seq![']']);
    assert(second =~= unset + scope + b + n + seq![']']);
    assert(hooks::remove_pair(scope, index) =~= unset + (scope + (a + n + seq![']'] + (semi
        + second))));
}

/// The target of a collapse, in quotation marks and out of them.
#[verifier::spinoff_prover]
proof fn lemma_collapse_scanned(t: Seq<char>, v: Seq<char>, rest: Seq<char>)
    requires
        reads(t, v),
        !t.contains('"'),
    ensures
        command_laws::scanned(hooks::collapse(t) + rest, Quote::Outside, None)
            == command_laws::with_word(
            "if-shell"@,
            command_laws::with_word(
                "-F"@,
                command_laws::with_word(
                    "-t"@,
                    command_laws::with_word(
                        v,
                        command_laws::with_word(
                            "#{window_zoomed_flag}"@,
                            command_laws::scanned(
                                rest,
                                Quote::Outside,
                                Some("resize-pane -Z -t "@ + t),
                            ),
                        ),
                    ),
                ),
            ),
        ),
{
    lemma_hook_literals();
    let flag = "#{window_zoomed_flag}"@;
    let resize = "resize-pane -Z -t "@;
    let middle = " \"#{window_zoomed_flag}\" \"resize-pane -Z -t "@;
    let r4 = seq!['"'] + rest;
    let r3 = t + r4;
    let r2 = middle + r3;
    let r1 = t + r2;
    assert(hooks::collapse(t) + rest =~= "if-shell -F -t "@ + r1);
    command_laws::lemma_heads(r1);
    assert(command_laws::scanned(t + r2, Quote::Outside, None) == command_laws::scanned(
        r2,
        Quote::Outside,
        Some(v),
    ));
    let last = seq!['"'] + resize + r3;
    let first = seq!['"'] + flag + seq!['"'] + (seq![' '] + last);
    assert(!flag.contains('"')) by {
        reveal_strlit("#{window_zoomed_flag}");
    }
    assert(!resize.contains('"')) by {
        reveal_strlit("resize-pane -Z -t ");
    }
    assert(r2 =~= seq![' '] + first) by {
        reveal_strlit(" \"#{window_zoomed_flag}\" \"resize-pane -Z -t ");
        reveal_strlit("#{window_zoomed_flag}");
        reveal_strlit("resize-pane -Z -t ");
    }
    command_laws::lemma_blank(first, v);
    lemma_double_word(flag, last);
    lemma_double_open(resize, r3);
    command_laws::lemma_double(t, r4, resize);
    assert(r4.skip(1) =~= rest);
}

proof fn lemma_double_word(w: Seq<char>, rest: Seq<char>)
    requires
        !w.contains('"'),
    ensures
        command_laws::scanned(
            seq!['"'] + w + seq!['"'] + (seq![' '] + rest),
            Quote::Outside,
            None,
        ) == command_laws::with_word(w, command_laws::scanned(rest, Quote::Outside, None)),
{
    let tail = seq!['"'] + (seq![' '] + rest);
    let s = seq!['"'] + w + seq!['"'] + (seq![' '] + rest);
    assert(s.skip(1) =~= w + tail);
    command_laws::lemma_double(w, tail, seq![]);
    assert(Seq::<char>::empty() + w =~= w);
    assert(tail.skip(1) =~= seq![' '] + rest);
    command_laws::lemma_blank(rest, w);
}

proof fn lemma_double_open(w: Seq<char>, rest: Seq<char>)
    requires
        !w.contains('"'),
    ensures
        command_laws::scanned(seq!['"'] + w + rest, Quote::Outside, None)
            == command_laws::scanned(rest, Quote::Double, Some(w)),
{
    let s = seq!['"'] + w + rest;
    assert(s.skip(1) =~= w + rest);
    command_laws::lemma_double(w, rest, seq![]);
    assert(Seq::<char>::empty() + w =~= w);
}

spec fn collapse_words(t: Seq<char>, v: Seq<char>) -> Seq<Seq<char>> {
    seq!["if-shell"@, "-F"@, "-t"@, v, "#{window_zoomed_flag}"@, "resize-pane -Z -t "@ + t]
}

proof fn lemma_six(
    a: Seq<char>,
    b: Seq<char>,
    c: Seq<char>,
    e: Seq<char>,
    f: Seq<char>,
    g: Seq<char>,
    more: Seq<Seq<Seq<char>>>,
)
    ensures
        command_laws::with_word(
            a,
            command_laws::with_word(
                b,
                command_laws::with_word(
                    c,
                    command_laws::with_word(
                        e,
                        command_laws::with_word(
                            f,
                            command_laws::with_word(g, command_laws::with_end(Some(more))),
                        ),
                    ),
                ),
            ),
        ) == Some(seq![seq![a, b, c, e, f, g]] + more),
{
    lemma_five(b, c, e, f, g, more);
    command_laws::lemma_put(a, seq![b, c, e, f, g], more);
    assert(seq![a] + seq![b, c, e, f, g] =~= seq![a, b, c, e, f, g]);
}

/// A collapse ends the zoom of its window where there is one.
proof fn lemma_collapse_done(p: Places, t: Seq<char>, v: Seq<char>, d: Desk)
    requires
        reads(t, v),
    ensures
        command_laws::done(p, collapse_words(t, v), 1, d) == Some(
            Desk { zoom: d.zoom.remove((p.window)(v)), ..d },
        ),
{
    command_laws::lemma_names();
    let words = collapse_words(t, v);
    let w = (p.window)(v);
    command_laws::lemma_nothing(p, 0, d);
    assert(command_laws::picked(d, w, words) == (if d.zoom.contains_key(w) {
        "resize-pane -Z -t "@ + t
    } else {
        Seq::<char>::empty()
    }));
    if d.zoom.contains_key(w) {
        let no = Seq::<char>::empty();
        command_laws::lemma_heads(t + no);
        assert(t + no =~= t);
        assert(command_laws::scanned(t + no, Quote::Outside, None) == command_laws::scanned(
            no,
            Quote::Outside,
            Some(v),
        ));
        command_laws::lemma_last(v);
        command_laws::lemma_three("-Z"@, "-t"@, v, seq![]);
        let none = Seq::<Seq<Seq<char>>>::empty();
        assert(seq![seq!["-Z"@, "-t"@, v]] =~= seq![seq!["-Z"@, "-t"@, v]] + none);
        command_laws::lemma_put("resize-pane"@, seq!["-Z"@, "-t"@, v], none);
        let c = seq!["resize-pane"@] + seq!["-Z"@, "-t"@, v];
        let all = seq![c] + none;
        let end = Desk { zoom: d.zoom.remove(w), ..d };
        assert(c[0] == "resize-pane"@ && c[1] == "-Z"@ && c[2] == "-t"@ && c[3] == v);
        assert(c.len() == 4);
        assert(command_laws::done(p, c, 0, d) == Some(end));
        assert(all[0] == c);
        assert(all.skip(1) =~= none);
        assert(command_laws::ran(p, none, 0, end) == Some(end));
        assert(command_laws::ran(p, all, 0, d) == Some(end));
    } else {
        assert(d.zoom.remove(w) =~= d.zoom);
    }
}

/// Both entries of an allocation are gone.
pub open spec fn without_pair(d: Desk, scope: Seq<char>, index: u32) -> Desk {
    Desk {
        hooks: d.hooks.remove((scope, entry("client-detached"@, index))).remove(
            (scope, entry("client-session-changed"@, index)),
        ),
        ..d
    }
}

proof fn lemma_remove_ran(p: Places, v: Seq<char>, index: u32, d: Desk)
    ensures
        command_laws::ran(
            p,
            seq![
                unset_words(v, "client-detached"@, index),
                unset_words(v, "client-session-changed"@, index),
            ],
            1,
            d,
        ) == Some(without_pair(d, scope_word(v), index)),
{
    command_laws::lemma_names();
    let a = unset_words(v, "client-detached"@, index);
    let b = unset_words(v, "client-session-changed"@, index);
    let all = seq![a, b];
    let d1 = Desk {
        hooks: d.hooks.remove((scope_word(v), entry("client-detached"@, index))),
        ..d
    };
    let d2 = without_pair(d, scope_word(v), index);
    assert(command_laws::done(p, a, 1, d) == Some(d1));
    assert(command_laws::done(p, b, 1, d1) == Some(d2));
    let t1 = all.skip(1);
    let t2 = t1.skip(1);
    assert(t1[0] == b && t2.len() == 0);
    assert(command_laws::ran(p, t2, 1, d2) == Some(d2));
    assert(command_laws::ran(p, t1, 1, d1) == Some(d2));
}

/// Running a hook's body collapses the zoom of its window where there is one,
/// and unsets both hooks.
proof fn lemma_body_ran(
    p: Places,
    t: Seq<char>,
    v: Seq<char>,
    scope: Seq<char>,
    sv: Seq<char>,
    index: u32,
    d: Desk,
)
    requires
        reads(t, v),
        !t.contains('"'),
        reads(scope, sv),
    ensures
        command_laws::ran_line(p, hooks::hook_body(t, scope, index), d) == Some(
            without_pair(
                Desk { zoom: d.zoom.remove((p.window)(v)), ..d },
                scope_word(sv),
                index,
            ),
        ),
{
    let remove = hooks::remove_pair(scope, index);
    let more = seq![
        unset_words(sv, "client-detached"@, index),
        unset_words(sv, "client-session-changed"@, index),
    ];
    lemma_remove_read(scope, sv, index);
    command_laws::lemma_chars_assoc(hooks::collapse(t), " ; "@, remove);
    lemma_collapse_scanned(t, v, " ; "@ + remove);
    let toggle = "resize-pane -Z -t "@ + t;
    command_laws::lemma_semicolon(toggle, remove);
    lemma_six("if-shell"@, "-F"@, "-t"@, v, "#{window_zoomed_flag}"@, toggle, more);
    let all = seq![collapse_words(t, v)] + more;
    assert(command_laws::commands_of(hooks::hook_body(t, scope, index)) == Some(all));
    lemma_collapse_done(p, t, v, d);
    let d1 = Desk { zoom: d.zoom.remove((p.window)(v)), ..d };
    lemma_remove_ran(p, sv, index, d1);
    assert(all[0] == collapse_words(t, v));
    assert(all.skip(1) =~= more);
}

/// The scope of a session's hooks.
pub open spec fn session_scope(session: Seq<char>) -> Seq<char> {
    scope_word(quote::hashes_doubled(seq!['='] + session))
}

/// What the recovery hook of a session runs ends the zoom of its window where
/// there is one, unsets both hooks, and changes nothing else.  An orderly
/// disconnect runs the same.  Names with a quotation mark are left aside.
pub proof fn law_a_recovery_hook_restores_and_removes_itself(
    p: Places,
    session: Seq<char>,
    index: u32,
    window_id: u64,
    d: Desk,
)
    requires
        hooks::hook_body_for_session(session, index, window_id) is Ok,
        !session.contains('"'),
    ensures
        command_laws::ran_line(
            p,
            hooks::hook_body_for_session(session, index, window_id)->Ok_0,
            d,
        ) == Some(
            without_pair(
                Desk {
                    zoom: d.zoom.remove(
                        (p.window)(command_laws::session_window(session, window_id)),
                    ),
                    ..d
                },
                session_scope(session),
                index,
            ),
        ),
{
    reveal_strlit("=");
    reveal_strlit(":@");
    assert("="@ =~= seq!['=']);
    assert(":@"@ =~= seq![':', '@']);
    let value = "="@ + session + ":@"@ + text::decimal(window_id as nat);
    law_an_argument_is_one_word(value);
    law_an_argument_is_one_word("="@ + session);
    let t = quote::window_target_text(session, window_id)->Ok_0;
    assert(!t.contains('"')) by {
        command_laws::lemma_decimal_plain(window_id as nat);
        assert(!value.contains('"')) by {
            if value.contains('"') {
                let i = choose|i: int| 0 <= i < value.len() && value[i] == '"';
                if 1 <= i < 1 + session.len() {
                    assert(session[i - 1] == '"');
                } else if i >= 3 + session.len() {
                    assert(command_laws::is_plain(
                        text::decimal(window_id as nat)[i - 3 - session.len()],
                    ));
                }
            }
        }
        lemma_quoted_lacks(value);
    }
    lemma_body_ran(
        p,
        t,
        quote::hashes_doubled(value),
        quote::session_target_text(session)->Ok_0,
        quote::hashes_doubled("="@ + session),
        index,
        d,
    );
}

/// Quoting adds no quotation mark.
proof fn lemma_quoted_lacks(v: Seq<char>)
    requires
        !v.contains('"'),
    ensures
        !quote::quoted_chars(v).contains('"'),
        !(seq!['\''] + quote::quoted_chars(v) + seq!['\'']).contains('"'),
    decreases v.len(),
{
    if v.len() > 0 {
        let front = v.drop_last();
        assert(!front.contains('"')) by {
            if front.contains('"') {
                let i = choose|i: int| 0 <= i < front.len() && front[i] == '"';
                assert(v[i] == '"');
            }
        }
        lemma_quoted_lacks(front);
        assert(v.contains(v.last()));
        reveal_strlit("'\\''");
        reveal_strlit("##");
        let q = quote::quoted_chars(front);
        let c = quote::quoted_char(v.last());
        assert forall|i: int| 0 <= i < (q + c).len() implies (q + c)[i] != '"' by {
            if i < q.len() {
                assert(q.contains(q[i]));
            }
        }
    }
    let q = quote::quoted_chars(v);
    let all = seq!['\''] + q + seq!['\''];
    assert forall|i: int| 0 <= i < all.len() implies all[i] != '"' by {
        if 1 <= i < 1 + q.len() {
            assert(q.contains(q[i - 1]));
            assert(all[i] == q[i - 1]);
        }
    }
}

/// Removing the recovery hooks unsets both and changes nothing else.
pub proof fn law_removing_the_hooks_unsets_both(
    p: Places,
    session: Seq<char>,
    index: u32,
    d: Desk,
)
    requires
        hooks::remove_for_session(session, index) is Ok,
    ensures
        command_laws::ran_line(p, hooks::remove_for_session(session, index)->Ok_0, d) == Some(
            without_pair(d, session_scope(session), index),
        ),
{
    reveal_strlit("=");
    assert("="@ =~= seq!['=']);
    law_an_argument_is_one_word("="@ + session);
    let v = quote::hashes_doubled("="@ + session);
    lemma_remove_read(quote::session_target_text(session)->Ok_0, v, index);
    lemma_remove_ran(p, v, index, d);
}

/// A text between apostrophes, and what it adds to the word there.
pub open spec fn inside(t: Seq<char>, v: Seq<char>) -> bool {
    forall|rest: Seq<char>, word: Seq<char>| #[trigger]
        command_laws::scanned(t + rest, Quote::Single, Some(word)) == command_laws::scanned(
            rest,
            Quote::Single,
            Some(word + v),
        )
}

proof fn lemma_inside_join(a: Seq<char>, x: Seq<char>, b: Seq<char>, y: Seq<char>)
    requires
        inside(a, x),
        inside(b, y),
    ensures
        inside(a + b, x + y),
{
    assert forall|rest: Seq<char>, word: Seq<char>| #[trigger]
        command_laws::scanned(a + b + rest, Quote::Single, Some(word)) == command_laws::scanned(
            rest,
            Quote::Single,
            Some(word + (x + y)),
        ) by {
        command_laws::lemma_chars_assoc(a, b, rest);
        command_laws::lemma_chars_assoc(word, x, y);
        assert(command_laws::scanned(a + (b + rest), Quote::Single, Some(word))
            == command_laws::scanned(b + rest, Quote::Single, Some(word + x)));
        assert(command_laws::scanned(b + rest, Quote::Single, Some(word + x))
            == command_laws::scanned(rest, Quote::Single, Some(word + x + y)));
    }
}

proof fn lemma_inside_same(a: Seq<char>)
    requires
        !a.contains('\''),
    ensures
        inside(a, a),
{
    assert forall|rest: Seq<char>, word: Seq<char>| #[trigger]
        command_laws::scanned(a + rest, Quote::Single, Some(word)) == command_laws::scanned(
            rest,
            Quote::Single,
            Some(word + a),
        ) by {
        command_laws::lemma_single(a, rest, word);
    }
}

proof fn lemma_inside_target(t: Seq<char>, v: Seq<char>)
    requires
        command_laws::written(t, v),
    ensures
        inside(t, v),
{
    assert forall|rest: Seq<char>, word: Seq<char>| #[trigger]
        command_laws::scanned(t + rest, Quote::Single, Some(word)) == command_laws::scanned(
            rest,
            Quote::Single,
            Some(word + v),
        ) by {
        command_laws::lemma_target_inside(t, v, rest, word);
    }
}

/// A collapse between apostrophes.
proof fn lemma_inside_collapse(t: Seq<char>, v: Seq<char>)
    requires
        command_laws::written(t, v),
    ensures
        inside(hooks::collapse(t), hooks::collapse(v)),
{
    let a = "if-shell -F -t "@;
    let b = " \"#{window_zoomed_flag}\" \"resize-pane -Z -t "@;
    let c = "\""@;
    assert(!a.contains('\'') && !b.contains('\'') && !c.contains('\'')) by {
        reveal_strlit("if-shell -F -t ");
        reveal_strlit(" \"#{window_zoomed_flag}\" \"resize-pane -Z -t ");
        reveal_strlit("\"");
    }
    lemma_inside_same(a);
    lemma_inside_same(b);
    lemma_inside_same(c);
    lemma_inside_target(t, v);
    lemma_inside_join(a, a, t, v);
    lemma_inside_join(a + t, a + v, b, b);
    lemma_inside_join(a + t + b, a + v + b, t, v);
    lemma_inside_join(a + t + b + t, a + v + b + v, c, c);
}

/// The removal of both hooks between apostrophes.
proof fn lemma_inside_remove(t: Seq<char>, v: Seq<char>, index: u32)
    requires
        command_laws::written(t, v),
    ensures
        inside(hooks::remove_pair(t, index), hooks::remove_pair(v, index)),
{
    let n = text::decimal(index as nat);
    let a = "set-hook -u -t "@;
    let b = ": client-detached["@;
    let c = "] ; set-hook -u -t "@;
    let e = ": client-session-changed["@;
    let f = "]"@;
    assert(!a.contains('\'') && !b.contains('\'') && !c.contains('\'') && !e.contains('\'')
        && !f.contains('\'')) by {
        reveal_strlit("set-hook -u -t ");
        reveal_strlit(": client-detached[");
        reveal_strlit("] ; set-hook -u -t ");
        reveal_strlit(": client-session-changed[");
        reveal_strlit("]");
    }
    assert(!n.contains('\'')) by {
        command_laws::lemma_decimal_plain(index as nat);
        if n.contains('\'') {
            let i = choose|i: int| 0 <= i < n.len() && n[i] == '\'';
            assert(command_laws::is_plain(n[i]));
        }
    }
    lemma_inside_same(a);
    lemma_inside_same(b);
    lemma_inside_same(c);
    lemma_inside_same(e);
    lemma_inside_same(f);
    lemma_inside_same(n);
    lemma_inside_target(t, v);
    lemma_inside_join(a, a, t, v);
    lemma_inside_join(a + t, a + v, b, b);
    lemma_inside_join(a + t + b, a + v + b, n, n);
    lemma_inside_join(a + t + b + n, a + v + b + n, c, c);
    lemma_inside_join(a + t + b + n + c, a + v + b + n + c, t, v);
    lemma_inside_join(a + t + b + n + c + t, a + v + b + n + c + v, e, e);
    lemma_inside_join(a + t + b + n + c + t + e, a + v + b + n + c + v + e, n, n);
    lemma_inside_join(a + t + b + n + c + t + e + n, a + v + b + n + c + v + e + n, f, f);
}

pub proof fn lemma_inside_body(
    t: Seq<char>,
    v: Seq<char>,
    scope: Seq<char>,
    sv: Seq<char>,
    index: u32,
)
    requires
        command_laws::written(t, v),
        command_laws::written(scope, sv),
    ensures
        inside(hooks::hook_body(t, scope, index), hooks::hook_body(v, sv, index)),
{
    let semi = " ; "@;
    assert(!semi.contains('\'')) by {
        reveal_strlit(" ; ");
    }
    lemma_inside_same(semi);
    lemma_inside_collapse(t, v);
    lemma_inside_remove(scope, sv, index);
    lemma_inside_join(hooks::collapse(t), hooks::collapse(v), semi, semi);
    lemma_inside_join(
        hooks::collapse(t) + semi,
        hooks::collapse(v) + semi,
        hooks::remove_pair(scope, index),
        hooks::remove_pair(sv, index),
    );
}

spec fn set_words(sv: Seq<char>, name: Seq<char>, index: u32, body: Seq<char>) -> Seq<
    Seq<char>,
> {
    seq!["set-hook"@, "-t"@, scope_word(sv), entry(name, index), body]
}

/// One hook as it is installed, in front of other text.
proof fn lemma_set_scanned(
    scope: Seq<char>,
    sv: Seq<char>,
    name: Seq<char>,
    index: u32,
    body: Seq<char>,
    stored: Seq<char>,
    rest: Seq<char>,
)
    requires
        reads(scope, sv),
        command_laws::plain(name),
        inside(body, stored),
    ensures
        command_laws::scanned(
            "set-hook -t "@ + (scope + (seq![':', ' '] + name + seq!['['] + text::decimal(
                index as nat,
            ) + seq![']'] + (seq![' ', '\''] + (body + (seq!['\''] + rest))))),
            Quote::Outside,
            None,
        ) == command_laws::with_word(
            "set-hook"@,
            command_laws::with_word(
                "-t"@,
                command_laws::with_word(
                    scope_word(sv),
                    command_laws::with_word(
                        entry(name, index),
                        command_laws::scanned(rest, Quote::Outside, Some(stored)),
                    ),
                ),
            ),
        ),
{
    let r2 = seq!['\''] + rest;
    let r1 = body + r2;
    let q = seq![' ', '\''] + r1;
    lemma_hook_heads(
        scope + (seq![':', ' '] + name + seq!['['] + text::decimal(index as nat) + seq![']'] + q),
    );
    lemma_entry(scope, sv, name, index, q);
    let none = Seq::<char>::empty();
    let q1 = seq!['\''] + r1;
    assert(q =~= seq![' '] + q1);
    command_laws::lemma_blank(q1, entry(name, index));
    assert(q1.skip(1) =~= r1);
    assert(command_laws::scanned(r1, Quote::Single, Some(none)) == command_laws::scanned(
        r2,
        Quote::Single,
        Some(none + stored),
    ));
    assert(none + stored =~= stored);
    assert(r2.skip(1) =~= rest);
    assert(command_laws::begun(None::<Seq<char>>) == none);
}

proof fn lemma_install_shape(scope: Seq<char>, index: u32, body: Seq<char>)
    ensures
        ({
            let n = text::decimal(index as nat);
            let set = "set-hook -t "@;
            let second = set + (scope + (seq![':', ' '] + "client-session-changed"@ + seq!['[']
                + n + seq![']'] + (seq![' ', '\''] + (body + (seq!['\''] + Seq::<char>::empty())))));
            hooks::install_pair(scope, index, body) == set + (scope + (seq![':', ' ']
                + "client-detached"@ + seq!['['] + n + seq![']'] + (seq![' ', '\''] + (body + (seq![
                '\'',
            ] + (" ; "@ + second))))))
        }),
{
    lemma_hook_literals();
    let n = text::decimal(index as nat);
    let set = "set-hook -t "@;
    let semi = " ; "@;
    let a = seq![':', ' '] + "client-detached"@ + seq!['['];
    let b = seq![':', ' '] + "client-session-changed"@ + seq!['['];
    let none = Seq::<char>::empty();
    let second = set + (scope + (b + n + seq![']'] + (seq![' ', '\''] + (body + (seq!['\'']
        + none)))));
    assert(second =~= set + scope + b + n + "] '"@ + body + "'"@);
    let first = set + (scope + (a + n + seq![']'] + (seq![' ', '\''] + (body + (seq!['\''] + (semi
        + second))))));
    assert(first =~= set + scope + a + n + "] '"@ + body + (seq!['\''] + semi + second));
    assert(seq!['\''] + semi + second =~= "' ; set-hook -t "@ + scope + b + n + "] '"@ + body
        + "'"@);
    let front = set + scope + a + n + "] '"@ + body;
    assert(front + ("' ; set-hook -t "@ + scope + b + n + "] '"@ + body + "'"@) =~= front
        + "' ; set-hook -t "@ + scope + b + n + "] '"@ + body + "'"@);
}

/// Both hooks are installed with the body as it is stored.
#[verifier::spinoff_prover]
pub proof fn lemma_install_ran(
    p: Places,
    scope: Seq<char>,
    sv: Seq<char>,
    index: u32,
    body: Seq<char>,
    stored: Seq<char>,
    d: Desk,
)
    requires
        reads(scope, sv),
        inside(body, stored),
    ensures
        command_laws::ran_line(p, hooks::install_pair(scope, index, body), d) == Some(
            Desk {
                hooks: d.hooks.insert(
                    (scope_word(sv), entry("client-detached"@, index)),
                    stored,
                ).insert((scope_word(sv), entry("client-session-changed"@, index)), stored),
                ..d
            },
        ),
{
    lemma_hook_literals();
    let cd = "client-detached"@;
    let cs = "client-session-changed"@;
    let n = text::decimal(index as nat);
    let none = Seq::<char>::empty();
    let set = "set-hook -t "@;
    let second = set + (scope + (seq![':', ' '] + cs + seq!['['] + n + seq![']'] + (seq![' ', '\'']
        + (body + (seq!['\''] + none)))));
    lemma_set_scanned(scope, sv, cs, index, body, stored, none);
    command_laws::lemma_last(stored);
    lemma_five("set-hook"@, "-t"@, scope_word(sv), entry(cs, index), stored, seq![]);
    let c2 = set_words(sv, cs, index, stored);
    assert(command_laws::commands_of(second) == Some(seq![c2]));
    lemma_set_scanned(scope, sv, cd, index, body, stored, " ; "@ + second);
    command_laws::lemma_semicolon(stored, second);
    lemma_five("set-hook"@, "-t"@, scope_word(sv), entry(cd, index), stored, seq![c2]);
    let c1 = set_words(sv, cd, index, stored);
    let all = seq![c1] + seq![c2];
    lemma_install_shape(scope, index, body);
    assert(command_laws::commands_of(hooks::install_pair(scope, index, body)) == Some(all));
    command_laws::lemma_names();
    let d1 = Desk { hooks: d.hooks.insert((scope_word(sv), entry(cd, index)), stored), ..d };
    let d2 = Desk { hooks: d1.hooks.insert((scope_word(sv), entry(cs, index)), stored), ..d };
    assert(command_laws::done(p, c1, 1, d) == Some(d1));
    assert(command_laws::done(p, c2, 1, d1) == Some(d2));
    let t1 = all.skip(1);
    let t2 = t1.skip(1);
    assert(all[0] == c1 && t1[0] == c2 && t2.len() == 0);
    assert(command_laws::ran(p, t2, 1, d2) == Some(d2));
    assert(command_laws::ran(p, t1, 1, d1) == Some(d2));
}

/// Installing the recovery hooks of a session sets both entries and changes
/// nothing else, and whichever of them runs later, on whatever desk, ends the
/// zoom of the window where there is one and unsets them both.  This is said of
/// the names of sessions that need no quotes.
pub proof fn law_installed_hooks_restore_the_window(
    p: Places,
    session: Seq<char>,
    index: u32,
    window_id: u64,
    d: Desk,
    later: Desk,
)
    requires
        command_laws::plain(session),
        hooks::install_for_session(session, index, window_id) is Ok,
    ensures
        ({
            let scope = session_scope(session);
            let after = command_laws::ran_line(
                p,
                hooks::install_for_session(session, index, window_id)->Ok_0,
                d,
            );
            let a = (scope, entry("client-detached"@, index));
            let b = (scope, entry("client-session-changed"@, index));
            let restored = without_pair(
                Desk {
                    zoom: later.zoom.remove(
                        (p.window)(command_laws::session_window(session, window_id)),
                    ),
                    ..later
                },
                scope,
                index,
            );
            &&& after is Some
            &&& after->0.current == d.current
            &&& after->0.active == d.active
            &&& after->0.zoom == d.zoom
            &&& after->0.hooks.contains_key(a)
            &&& after->0.hooks.contains_key(b)
            &&& after->0.hooks.remove(a).remove(b) == d.hooks.remove(a).remove(b)
            &&& command_laws::ran_line(p, after->0.hooks[a], later) == Some(restored)
            &&& command_laws::ran_line(p, after->0.hooks[b], later) == Some(restored)
        }),
{
    reveal_strlit("=");
    assert("="@ =~= seq!['=']);
    command_laws::lemma_session_targets(session, window_id, 0);
    let t = quote::window_target_text(session, window_id)->Ok_0;
    let v = command_laws::session_window(session, window_id);
    let scope = quote::session_target_text(session)->Ok_0;
    let sv = quote::hashes_doubled(seq!['='] + session);
    assert(command_laws::plain(seq!['=']));
    command_laws::lemma_plain_join(seq!['='], session);
    command_laws::lemma_argument_written(seq!['='] + session);
    let body = hooks::hook_body(t, scope, index);
    let stored = hooks::hook_body(v, sv, index);
    lemma_inside_body(t, v, scope, sv, index);
    lemma_written_reads(scope, sv);
    lemma_install_ran(p, scope, sv, index, body, stored, d);
    assert(command_laws::written(v, v));
    assert(command_laws::written(sv, sv));
    lemma_written_reads(v, v);
    lemma_written_reads(sv, sv);
    assert(!v.contains('"')) by {
        if v.contains('"') {
            let i = choose|i: int| 0 <= i < v.len() && v[i] == '"';
            assert(command_laws::is_plain(v[i]));
        }
    }
    lemma_body_ran(p, v, v, sv, sv, index, later);
    let a = (session_scope(session), entry("client-detached"@, index));
    let b = (session_scope(session), entry("client-session-changed"@, index));
    assert(d.hooks.insert(a, stored).insert(b, stored).remove(a).remove(b) =~= d.hooks.remove(
        a,
    ).remove(b));
}

} // verus!
