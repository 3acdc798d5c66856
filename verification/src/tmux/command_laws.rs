//! What the commands do when tmux reads and runs them.

use vstd::prelude::*;
use vstd::string::*;

use crate::text;
use crate::tmux::commands;
use crate::tmux::quote;

verus! {

/// Where the reader of a command stands: outside of quotes, or inside of
/// apostrophes or quotation marks.
pub enum Quote {
    Outside,
    Single,
    Double,
}

/// A word that may not have begun yet.
pub open spec fn begun(word: Option<Seq<char>>) -> Seq<char> {
    match word {
        Some(w) => w,
        None => seq![],
    }
}

/// A word in front of the first command.
pub open spec fn with_word(w: Seq<char>, rest: Option<Seq<Seq<Seq<char>>>>) -> Option<
    Seq<Seq<Seq<char>>>,
> {
    match rest {
        Some(all) => if all.len() > 0 {
            Some(seq![seq![w] + all[0]] + all.skip(1))
        } else {
            None
        },
        None => None,
    }
}

/// The end of a command in front of others.
pub open spec fn with_end(rest: Option<Seq<Seq<Seq<char>>>>) -> Option<Seq<Seq<Seq<char>>>> {
    match rest {
        Some(all) => Some(seq![Seq::<Seq<char>>::empty()] + all),
        None => None,
    }
}

/// How tmux reads a line: commands between semicolons, words between blanks,
/// quoted pieces and backslashed characters.  Variables and braces are left
/// aside.
pub open spec fn scanned(s: Seq<char>, quote: Quote, word: Option<Seq<char>>) -> Option<
    Seq<Seq<Seq<char>>>,
>
    decreases s.len(),
{
    if s.len() == 0 {
        match (quote, word) {
            (Quote::Outside, Some(w)) => Some(seq![seq![w]]),
            (Quote::Outside, None) => Some(seq![Seq::<Seq<char>>::empty()]),
            _ => None,
        }
    } else {
        match quote {
            Quote::Single => if s[0] == '\'' {
                scanned(s.skip(1), Quote::Outside, word)
            } else {
                scanned(s.skip(1), Quote::Single, Some(begun(word).push(s[0])))
            },
            Quote::Double => if s[0] == '"' {
                scanned(s.skip(1), Quote::Outside, word)
            } else {
                scanned(s.skip(1), Quote::Double, Some(begun(word).push(s[0])))
            },
            Quote::Outside => if s[0] == '\'' {
                scanned(s.skip(1), Quote::Single, Some(begun(word)))
            } else if s[0] == '"' {
                scanned(s.skip(1), Quote::Double, Some(begun(word)))
            } else if s[0] == ' ' {
                match word {
                    Some(w) => with_word(w, scanned(s.skip(1), Quote::Outside, None)),
                    None => scanned(s.skip(1), Quote::Outside, None),
                }
            } else if s[0] == ';' && word is None {
                with_end(scanned(s.skip(1), Quote::Outside, None))
            } else if s[0] == '\\' && s.len() >= 2 {
                scanned(s.skip(2), Quote::Outside, Some(begun(word).push(s[1])))
            } else {
                scanned(s.skip(1), Quote::Outside, Some(begun(word).push(s[0])))
            },
        }
    }
}

/// The commands of a line, each as its words.
pub open spec fn commands_of(s: Seq<char>) -> Option<Seq<Seq<Seq<char>>>> {
    scanned(s, Quote::Outside, None)
}

/// A character that stands for itself outside of quotes.
pub open spec fn is_plain(c: char) -> bool {
    c != ' ' && c != '\'' && c != '"' && c != '\\' && c != ';'
}

/// A text that is one word without quotes.
pub open spec fn plain(s: Seq<char>) -> bool {
    forall|i: int| 0 <= i < s.len() ==> is_plain(#[trigger] s[i])
}

/// A target that is written as it is, or between apostrophes.
pub open spec fn written(t: Seq<char>, v: Seq<char>) -> bool {
    &&& plain(v)
    &&& v.len() > 0
    &&& t == v || t == seq!['\''] + v + seq!['\'']
}

pub proof fn lemma_plain(w: Seq<char>, rest: Seq<char>, word: Option<Seq<char>>)
    requires
        plain(w),
        w.len() > 0,
    ensures
        scanned(w + rest, Quote::Outside, word) == scanned(
            rest,
            Quote::Outside,
            Some(begun(word) + w),
        ),
    decreases w.len(),
{
    let s = w + rest;
    assert(is_plain(w[0]));
    assert(s[0] == w[0]);
    let more = w.skip(1);
    assert(s.skip(1) =~= more + rest);
    let next = Some(begun(word).push(w[0]));
    if more.len() == 0 {
        assert(more + rest =~= rest);
        assert(begun(word).push(w[0]) =~= begun(word) + w);
    } else {
        assert forall|i: int| 0 <= i < more.len() implies is_plain(#[trigger] more[i]) by {
            assert(more[i] == w[i + 1]);
        }
        lemma_plain(more, rest, next);
        assert(begun(next) + more =~= begun(word) + w);
    }
}

pub proof fn lemma_single(w: Seq<char>, rest: Seq<char>, word: Seq<char>)
    requires
        !w.contains('\''),
    ensures
        scanned(w + rest, Quote::Single, Some(word)) == scanned(
            rest,
            Quote::Single,
            Some(word + w),
        ),
    decreases w.len(),
{
    if w.len() == 0 {
        assert(w + rest =~= rest);
        assert(word + w =~= word);
    } else {
        let s = w + rest;
        let more = w.skip(1);
        assert(w.contains(w[0]));
        assert(s[0] == w[0]);
        assert(s.skip(1) =~= more + rest);
        assert(!more.contains('\'')) by {
            if more.contains('\'') {
                let i = choose|i: int| 0 <= i < more.len() && more[i] == '\'';
                assert(w[i + 1] == '\'');
            }
        }
        lemma_single(more, rest, word.push(w[0]));
        assert(word.push(w[0]) + more =~= word + w);
    }
}

pub proof fn lemma_double(w: Seq<char>, rest: Seq<char>, word: Seq<char>)
    requires
        !w.contains('"'),
    ensures
        scanned(w + rest, Quote::Double, Some(word)) == scanned(
            rest,
            Quote::Double,
            Some(word + w),
        ),
    decreases w.len(),
{
    if w.len() == 0 {
        assert(w + rest =~= rest);
        assert(word + w =~= word);
    } else {
        let s = w + rest;
        let more = w.skip(1);
        assert(w.contains(w[0]));
        assert(s[0] == w[0]);
        assert(s.skip(1) =~= more + rest);
        assert(!more.contains('"')) by {
            if more.contains('"') {
                let i = choose|i: int| 0 <= i < more.len() && more[i] == '"';
                assert(w[i + 1] == '"');
            }
        }
        lemma_double(more, rest, word.push(w[0]));
        assert(word.push(w[0]) + more =~= word + w);
    }
}

pub proof fn lemma_blank(rest: Seq<char>, w: Seq<char>)
    ensures
        scanned(seq![' '] + rest, Quote::Outside, Some(w)) == with_word(
            w,
            scanned(rest, Quote::Outside, None),
        ),
{
    assert((seq![' '] + rest).skip(1) =~= rest);
}

/// One unquoted word and the blank behind it.
pub proof fn lemma_word(w: Seq<char>, rest: Seq<char>)
    requires
        plain(w),
        w.len() > 0,
    ensures
        scanned(w + (seq![' '] + rest), Quote::Outside, None) == with_word(
            w,
            scanned(rest, Quote::Outside, None),
        ),
{
    lemma_plain(w, seq![' '] + rest, None);
    assert(begun(None::<Seq<char>>) + w =~= w);
    lemma_blank(rest, w);
}

/// The semicolon behind a word.
pub proof fn lemma_semicolon(w: Seq<char>, rest: Seq<char>)
    ensures
        scanned(" ; "@ + rest, Quote::Outside, Some(w)) == with_word(
            w,
            with_end(scanned(rest, Quote::Outside, None)),
        ),
{
    reveal_strlit(" ; ");
    let s = " ; "@ + rest;
    let t = s.skip(1);
    assert(t[0] == ';');
    let u = t.skip(1);
    assert(u[0] == ' ');
    assert(u.skip(1) =~= rest);
    assert(scanned(u, Quote::Outside, None) == scanned(rest, Quote::Outside, None));
    assert(scanned(t, Quote::Outside, None) == with_end(scanned(u, Quote::Outside, None)));
}

pub proof fn lemma_target(t: Seq<char>, v: Seq<char>, rest: Seq<char>)
    requires
        written(t, v),
    ensures
        scanned(t + rest, Quote::Outside, None) == scanned(rest, Quote::Outside, Some(v)),
{
    assert(begun(None::<Seq<char>>) + v =~= v);
    if t == v {
        lemma_plain(v, rest, None);
    } else {
        let s = t + rest;
        let tail = seq!['\''] + rest;
        assert(s[0] == '\'');
        assert(s.skip(1) =~= v + tail);
        assert(!v.contains('\'')) by {
            if v.contains('\'') {
                let i = choose|i: int| 0 <= i < v.len() && v[i] == '\'';
                assert(is_plain(v[i]));
            }
        }
        lemma_single(v, tail, seq![]);
        assert(Seq::<char>::empty() + v =~= v);
        assert(tail.skip(1) =~= rest);
    }
}

/// A target inside of apostrophes: its own apostrophes leave them and come
/// back.
pub proof fn lemma_target_inside(t: Seq<char>, v: Seq<char>, rest: Seq<char>, word: Seq<char>)
    requires
        written(t, v),
    ensures
        scanned(t + rest, Quote::Single, Some(word)) == scanned(
            rest,
            Quote::Single,
            Some(word + v),
        ),
{
    if t == v {
        assert(!v.contains('\'')) by {
            if v.contains('\'') {
                let i = choose|i: int| 0 <= i < v.len() && v[i] == '\'';
                assert(is_plain(v[i]));
            }
        }
        lemma_single(v, rest, word);
    } else {
        let s = t + rest;
        let tail = seq!['\''] + rest;
        assert(s[0] == '\'');
        assert(s.skip(1) =~= v + tail);
        lemma_plain(v, tail, Some(word));
        assert(tail[0] == '\'');
        assert(tail.skip(1) =~= rest);
    }
}

/// Where tmux finds the window and the pane of a target.
pub struct Places {
    pub window: spec_fn(Seq<char>) -> int,
    pub pane: spec_fn(Seq<char>) -> int,
}

/// What commands change: the current window, the active pane of each window,
/// the pane that a window is zoomed on, and the hooks by session and entry.
pub struct Desk {
    pub current: int,
    pub active: Map<int, int>,
    pub zoom: Map<int, int>,
    pub hooks: Map<(Seq<char>, Seq<char>), Seq<char>>,
}

/// A pane becomes the active one of its window.  A window that shows another
/// pane alone shows all of them again.
pub open spec fn pane_selected(d: Desk, window: int, pane: int) -> Desk {
    if d.active.contains_key(window) && d.active[window] == pane {
        d
    } else {
        Desk { active: d.active.insert(window, pane), zoom: d.zoom.remove(window), ..d }
    }
}

/// The zoom of a pane's window is toggled.
pub open spec fn zoom_toggled(d: Desk, window: int, pane: int) -> Desk {
    if d.zoom.contains_key(window) {
        Desk { zoom: d.zoom.remove(window), ..d }
    } else {
        Desk { zoom: d.zoom.insert(window, pane), ..d }
    }
}

/// The command that `if-shell` picks by the zoom of a window.
pub open spec fn picked(d: Desk, window: int, words: Seq<Seq<char>>) -> Seq<char> {
    if d.zoom.contains_key(window) {
        words[5]
    } else if words.len() == 7 {
        words[6]
    } else {
        seq![]
    }
}

/// How tmux runs one command, as far as selection, zoom and hooks go.
pub open spec fn done(p: Places, words: Seq<Seq<char>>, deep: nat, d: Desk) -> Option<Desk>
    decreases deep, 0nat,
{
    if words.len() == 0 {
        Some(d)
    } else if words[0] == "select-window"@ {
        if words.len() == 3 && words[1] == "-t"@ {
            Some(Desk { current: (p.window)(words[2]), ..d })
        } else {
            None
        }
    } else if words[0] == "select-pane"@ {
        if words.len() == 3 && words[1] == "-t"@ {
            Some(pane_selected(d, (p.window)(words[2]), (p.pane)(words[2])))
        } else {
            None
        }
    } else if words[0] == "resize-pane"@ {
        if words.len() == 4 && words[1] == "-Z"@ && words[2] == "-t"@ {
            Some(zoom_toggled(d, (p.window)(words[3]), (p.pane)(words[3])))
        } else {
            None
        }
    } else if words[0] == "if-shell"@ {
        if (words.len() == 6 || words.len() == 7) && words[1] == "-F"@ && words[2] == "-t"@
            && words[4] == "#{window_zoomed_flag}"@ && deep > 0 {
            match commands_of(picked(d, (p.window)(words[3]), words)) {
                Some(all) => ran(p, all, (deep - 1) as nat, d),
                None => None,
            }
        } else {
            None
        }
    } else if words[0] == "set-hook"@ {
        if words.len() == 5 && words[1] == "-u"@ && words[2] == "-t"@ {
            Some(Desk { hooks: d.hooks.remove((words[3], words[4])), ..d })
        } else if words.len() == 5 && words[1] == "-t"@ {
            Some(Desk { hooks: d.hooks.insert((words[2], words[3]), words[4]), ..d })
        } else {
            None
        }
    } else {
        None
    }
}

/// How tmux runs commands, one after another.
pub open spec fn ran(p: Places, all: Seq<Seq<Seq<char>>>, deep: nat, d: Desk) -> Option<Desk>
    decreases deep, all.len() + 1,
{
    if all.len() == 0 {
        Some(d)
    } else {
        match done(p, all[0], deep, d) {
            Some(next) => ran(p, all.skip(1), deep, next),
            None => None,
        }
    }
}

/// How tmux runs a line.
pub open spec fn ran_line(p: Places, line: Seq<char>, d: Desk) -> Option<Desk> {
    match commands_of(line) {
        Some(all) => ran(p, all, 1, d),
        None => None,
    }
}

pub proof fn lemma_names()
    ensures
        "select-window"@ != "select-pane"@,
        "select-window"@ != "resize-pane"@,
        "select-window"@ != "if-shell"@,
        "select-window"@ != "set-hook"@,
        "select-pane"@ != "resize-pane"@,
        "select-pane"@ != "if-shell"@,
        "select-pane"@ != "set-hook"@,
        "resize-pane"@ != "if-shell"@,
        "resize-pane"@ != "set-hook"@,
        "if-shell"@ != "set-hook"@,
        "-u"@ != "-t"@,
{
    reveal_strlit("select-window");
    reveal_strlit("select-pane");
    reveal_strlit("resize-pane");
    reveal_strlit("if-shell");
    reveal_strlit("set-hook");
    reveal_strlit("-u");
    reveal_strlit("-t");
    assert("select-window"@.len() == 13);
    assert("select-pane"@.len() == 11);
    assert("set-hook"@.len() == 8);
    assert("select-pane"@[0] != "resize-pane"@[0]);
    assert("if-shell"@[0] != "set-hook"@[0]);
    assert("-u"@[1] != "-t"@[1]);
}

pub proof fn lemma_put(w: Seq<char>, c: Seq<Seq<char>>, more: Seq<Seq<Seq<char>>>)
    ensures
        with_word(w, Some(seq![c] + more)) == Some(seq![seq![w] + c] + more),
{
    assert((seq![c] + more).skip(1) =~= more);
    assert((seq![c] + more)[0] == c);
}

proof fn lemma_end(all: Seq<Seq<Seq<char>>>)
    ensures
        with_end(Some(all)) == Some(seq![Seq::<Seq<char>>::empty()] + all),
{
}

/// The words in front of a target.
pub proof fn lemma_heads(rest: Seq<char>)
    ensures
        scanned("select-window -t "@ + rest, Quote::Outside, None) == with_word(
            "select-window"@,
            with_word("-t"@, scanned(rest, Quote::Outside, None)),
        ),
        scanned("select-pane -t "@ + rest, Quote::Outside, None) == with_word(
            "select-pane"@,
            with_word("-t"@, scanned(rest, Quote::Outside, None)),
        ),
        scanned("resize-pane -Z -t "@ + rest, Quote::Outside, None) == with_word(
            "resize-pane"@,
            with_word("-Z"@, with_word("-t"@, scanned(rest, Quote::Outside, None))),
        ),
        scanned("if-shell -F -t "@ + rest, Quote::Outside, None) == with_word(
            "if-shell"@,
            with_word("-F"@, with_word("-t"@, scanned(rest, Quote::Outside, None))),
        ),
{
    reveal_strlit("-t");
    reveal_strlit("-Z");
    reveal_strlit("-F");
    lemma_word("-t"@, rest);
    let t = "-t"@ + (seq![' '] + rest);
    assert("select-window -t "@ + rest =~= "select-window"@ + (seq![' '] + t)) by {
        reveal_strlit("select-window -t ");
        reveal_strlit("select-window");
    }
    assert(plain("select-window"@) && "select-window"@.len() > 0) by {
        reveal_strlit("select-window");
    }
    lemma_word("select-window"@, t);
    assert("select-pane -t "@ + rest =~= "select-pane"@ + (seq![' '] + t)) by {
        reveal_strlit("select-pane -t ");
        reveal_strlit("select-pane");
    }
    assert(plain("select-pane"@) && "select-pane"@.len() > 0) by {
        reveal_strlit("select-pane");
    }
    lemma_word("select-pane"@, t);
    lemma_word("-Z"@, t);
    let z = "-Z"@ + (seq![' '] + t);
    assert("resize-pane -Z -t "@ + rest =~= "resize-pane"@ + (seq![' '] + z)) by {
        reveal_strlit("resize-pane -Z -t ");
        reveal_strlit("resize-pane");
    }
    assert(plain("resize-pane"@) && "resize-pane"@.len() > 0) by {
        reveal_strlit("resize-pane");
    }
    lemma_word("resize-pane"@, z);
    lemma_word("-F"@, t);
    let f = "-F"@ + (seq![' '] + t);
    assert("if-shell -F -t "@ + rest =~= "if-shell"@ + (seq![' '] + f)) by {
        reveal_strlit("if-shell -F -t ");
        reveal_strlit("if-shell");
    }
    assert(plain("if-shell"@) && "if-shell"@.len() > 0) by {
        reveal_strlit("if-shell");
    }
    lemma_word("if-shell"@, f);
}

/// A piece between apostrophes, the word that it makes, and a blank.
proof fn lemma_quoted_word(w: Seq<char>, rest: Seq<char>)
    requires
        !w.contains('\''),
    ensures
        scanned(seq!['\''] + w + seq!['\''] + (seq![' '] + rest), Quote::Outside, None)
            == with_word(w, scanned(rest, Quote::Outside, None)),
{
    let tail = seq!['\''] + (seq![' '] + rest);
    let s = seq!['\''] + w + seq!['\''] + (seq![' '] + rest);
    assert(s.skip(1) =~= w + tail);
    lemma_single(w, tail, seq![]);
    assert(Seq::<char>::empty() + w =~= w);
    assert(tail.skip(1) =~= seq![' '] + rest);
    lemma_blank(rest, w);
}

proof fn lemma_open_quote(w: Seq<char>, rest: Seq<char>)
    requires
        !w.contains('\''),
    ensures
        scanned(seq!['\''] + w + rest, Quote::Outside, None) == scanned(
            rest,
            Quote::Single,
            Some(w),
        ),
{
    let s = seq!['\''] + w + rest;
    assert(s.skip(1) =~= w + rest);
    lemma_single(w, rest, seq![]);
    assert(Seq::<char>::empty() + w =~= w);
}

/// The flag and the branches of a selection.
proof fn lemma_unless_zoomed(w: Seq<char>, rest: Seq<char>)
    ensures
        scanned(
            " '#{window_zoomed_flag}' '' 'resize-pane -Z -t "@ + rest,
            Quote::Outside,
            Some(w),
        ) == with_word(
            w,
            with_word(
                "#{window_zoomed_flag}"@,
                with_word(
                    Seq::<char>::empty(),
                    scanned(rest, Quote::Single, Some("resize-pane -Z -t "@)),
                ),
            ),
        ),
{
    let flag = "#{window_zoomed_flag}"@;
    let resize = "resize-pane -Z -t "@;
    let no = Seq::<char>::empty();
    let last = seq!['\''] + resize + rest;
    let middle = seq!['\''] + no + seq!['\''] + (seq![' '] + last);
    let first = seq!['\''] + flag + seq!['\''] + (seq![' '] + middle);
    assert(!flag.contains('\'')) by {
        reveal_strlit("#{window_zoomed_flag}");
    }
    assert(!resize.contains('\'')) by {
        reveal_strlit("resize-pane -Z -t ");
    }
    lemma_blank(first, w);
    lemma_quoted_word(flag, middle);
    lemma_quoted_word(no, last);
    lemma_open_quote(resize, rest);
    assert(" '#{window_zoomed_flag}' '' 'resize-pane -Z -t "@ + rest =~= seq![' '] + first) by {
        reveal_strlit(" '#{window_zoomed_flag}' '' 'resize-pane -Z -t ");
        reveal_strlit("#{window_zoomed_flag}");
        reveal_strlit("resize-pane -Z -t ");
    }
}

/// The flag and the first branch of a restore.
proof fn lemma_where_zoomed(w: Seq<char>, rest: Seq<char>)
    ensures
        scanned(
            " '#{window_zoomed_flag}' 'resize-pane -Z -t "@ + rest,
            Quote::Outside,
            Some(w),
        ) == with_word(
            w,
            with_word(
                "#{window_zoomed_flag}"@,
                scanned(rest, Quote::Single, Some("resize-pane -Z -t "@)),
            ),
        ),
{
    let flag = "#{window_zoomed_flag}"@;
    let resize = "resize-pane -Z -t "@;
    let last = seq!['\''] + resize + rest;
    let first = seq!['\''] + flag + seq!['\''] + (seq![' '] + last);
    assert(!flag.contains('\'')) by {
        reveal_strlit("#{window_zoomed_flag}");
    }
    assert(!resize.contains('\'')) by {
        reveal_strlit("resize-pane -Z -t ");
    }
    lemma_blank(first, w);
    lemma_quoted_word(flag, last);
    lemma_open_quote(resize, rest);
    assert(" '#{window_zoomed_flag}' 'resize-pane -Z -t "@ + rest =~= seq![' '] + first) by {
        reveal_strlit(" '#{window_zoomed_flag}' 'resize-pane -Z -t ");
        reveal_strlit("#{window_zoomed_flag}");
        reveal_strlit("resize-pane -Z -t ");
    }
}

/// The empty branch behind the first one.
proof fn lemma_empty_branch(w: Seq<char>, rest: Seq<char>)
    ensures
        scanned("' ''"@ + rest, Quote::Single, Some(w)) == with_word(
            w,
            scanned(rest, Quote::Outside, Some(Seq::<char>::empty())),
        ),
{
    reveal_strlit("' ''");
    let s = "' ''"@ + rest;
    let a = s.skip(1);
    let b = a.skip(1);
    let c = b.skip(1);
    assert(s[0] == '\'' && a[0] == ' ' && b[0] == '\'' && c[0] == '\'');
    assert(c.skip(1) =~= rest);
    assert(scanned(c, Quote::Single, Some(Seq::<char>::empty())) == scanned(
        rest,
        Quote::Outside,
        Some(Seq::<char>::empty()),
    ));
    assert(scanned(b, Quote::Outside, None) == scanned(
        c,
        Quote::Single,
        Some(Seq::<char>::empty()),
    ));
    assert(scanned(a, Quote::Outside, Some(w)) == with_word(w, scanned(b, Quote::Outside, None)));
}

/// A toggle of one target.
proof fn lemma_toggle(p: Places, v: Seq<char>, deep: nat, d: Desk)
    requires
        plain(v),
        v.len() > 0,
    ensures
        commands_of("resize-pane -Z -t "@ + v) is Some,
        ran(p, commands_of("resize-pane -Z -t "@ + v)->0, deep, d) == Some(
            zoom_toggled(d, (p.window)(v), (p.pane)(v)),
        ),
{
    lemma_heads(v);
    lemma_plain(v, seq![], None);
    assert(v + Seq::<char>::empty() =~= v);
    assert(begun(None::<Seq<char>>) + v =~= v);
    let nothing = Seq::<Seq<Seq<char>>>::empty();
    assert(scanned(v, Quote::Outside, None) == Some(seq![seq![v]]));
    assert(seq![seq![v]] =~= seq![seq![v]] + nothing);
    lemma_put("-t"@, seq![v], nothing);
    lemma_put("-Z"@, seq!["-t"@] + seq![v], nothing);
    lemma_put("resize-pane"@, seq!["-Z"@] + (seq!["-t"@] + seq![v]), nothing);
    let words = seq!["resize-pane"@] + (seq!["-Z"@] + (seq!["-t"@] + seq![v]));
    let all = seq![words] + nothing;
    assert(commands_of("resize-pane -Z -t "@ + v) == Some(all));
    lemma_names();
    assert(words[0] == "resize-pane"@ && words[1] == "-Z"@ && words[2] == "-t"@ && words[3] == v);
    assert(words.len() == 4);
    assert(done(p, words, deep, d) == Some(zoom_toggled(d, (p.window)(v), (p.pane)(v))));
    assert(all[0] == words);
    assert(all.skip(1) =~= nothing);
    assert(ran(p, nothing, deep, zoom_toggled(d, (p.window)(v), (p.pane)(v))) == Some(
        zoom_toggled(d, (p.window)(v), (p.pane)(v)),
    ));
}

/// Nothing to run.
pub proof fn lemma_nothing(p: Places, deep: nat, d: Desk)
    ensures
        commands_of(Seq::<char>::empty()) is Some,
        ran(p, commands_of(Seq::<char>::empty())->0, deep, d) == Some(d),
{
    let all = seq![Seq::<Seq<char>>::empty()];
    assert(commands_of(Seq::<char>::empty()) == Some(all));
    assert(all.skip(1) =~= Seq::<Seq<Seq<char>>>::empty());
    assert(done(p, all[0], deep, d) == Some(d));
    assert(ran(p, all.skip(1), deep, d) == Some(d));
}

spec fn toggle_text(v: Seq<char>) -> Seq<char> {
    "resize-pane -Z -t "@ + v
}

spec fn restore_words(v: Seq<char>) -> Seq<Seq<char>> {
    seq![
        "if-shell"@,
        "-F"@,
        "-t"@,
        v,
        "#{window_zoomed_flag}"@,
        toggle_text(v),
        Seq::<char>::empty(),
    ]
}

spec fn zoom_words(v: Seq<char>) -> Seq<Seq<char>> {
    seq![
        "if-shell"@,
        "-F"@,
        "-t"@,
        v,
        "#{window_zoomed_flag}"@,
        Seq::<char>::empty(),
        toggle_text(v),
    ]
}

proof fn lemma_seven(
    a: Seq<char>,
    b: Seq<char>,
    c: Seq<char>,
    e: Seq<char>,
    f: Seq<char>,
    g: Seq<char>,
    h: Seq<char>,
    more: Seq<Seq<Seq<char>>>,
)
    ensures
        with_word(
            a,
            with_word(
                b,
                with_word(
                    c,
                    with_word(
                        e,
                        with_word(f, with_word(g, with_word(h, with_end(Some(more))))),
                    ),
                ),
            ),
        ) == Some(seq![seq![a, b, c, e, f, g, h]] + more),
        with_word(
            a,
            with_word(
                b,
                with_word(c, with_word(e, with_word(f, with_word(g, Some(seq![seq![h]]))))),
            ),
        ) == Some(seq![seq![a, b, c, e, f, g, h]]),
{
    let no = Seq::<Seq<char>>::empty();
    let none = Seq::<Seq<Seq<char>>>::empty();
    lemma_put(h, no, more);
    assert(seq![h] + no =~= seq![h]);
    lemma_put(g, seq![h], more);
    lemma_put(f, seq![g] + seq![h], more);
    lemma_put(e, seq![f] + (seq![g] + seq![h]), more);
    lemma_put(c, seq![e] + (seq![f] + (seq![g] + seq![h])), more);
    lemma_put(b, seq![c] + (seq![e] + (seq![f] + (seq![g] + seq![h]))), more);
    lemma_put(a, seq![b] + (seq![c] + (seq![e] + (seq![f] + (seq![g] + seq![h])))), more);
    assert(seq![a] + (seq![b] + (seq![c] + (seq![e] + (seq![f] + (seq![g] + seq![h]))))) =~= seq![
        a,
        b,
        c,
        e,
        f,
        g,
        h,
    ]);
    assert(seq![seq![h]] =~= seq![seq![h]] + none);
    lemma_put(g, seq![h], none);
    lemma_put(f, seq![g] + seq![h], none);
    lemma_put(e, seq![f] + (seq![g] + seq![h]), none);
    lemma_put(c, seq![e] + (seq![f] + (seq![g] + seq![h])), none);
    lemma_put(b, seq![c] + (seq![e] + (seq![f] + (seq![g] + seq![h]))), none);
    lemma_put(a, seq![b] + (seq![c] + (seq![e] + (seq![f] + (seq![g] + seq![h])))), none);
    assert(seq![seq![a, b, c, e, f, g, h]] + none =~= seq![seq![a, b, c, e, f, g, h]]);
}

pub proof fn lemma_three(
    a: Seq<char>,
    b: Seq<char>,
    c: Seq<char>,
    more: Seq<Seq<Seq<char>>>,
)
    ensures
        with_word(a, with_word(b, with_word(c, with_end(Some(more))))) == Some(
            seq![seq![a, b, c]] + more,
        ),
        with_word(a, with_word(b, Some(seq![seq![c]]))) == Some(seq![seq![a, b, c]]),
{
    let no = Seq::<Seq<char>>::empty();
    let none = Seq::<Seq<Seq<char>>>::empty();
    lemma_put(c, no, more);
    assert(seq![c] + no =~= seq![c]);
    lemma_put(b, seq![c], more);
    lemma_put(a, seq![b] + seq![c], more);
    assert(seq![a] + (seq![b] + seq![c]) =~= seq![a, b, c]);
    assert(seq![seq![c]] =~= seq![seq![c]] + none);
    lemma_put(b, seq![c], none);
    lemma_put(a, seq![b] + seq![c], none);
    assert(seq![seq![a, b, c]] + none =~= seq![seq![a, b, c]]);
}

/// A restore as it is written, in front of other text.
proof fn lemma_restore_scanned(t: Seq<char>, v: Seq<char>, tail: Seq<char>)
    requires
        written(t, v),
    ensures
        scanned(
            "if-shell -F -t "@ + t + " '#{window_zoomed_flag}' 'resize-pane -Z -t "@ + t + "' ''"@
                + tail,
            Quote::Outside,
            None,
        ) == with_word(
            "if-shell"@,
            with_word(
                "-F"@,
                with_word(
                    "-t"@,
                    with_word(
                        v,
                        with_word(
                            "#{window_zoomed_flag}"@,
                            with_word(
                                toggle_text(v),
                                scanned(tail, Quote::Outside, Some(Seq::<char>::empty())),
                            ),
                        ),
                    ),
                ),
            ),
        ),
{
    let middle = " '#{window_zoomed_flag}' 'resize-pane -Z -t "@;
    let r4 = "' ''"@ + tail;
    let r3 = t + r4;
    let r2 = middle + r3;
    let r1 = t + r2;
    assert("if-shell -F -t "@ + t + middle + t + "' ''"@ + tail =~= "if-shell -F -t "@ + r1);
    lemma_heads(r1);
    lemma_target(t, v, r2);
    lemma_where_zoomed(v, r3);
    lemma_target_inside(t, v, r4, "resize-pane -Z -t "@);
    lemma_empty_branch(toggle_text(v), tail);
}

/// The end of the last word.
pub proof fn lemma_last(w: Seq<char>)
    ensures
        scanned(Seq::<char>::empty(), Quote::Outside, Some(w)) == Some(seq![seq![w]]),
        scanned("'"@, Quote::Single, Some(w)) == Some(seq![seq![w]]),
{
    reveal_strlit("'");
    assert("'"@.skip(1) =~= Seq::<char>::empty());
    assert(scanned(Seq::<char>::empty(), Quote::Outside, Some(w)) == Some(seq![seq![w]]));
}

proof fn lemma_restore_read(t: Seq<char>, v: Seq<char>)
    requires
        written(t, v),
    ensures
        commands_of(
            "if-shell -F -t "@ + t + " '#{window_zoomed_flag}' 'resize-pane -Z -t "@ + t + "' ''"@,
        ) == Some(seq![restore_words(v)]),
{
    let no = Seq::<char>::empty();
    let s = "if-shell -F -t "@ + t + " '#{window_zoomed_flag}' 'resize-pane -Z -t "@ + t + "' ''"@;
    lemma_restore_scanned(t, v, no);
    assert(s + no =~= s);
    lemma_last(no);
    lemma_seven(
        "if-shell"@,
        "-F"@,
        "-t"@,
        v,
        "#{window_zoomed_flag}"@,
        toggle_text(v),
        no,
        seq![],
    );
}

pub proof fn lemma_chars_assoc(a: Seq<char>, b: Seq<char>, c: Seq<char>)
    ensures
        a + b + c == a + (b + c),
{
    assert(a + b + c =~= a + (b + c));
}

/// The last command of a selection as it is written.
proof fn lemma_zoom_read(t: Seq<char>, v: Seq<char>)
    requires
        written(t, v),
    ensures
        commands_of(
            "if-shell -F -t "@ + (t + (" '#{window_zoomed_flag}' '' 'resize-pane -Z -t "@ + (t
                + "'"@))),
        ) == Some(seq![zoom_words(v)]),
{
    let middle = " '#{window_zoomed_flag}' '' 'resize-pane -Z -t "@;
    lemma_heads(t + (middle + (t + "'"@)));
    lemma_target(t, v, middle + (t + "'"@));
    lemma_unless_zoomed(v, t + "'"@);
    lemma_target_inside(t, v, "'"@, "resize-pane -Z -t "@);
    lemma_last(toggle_text(v));
    lemma_seven(
        "if-shell"@,
        "-F"@,
        "-t"@,
        v,
        "#{window_zoomed_flag}"@,
        Seq::<char>::empty(),
        toggle_text(v),
        seq![],
    );
}

/// One command with a target, and the commands behind it.
proof fn lemma_targeted(
    name: Seq<char>,
    head: Seq<char>,
    t: Seq<char>,
    v: Seq<char>,
    rest: Seq<char>,
    more: Seq<Seq<Seq<char>>>,
)
    requires
        written(t, v),
        commands_of(rest) == Some(more),
        (name == "select-window"@ && head == "select-window -t "@) || (name == "select-pane"@
            && head == "select-pane -t "@),
    ensures
        commands_of(head + (t + (" ; "@ + rest))) == Some(seq![seq![name, "-t"@, v]] + more),
{
    lemma_heads(t + (" ; "@ + rest));
    lemma_target(t, v, " ; "@ + rest);
    lemma_semicolon(v, rest);
    lemma_three(name, "-t"@, v, more);
}

/// A selection as it is written.
#[verifier::spinoff_prover]
proof fn lemma_select_read(wt: Seq<char>, wv: Seq<char>, t: Seq<char>, v: Seq<char>)
    requires
        written(wt, wv),
        written(t, v),
    ensures
        commands_of(
            "select-window -t "@ + wt + " ; "@ + "select-pane -t "@ + t + " ; "@
                + "if-shell -F -t "@ + t + " '#{window_zoomed_flag}' '' 'resize-pane -Z -t "@ + t
                + "'"@,
        ) == Some(
            seq![
                seq!["select-window"@, "-t"@, wv],
                seq!["select-pane"@, "-t"@, v],
                zoom_words(v),
            ],
        ),
{
    let middle = " '#{window_zoomed_flag}' '' 'resize-pane -Z -t "@;
    let iff = "if-shell -F -t "@;
    let sp = "select-pane -t "@;
    let sw = "select-window -t "@;
    let semi = " ; "@;
    let r4 = iff + (t + (middle + (t + "'"@)));
    let r2 = sp + (t + (semi + r4));
    lemma_zoom_read(t, v);
    lemma_targeted("select-pane"@, sp, t, v, r4, seq![zoom_words(v)]);
    let c2 = seq![seq!["select-pane"@, "-t"@, v]] + seq![zoom_words(v)];
    lemma_targeted("select-window"@, sw, wt, wv, r2, c2);
    assert(seq![seq!["select-window"@, "-t"@, wv]] + c2 =~= seq![
        seq!["select-window"@, "-t"@, wv],
        seq!["select-pane"@, "-t"@, v],
        zoom_words(v),
    ]);
    let p3 = sw + wt + semi + sp + t + semi + iff + t + middle;
    lemma_chars_assoc(p3, t, "'"@);
    let p2 = sw + wt + semi + sp + t + semi + iff + t;
    lemma_chars_assoc(p2, middle, t + "'"@);
    let p1 = sw + wt + semi + sp + t + semi + iff;
    lemma_chars_assoc(p1, t, middle + (t + "'"@));
    let p0 = sw + wt + semi + sp + t + semi;
    lemma_chars_assoc(p0, iff, t + (middle + (t + "'"@)));
    lemma_chars_assoc(sw + wt + semi + sp + t, semi, r4);
    lemma_chars_assoc(sw + wt + semi + sp, t, semi + r4);
    lemma_chars_assoc(sw + wt + semi, sp, t + (semi + r4));
    lemma_chars_assoc(sw + wt, semi, r2);
    lemma_chars_assoc(sw, wt, semi + r2);
}

/// A restore collapses the zoom of its window, and does nothing else.
proof fn lemma_restore_done(p: Places, v: Seq<char>, d: Desk)
    requires
        plain(v),
        v.len() > 0,
    ensures
        done(p, restore_words(v), 1, d) == Some(
            Desk { zoom: d.zoom.remove((p.window)(v)), ..d },
        ),
{
    lemma_names();
    let words = restore_words(v);
    lemma_toggle(p, v, 0, d);
    lemma_nothing(p, 0, d);
    let w = (p.window)(v);
    assert(!d.zoom.contains_key(w) ==> d.zoom.remove(w) =~= d.zoom);
    assert(picked(d, w, words) == (if d.zoom.contains_key(w) {
        toggle_text(v)
    } else {
        Seq::<char>::empty()
    }));
}

/// The last command of a selection toggles the zoom unless there is one.
proof fn lemma_zoom_done(p: Places, v: Seq<char>, d: Desk)
    requires
        plain(v),
        v.len() > 0,
    ensures
        done(p, zoom_words(v), 1, d) == Some(
            if d.zoom.contains_key((p.window)(v)) {
                d
            } else {
                Desk { zoom: d.zoom.insert((p.window)(v), (p.pane)(v)), ..d }
            },
        ),
{
    lemma_names();
    let words = zoom_words(v);
    lemma_toggle(p, v, 0, d);
    lemma_nothing(p, 0, d);
    let w = (p.window)(v);
    assert(picked(d, w, words) == (if d.zoom.contains_key(w) {
        Seq::<char>::empty()
    } else {
        toggle_text(v)
    }));
}

/// A zoomed window shows its active pane alone.
pub open spec fn shows_active(d: Desk, window: int) -> bool {
    d.zoom.contains_key(window) ==> d.active.contains_key(window) && d.zoom[window]
        == d.active[window]
}

/// The desk after a selection: the window is current, the pane is its active
/// one and it is shown alone.  No other window changes.
pub open spec fn selected(d: Desk, window: int, pane: int) -> Desk {
    Desk {
        current: window,
        active: d.active.insert(window, pane),
        zoom: d.zoom.insert(window, pane),
        ..d
    }
}

proof fn lemma_select_ran(p: Places, wv: Seq<char>, v: Seq<char>, d: Desk)
    requires
        plain(v),
        v.len() > 0,
        (p.window)(v) == (p.window)(wv),
        shows_active(d, (p.window)(wv)),
    ensures
        ran(
            p,
            seq![
                seq!["select-window"@, "-t"@, wv],
                seq!["select-pane"@, "-t"@, v],
                zoom_words(v),
            ],
            1,
            d,
        ) == Some(selected(d, (p.window)(wv), (p.pane)(v))),
{
    lemma_names();
    let c1 = seq!["select-window"@, "-t"@, wv];
    let c2 = seq!["select-pane"@, "-t"@, v];
    let c3 = zoom_words(v);
    let all = seq![c1, c2, c3];
    let w = (p.window)(wv);
    let q = (p.pane)(v);
    let d1 = Desk { current: w, ..d };
    let d2 = pane_selected(d1, w, q);
    assert(done(p, c1, 1, d) == Some(d1));
    assert(done(p, c2, 1, d1) == Some(d2));
    lemma_zoom_done(p, v, d2);
    let end = selected(d, w, q);
    if d2.zoom.contains_key(w) {
        assert(d2 == d1);
        assert(d.active.insert(w, q) =~= d.active);
        assert(d.zoom.insert(w, q) =~= d.zoom);
    } else {
        assert(d2.zoom.insert(w, q) =~= d.zoom.insert(w, q));
        assert(d2.active =~= d.active.insert(w, q));
    }
    assert(done(p, c3, 1, d2) == Some(end));
    let t1 = all.skip(1);
    let t2 = t1.skip(1);
    let t3 = t2.skip(1);
    assert(t1[0] == c2 && t2[0] == c3 && t3.len() == 0);
    assert(ran(p, t3, 1, end) == Some(end));
    assert(ran(p, t2, 1, d2) == Some(end));
    assert(ran(p, t1, 1, d1) == Some(end));
}

pub proof fn lemma_decimal_plain(n: nat)
    ensures
        plain(text::decimal(n)),
        text::decimal(n).len() > 0,
    decreases n,
{
    if n < 10 {
        assert(is_plain(text::digit_char(n)));
    } else {
        lemma_decimal_plain(n / 10);
        assert(is_plain(text::digit_char(n % 10)));
    }
}

pub proof fn lemma_plain_join(a: Seq<char>, b: Seq<char>)
    requires
        plain(a),
        plain(b),
    ensures
        plain(a + b),
{
    assert forall|i: int| 0 <= i < (a + b).len() implies is_plain(#[trigger] (a + b)[i]) by {
        if i < a.len() {
            assert(is_plain(a[i]));
        } else {
            assert(is_plain(b[i - a.len()]));
        }
    }
}

/// The window `@N`.
pub open spec fn window_name(id: u64) -> Seq<char> {
    seq!['@'] + text::decimal(id as nat)
}

/// The pane `%N`.
pub open spec fn pane_name(id: u64) -> Seq<char> {
    seq!['%'] + text::decimal(id as nat)
}

/// The window `@N` of a session.
pub open spec fn session_window(session: Seq<char>, id: u64) -> Seq<char> {
    quote::hashes_doubled(seq!['='] + session + seq![':', '@'] + text::decimal(id as nat))
}

/// The pane `%N` of a session.
pub open spec fn session_pane(session: Seq<char>, id: u64) -> Seq<char> {
    quote::hashes_doubled(seq!['='] + session + seq![':', '.', '%'] + text::decimal(id as nat))
}

pub proof fn lemma_ids_written(window: u64, pane: u64)
    ensures
        written(window_name(window), window_name(window)),
        written(pane_name(pane), pane_name(pane)),
{
    lemma_decimal_plain(window as nat);
    lemma_decimal_plain(pane as nat);
    assert(plain(seq!['@']));
    assert(plain(seq!['%']));
    lemma_plain_join(seq!['@'], text::decimal(window as nat));
    lemma_plain_join(seq!['%'], text::decimal(pane as nat));
}

/// Quoting a plain text only doubles its `#`.
pub proof fn lemma_quoted_plain(v: Seq<char>)
    requires
        plain(v),
    ensures
        quote::quoted_chars(v) == quote::hashes_doubled(v),
        plain(quote::quoted_chars(v)),
        quote::quoted_chars(v).len() >= v.len(),
    decreases v.len(),
{
    if v.len() > 0 {
        quote::lemma_quoted_first(v);
        let rest = v.skip(1);
        assert(is_plain(v[0]));
        assert forall|i: int| 0 <= i < rest.len() implies is_plain(#[trigger] rest[i]) by {
            assert(rest[i] == v[i + 1]);
        }
        lemma_quoted_plain(rest);
        reveal_strlit("##");
        assert("##"@ =~= seq!['#', '#']);
        assert(plain(quote::quoted_char(v[0])));
        lemma_plain_join(quote::quoted_char(v[0]), quote::quoted_chars(rest));
    } else {
        assert(quote::quoted_chars(v) =~= quote::hashes_doubled(v));
    }
}

pub proof fn lemma_argument_written(v: Seq<char>)
    requires
        plain(v),
        v.len() > 0,
        quote::argument(v) is Ok,
    ensures
        written(quote::argument(v)->Ok_0, quote::hashes_doubled(v)),
{
    lemma_quoted_plain(v);
}

pub proof fn lemma_session_targets(session: Seq<char>, window: u64, pane: u64)
    requires
        plain(session),
    ensures
        quote::window_target_text(session, window) matches Ok(t) ==> written(
            t,
            session_window(session, window),
        ),
        quote::pane_only_target_text(session, pane) matches Ok(t) ==> written(
            t,
            session_pane(session, pane),
        ),
{
    reveal_strlit("=");
    reveal_strlit(":@");
    reveal_strlit(":.%");
    assert("="@ =~= seq!['=']);
    assert(":@"@ =~= seq![':', '@']);
    assert(":.%"@ =~= seq![':', '.', '%']);
    lemma_decimal_plain(window as nat);
    lemma_decimal_plain(pane as nat);
    assert(plain(seq!['=']));
    assert(plain(seq![':', '@']));
    assert(plain(seq![':', '.', '%']));
    lemma_plain_join(seq!['='], session);
    lemma_plain_join(seq!['='] + session, seq![':', '@']);
    lemma_plain_join(seq!['='] + session + seq![':', '@'], text::decimal(window as nat));
    lemma_plain_join(seq!['='] + session, seq![':', '.', '%']);
    lemma_plain_join(seq!['='] + session + seq![':', '.', '%'], text::decimal(pane as nat));
    let w = "="@ + session + ":@"@ + text::decimal(window as nat);
    let q = "="@ + session + ":.%"@ + text::decimal(pane as nat);
    if quote::argument(w) is Ok {
        lemma_argument_written(w);
    }
    if quote::argument(q) is Ok {
        lemma_argument_written(q);
    }
}

/// The text of a restore, from its target.
spec fn restore_of(t: Seq<char>) -> Seq<char> {
    "if-shell -F -t "@ + t + " '#{window_zoomed_flag}' 'resize-pane -Z -t "@ + t + "' ''"@
}

/// The text of a selection, from its targets.
spec fn select_of(wt: Seq<char>, t: Seq<char>) -> Seq<char> {
    "select-window -t "@ + wt + " ; "@ + "select-pane -t "@ + t + " ; "@ + "if-shell -F -t "@ + t
        + " '#{window_zoomed_flag}' '' 'resize-pane -Z -t "@ + t + "'"@
}

proof fn lemma_restore_shape(id: u64)
    ensures
        commands::restore_layout_text(id) == restore_of(pane_name(id)),
{
    let n = text::decimal(id as nat);
    assert("if-shell -F -t %"@ =~= "if-shell -F -t "@ + seq!['%']) by {
        reveal_strlit("if-shell -F -t %");
        reveal_strlit("if-shell -F -t ");
    }
    assert(" '#{window_zoomed_flag}' 'resize-pane -Z -t %"@
        =~= " '#{window_zoomed_flag}' 'resize-pane -Z -t "@ + seq!['%']) by {
        reveal_strlit(" '#{window_zoomed_flag}' 'resize-pane -Z -t %");
        reveal_strlit(" '#{window_zoomed_flag}' 'resize-pane -Z -t ");
    }
    let m = " '#{window_zoomed_flag}' 'resize-pane -Z -t "@;
    let a = "if-shell -F -t "@;
    lemma_chars_assoc(a, seq!['%'], n);
    let p = a + pane_name(id);
    lemma_chars_assoc(p, m, seq!['%']);
    lemma_chars_assoc(p + m, seq!['%'], n);
}

proof fn lemma_select_literals()
    ensures
        "select-window -t @"@ == "select-window -t "@ + seq!['@'],
        " ; select-pane -t %"@ == " ; "@ + "select-pane -t "@ + seq!['%'],
        " ; if-shell -F -t %"@ == " ; "@ + "if-shell -F -t "@ + seq!['%'],
        " '#{window_zoomed_flag}' '' 'resize-pane -Z -t %"@
            == " '#{window_zoomed_flag}' '' 'resize-pane -Z -t "@ + seq!['%'],
        " ; select-pane -t "@ == " ; "@ + "select-pane -t "@,
        " ; if-shell -F -t "@ == " ; "@ + "if-shell -F -t "@,
{
    assert("select-window -t @"@ =~= "select-window -t "@ + seq!['@']) by {
        reveal_strlit("select-window -t @");
        reveal_strlit("select-window -t ");
    }
    assert(" ; select-pane -t %"@ =~= " ; "@ + "select-pane -t "@ + seq!['%']) by {
        reveal_strlit(" ; select-pane -t %");
        reveal_strlit("select-pane -t ");
        reveal_strlit(" ; ");
    }
    assert(" ; if-shell -F -t %"@ =~= " ; "@ + "if-shell -F -t "@ + seq!['%']) by {
        reveal_strlit(" ; if-shell -F -t %");
        reveal_strlit("if-shell -F -t ");
        reveal_strlit(" ; ");
    }
    assert(" '#{window_zoomed_flag}' '' 'resize-pane -Z -t %"@
        =~= " '#{window_zoomed_flag}' '' 'resize-pane -Z -t "@ + seq!['%']) by {
        reveal_strlit(" '#{window_zoomed_flag}' '' 'resize-pane -Z -t %");
        reveal_strlit(" '#{window_zoomed_flag}' '' 'resize-pane -Z -t ");
    }
    assert(" ; select-pane -t "@ =~= " ; "@ + "select-pane -t "@) by {
        reveal_strlit(" ; select-pane -t ");
        reveal_strlit("select-pane -t ");
        reveal_strlit(" ; ");
    }
    assert(" ; if-shell -F -t "@ =~= " ; "@ + "if-shell -F -t "@) by {
        reveal_strlit(" ; if-shell -F -t ");
        reveal_strlit("if-shell -F -t ");
        reveal_strlit(" ; ");
    }
}

/// A piece moves from the front of one part to the end of another.
proof fn lemma_shift(x: Seq<char>, a: Seq<char>, b: Seq<char>, c: Seq<char>)
    ensures
        x + (a + b) + c == x + a + (b + c),
{
    assert(x + (a + b) + c =~= x + a + (b + c));
}

proof fn lemma_select_shape(front: Seq<char>, window: u64, pane: u64)
    ensures
        ({
            let w = text::decimal(window as nat);
            let q = text::decimal(pane as nat);
            front + "select-window -t @"@ + w + " ; select-pane -t %"@ + q + " ; if-shell -F -t %"@
                + q + " '#{window_zoomed_flag}' '' 'resize-pane -Z -t %"@ + q + "'"@
        }) == front + select_of(window_name(window), pane_name(pane)),
{
    lemma_select_literals();
    let w = text::decimal(window as nat);
    let q = text::decimal(pane as nat);
    let wn = window_name(window);
    let pn = pane_name(pane);
    let sw = "select-window -t "@;
    let sp = "select-pane -t "@;
    let iff = "if-shell -F -t "@;
    let semi = " ; "@;
    let m = " '#{window_zoomed_flag}' '' 'resize-pane -Z -t "@;
    let a1 = front + sw + wn;
    lemma_shift(front, sw, seq!['@'], w);
    let a2 = a1 + (semi + sp) + pn;
    lemma_shift(a1, semi + sp, seq!['%'], q);
    let a3 = a2 + (semi + iff) + pn;
    lemma_shift(a2, semi + iff, seq!['%'], q);
    let a4 = a3 + m + pn;
    lemma_shift(a3, m, seq!['%'], q);
    assert(front + "select-window -t @"@ + w + " ; select-pane -t %"@ + q
        + " ; if-shell -F -t %"@ + q + " '#{window_zoomed_flag}' '' 'resize-pane -Z -t %"@ + q
        + "'"@ == a4 + "'"@);
    lemma_front_out(front, wn, pn);
}

/// What stands in front of a selection can be read apart.
proof fn lemma_front_out(front: Seq<char>, wt: Seq<char>, t: Seq<char>)
    ensures
        front + "select-window -t "@ + wt + (" ; "@ + "select-pane -t "@) + t + (" ; "@
            + "if-shell -F -t "@) + t + " '#{window_zoomed_flag}' '' 'resize-pane -Z -t "@ + t
            + "'"@ == front + select_of(wt, t),
{
    let sw = "select-window -t "@;
    let sp = "select-pane -t "@;
    let iff = "if-shell -F -t "@;
    let semi = " ; "@;
    let m = " '#{window_zoomed_flag}' '' 'resize-pane -Z -t "@;
    let b1 = sw + wt;
    lemma_chars_assoc(front, sw, wt);
    let b2 = b1 + semi + sp + t;
    lemma_chars_assoc(front + b1, semi, sp);
    lemma_chars_assoc(front, b1, semi);
    lemma_chars_assoc(front, b1 + semi, sp);
    lemma_chars_assoc(front, b1 + semi + sp, t);
    let b3 = b2 + semi + iff + t;
    lemma_chars_assoc(front + b2, semi, iff);
    lemma_chars_assoc(front, b2, semi);
    lemma_chars_assoc(front, b2 + semi, iff);
    lemma_chars_assoc(front, b2 + semi + iff, t);
    lemma_chars_assoc(front, b3, m);
    lemma_chars_assoc(front, b3 + m, t);
    lemma_chars_assoc(front, b3 + m + t, "'"@);
}

/// A restore and a selection behind it.
proof fn lemma_restored_selection(
    p: Places,
    before: Option<(Seq<char>, Seq<char>)>,
    wt: Seq<char>,
    wv: Seq<char>,
    t: Seq<char>,
    v: Seq<char>,
    d: Desk,
)
    requires
        before matches Some(b) ==> written(b.0, b.1),
        written(wt, wv),
        written(t, v),
        (p.window)(v) == (p.window)(wv),
        shows_active(d, (p.window)(wv)),
    ensures
        ran_line(
            p,
            (match before {
                Some(b) => restore_of(b.0) + " ; "@,
                None => Seq::<char>::empty(),
            }) + select_of(wt, t),
            d,
        ) == Some(
            selected(
                (match before {
                    Some(b) => Desk { zoom: d.zoom.remove((p.window)(b.1)), ..d },
                    None => d,
                }),
                (p.window)(wv),
                (p.pane)(v),
            ),
        ),
{
    let body = select_of(wt, t);
    let no = Seq::<char>::empty();
    let all = seq![
        seq!["select-window"@, "-t"@, wv],
        seq!["select-pane"@, "-t"@, v],
        zoom_words(v),
    ];
    lemma_select_read(wt, wv, t, v);
    match before {
        None => {
            assert(no + body =~= body);
            lemma_select_ran(p, wv, v, d);
        },
        Some(b) => {
            let r = b.1;
            let d1 = Desk { zoom: d.zoom.remove((p.window)(r)), ..d };
            lemma_chars_assoc(restore_of(b.0), " ; "@, body);
            lemma_restore_scanned(b.0, r, " ; "@ + body);
            lemma_semicolon(no, body);
            lemma_seven(
                "if-shell"@,
                "-F"@,
                "-t"@,
                r,
                "#{window_zoomed_flag}"@,
                toggle_text(r),
                no,
                all,
            );
            let whole = seq![restore_words(r)] + all;
            assert(commands_of(restore_of(b.0) + " ; "@ + body) == Some(whole));
            lemma_restore_done(p, r, d);
            assert(whole[0] == restore_words(r));
            assert(whole.skip(1) =~= all);
            lemma_select_ran(p, wv, v, d1);
        },
    }
}

/// Selecting a pane makes its window current and the pane the active one, and
/// ends with the pane shown alone, whether its window was zoomed before or not:
/// a zoom that is there is kept, a missing one is made.  A zoom that was owned
/// in another place is collapsed on the way, and no other window changes.
pub proof fn law_selecting_a_pane_ends_zoomed_on_it(
    p: Places,
    previous: Option<u64>,
    window_id: u64,
    pane_id: u64,
    d: Desk,
)
    requires
        (p.window)(pane_name(pane_id)) == (p.window)(window_name(window_id)),
        shows_active(d, (p.window)(window_name(window_id))),
    ensures
        ran_line(p, commands::select_pane_text(previous, window_id, pane_id), d) == Some(
            Desk {
                current: (p.window)(window_name(window_id)),
                active: d.active.insert(
                    (p.window)(window_name(window_id)),
                    (p.pane)(pane_name(pane_id)),
                ),
                zoom: (match previous {
                    Some(id) => d.zoom.remove((p.window)(pane_name(id))),
                    None => d.zoom,
                }).insert((p.window)(window_name(window_id)), (p.pane)(pane_name(pane_id))),
                hooks: d.hooks,
            },
        ),
{
    lemma_ids_written(window_id, pane_id);
    let wt = window_name(window_id);
    let t = pane_name(pane_id);
    match previous {
        Some(id) => {
            lemma_ids_written(window_id, id);
            lemma_restore_shape(id);
            lemma_select_shape(restore_of(pane_name(id)) + " ; "@, window_id, pane_id);
            lemma_restored_selection(p, Some((pane_name(id), pane_name(id))), wt, wt, t, t, d);
        },
        None => {
            lemma_select_shape(Seq::<char>::empty(), window_id, pane_id);
            lemma_restored_selection(p, None, wt, wt, t, t, d);
        },
    }
}

/// The same of a selection in a session, for the names of sessions that need
/// no quotes.
pub proof fn law_selecting_a_pane_of_a_session_ends_zoomed_on_it(
    p: Places,
    session: Seq<char>,
    previous: Option<u64>,
    window_id: u64,
    pane_id: u64,
    d: Desk,
)
    requires
        plain(session),
        commands::select_pane_for_session_text(session, previous, window_id, pane_id) is Ok,
        (p.window)(session_pane(session, pane_id)) == (p.window)(session_window(session, window_id)),
        shows_active(d, (p.window)(session_window(session, window_id))),
    ensures
        ran_line(
            p,
            commands::select_pane_for_session_text(session, previous, window_id, pane_id)->Ok_0,
            d,
        ) == Some(
            Desk {
                current: (p.window)(session_window(session, window_id)),
                active: d.active.insert(
                    (p.window)(session_window(session, window_id)),
                    (p.pane)(session_pane(session, pane_id)),
                ),
                zoom: (match previous {
                    Some(id) => d.zoom.remove((p.window)(session_pane(session, id))),
                    None => d.zoom,
                }).insert(
                    (p.window)(session_window(session, window_id)),
                    (p.pane)(session_pane(session, pane_id)),
                ),
                hooks: d.hooks,
            },
        ),
{
    lemma_session_targets(session, window_id, pane_id);
    lemma_select_literals();
    let wt = quote::window_target_text(session, window_id)->Ok_0;
    let t = quote::pane_only_target_text(session, pane_id)->Ok_0;
    let wv = session_window(session, window_id);
    let v = session_pane(session, pane_id);
    match previous {
        Some(id) => {
            lemma_session_targets(session, window_id, id);
            let b = quote::pane_only_target_text(session, id)->Ok_0;
            lemma_front_out(restore_of(b) + " ; "@, wt, t);
            lemma_restored_selection(p, Some((b, session_pane(session, id))), wt, wv, t, v, d);
        },
        None => {
            lemma_front_out(Seq::<char>::empty(), wt, t);
            lemma_restored_selection(p, None, wt, wv, t, v, d);
        },
    }
}

proof fn lemma_restore_ran(p: Places, t: Seq<char>, v: Seq<char>, d: Desk)
    requires
        written(t, v),
    ensures
        ran_line(p, restore_of(t), d) == Some(
            Desk { zoom: d.zoom.remove((p.window)(v)), ..d },
        ),
{
    lemma_restore_read(t, v);
    lemma_restore_done(p, v, d);
    let all = seq![restore_words(v)];
    assert(all.skip(1) =~= Seq::<Seq<Seq<char>>>::empty());
    let end = Desk { zoom: d.zoom.remove((p.window)(v)), ..d };
    assert(ran(p, all.skip(1), 1, end) == Some(end));
}

/// Restoring the layout collapses the zoom of the pane's window where there is
/// one, and changes nothing else.
pub proof fn law_restoring_collapses_the_zoom(p: Places, pane_id: u64, d: Desk)
    ensures
        ran_line(p, commands::restore_layout_text(pane_id), d) == Some(
            Desk { zoom: d.zoom.remove((p.window)(pane_name(pane_id))), ..d },
        ),
{
    lemma_ids_written(0, pane_id);
    lemma_restore_shape(pane_id);
    lemma_restore_ran(p, pane_name(pane_id), pane_name(pane_id), d);
}

/// The same in a session, by the pane or by the window.
pub proof fn law_restoring_in_a_session_collapses_the_zoom(
    p: Places,
    session: Seq<char>,
    window_id: u64,
    pane_id: u64,
    d: Desk,
)
    requires
        plain(session),
    ensures
        commands::restore_layout_for_session_text(session, pane_id) matches Ok(line) ==> ran_line(
            p,
            line,
            d,
        ) == Some(Desk { zoom: d.zoom.remove((p.window)(session_pane(session, pane_id))), ..d }),
        commands::restore_layout_for_session_window_text(session, window_id) matches Ok(line)
            ==> ran_line(p, line, d) == Some(
            Desk { zoom: d.zoom.remove((p.window)(session_window(session, window_id))), ..d },
        ),
{
    lemma_session_targets(session, window_id, pane_id);
    match quote::window_target_text(session, window_id) {
        Ok(t) => lemma_restore_ran(p, t, session_window(session, window_id), d),
        Err(_) => {},
    }
    match quote::pane_only_target_text(session, pane_id) {
        Ok(t) => lemma_restore_ran(p, t, session_pane(session, pane_id), d),
        Err(_) => {},
    }
}

} // verus!
