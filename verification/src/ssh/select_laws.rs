//! In which order a selection returns, guards and makes a zoom.

use vstd::prelude::*;
use vstd::string::*;

use crate::ssh::cleanup::{ZoomActor, ZoomRecord};
use crate::ssh::flow::FlowFailure;
use crate::ssh::select_flow;
use crate::ssh::select_flow::{
    SelectAction, SelectCommand, SelectFact, SelectPhase, SelectRequest, Selection, SharedView,
};
use crate::ssh::selection::{PendingZoomCleanup, SelectionObservation};
use crate::tmux::command_laws;
use crate::tmux::command_laws::{Desk, Places, Quote};
use crate::tmux::commands;
use crate::tmux::hook_run_laws;
use crate::tmux::hooks;
use crate::tmux::hooks::ZoomRecoveryHookAllocation;

verus! {

/// A zoom of ours is returned before anything is selected: a durable record is
/// reconciled, and a window that is still listed is restored.
pub proof fn law_an_earlier_zoom_is_returned_first(
    request: SelectRequest,
    record: Option<ZoomRecord>,
    previous: Option<PendingZoomCleanup>,
    actor: ZoomActor,
    shared: SharedView,
)
    ensures
        record matches Some(r) ==> select_flow::selection_begun(
            request,
            record,
            previous,
            actor,
            shared,
        ).2 == SelectAction::Reconcile(r),
        record is None && previous is Some && shared.previous_listed
            ==> select_flow::selection_begun(request, record, previous, actor, shared).2
            == (SelectAction::Query {
            command: SelectCommand::RestoreWindow(previous->0.window),
            intent: previous,
        }),
{
}

/// What the readback of an initial selection saw decides whose zoom it is.
pub open spec fn saw(request: SelectRequest, zoomed: bool) -> bool {
    request.observation == Some(
        SelectionObservation {
            window_id: request.window,
            pane_id: request.pane,
            window_zoomed: zoomed,
            previous_owned_same_window: false,
        },
    )
}

/// A zoom that the readback saw is the desktop's: it is kept, our hooks are
/// removed, nothing is recorded as ours, and the end says so.
pub proof fn law_a_zoom_that_was_seen_is_kept(
    s: Selection,
    actor: ZoomActor,
    shared: SharedView,
)
    requires
        s.phase == SelectPhase::Reconciling || s.phase == SelectPhase::Restoring,
        saw(s.request, true),
    ensures
        ({
            let step = select_flow::selection_advanced(s, actor, shared, SelectFact::Acknowledged);
            let end = select_flow::selection_advanced(
                step.0,
                step.1,
                shared,
                SelectFact::Acknowledged,
            );
            &&& step.2 == (SelectAction::Query {
                command: SelectCommand::KeepZoom {
                    window: s.request.window,
                    pane: s.request.pane,
                    remove: actor.zoom_hooks,
                },
                intent: None,
            })
            &&& end.2 == (SelectAction::Done { desktop_zoom: true })
            &&& end.1.zoom_hooks is None
        }),
{
}

/// A target that the readback saw unzoomed is zoomed for us, behind hooks that
/// are free or already ours, and the zoom is recorded before it is made.
pub proof fn law_a_zoom_is_made_behind_hooks(
    s: Selection,
    actor: ZoomActor,
    shared: SharedView,
    free: ZoomRecoveryHookAllocation,
)
    requires
        s.phase == SelectPhase::Reconciling || s.phase == SelectPhase::Restoring,
        saw(s.request, false),
    ensures
        ({
            let first = select_flow::selection_advanced(s, actor, shared, SelectFact::Acknowledged);
            let step = if actor.zoom_hooks is None {
                select_flow::selection_advanced(
                    first.0,
                    first.1,
                    shared,
                    SelectFact::Free(Some(free)),
                )
            } else {
                first
            };
            let hooks = if actor.zoom_hooks is None {
                free
            } else {
                actor.zoom_hooks->0
            };
            let owned = PendingZoomCleanup {
                window: s.request.window,
                pane: s.request.pane,
                hooks: Some(hooks),
            };
            let end = select_flow::selection_advanced(
                step.0,
                step.1,
                shared,
                SelectFact::Acknowledged,
            );
            &&& actor.zoom_hooks is None ==> first.2 == (SelectAction::Query {
                command: SelectCommand::ShowHooks,
                intent: None,
            })
            &&& step.2 == (SelectAction::Query {
                command: SelectCommand::Zoom {
                    hooks,
                    window: s.request.window,
                    pane: s.request.pane,
                },
                intent: Some(owned),
            })
            &&& step.1.zoom_hooks == Some(hooks)
            &&& !s.request.publish ==> step.1.pending_ownership == Some(owned)
            &&& end.2 == (SelectAction::Done { desktop_zoom: false })
            &&& end.1.zoom_hooks == Some(hooks)
            &&& s.request.publish ==> end.1.pending_cleanup is None && end.1.pending_ownership
                is None
            &&& !s.request.publish ==> end.1.pending_ownership == Some(owned)
        }),
{
}

/// Without a free index nothing is zoomed, and a failure ends a selection as
/// that failure: it is never taken for success.
pub proof fn law_a_failed_selection_fails(
    s: Selection,
    actor: ZoomActor,
    shared: SharedView,
    e: FlowFailure,
)
    ensures
        select_flow::selection_advanced(s, actor, shared, SelectFact::Failed(e)).2
            == SelectAction::Failed(e),
        select_flow::selection_advanced(s, actor, shared, SelectFact::Failed(e)).1 == actor,
        s.phase == SelectPhase::ReadingHooks ==> select_flow::selection_advanced(
            s,
            actor,
            shared,
            SelectFact::Free(None),
        ).2 == SelectAction::Failed(FlowFailure::Tmux),
{
}

/// A selection is done only when the move itself was acknowledged.
pub proof fn law_a_selection_is_done_after_its_move(
    s: Selection,
    actor: ZoomActor,
    shared: SharedView,
    fact: SelectFact,
)
    ensures
        select_flow::selection_advanced(s, actor, shared, fact).2 is Done ==> s.phase
            == SelectPhase::Moving && fact == SelectFact::Acknowledged,
{
}

/// An intent with hooks is sent only after it was accepted as the durable
/// record, and nothing is sent in an old epoch.
pub proof fn law_nothing_is_sent_unrecorded(
    actor: ZoomActor,
    intent: Option<PendingZoomCleanup>,
    epoch_current: bool,
    record_accepted: bool,
)
    ensures
        select_flow::opened(actor, intent, epoch_current, record_accepted) is Ok ==> epoch_current
            && (intent is Some && intent->0.hooks is Some ==> record_accepted),
        epoch_current && (intent is None || intent->0.hooks is None || record_accepted)
            ==> select_flow::opened(actor, intent, epoch_current, record_accepted) is Ok,
        select_flow::opened(actor, intent, epoch_current, record_accepted) matches Ok(next) ==> (
        intent is Some ==> next.pending_cleanup == intent) && next.zoom_hooks == actor.zoom_hooks,
{
}

/// The commands of one line, and those of another behind it.
pub proof fn lemma_joined(
    a: Seq<char>,
    b: Seq<char>,
    quote: Quote,
    word: Option<Seq<char>>,
    all: Seq<Seq<Seq<char>>>,
    more: Seq<Seq<Seq<char>>>,
)
    requires
        a.len() > 0 ==> a.last() != '\\',
        command_laws::scanned(a, quote, word) == Some(all),
        command_laws::commands_of(b) == Some(more),
    ensures
        all.len() > 0,
        command_laws::scanned(a + (" ; "@ + b), quote, word) == Some(all + more),
    decreases a.len(),
{
    let tail = " ; "@ + b;
    let s = a + tail;
    if a.len() == 0 {
        assert(s =~= tail);
        match word {
            Some(w) => {
                command_laws::lemma_semicolon(w, b);
                let none = Seq::<Seq<char>>::empty();
                command_laws::lemma_put(w, none, more);
                assert(seq![w] + none =~= seq![w]);
                assert(all =~= seq![seq![w]]);
            },
            None => {
                reveal_strlit(" ; ");
                let t = tail.skip(1);
                assert(tail[0] == ' ' && t[0] == ';');
                let u = t.skip(1);
                assert(u[0] == ' ');
                assert(u.skip(1) =~= b);
                assert(command_laws::scanned(u, Quote::Outside, None) == Some(more));
                assert(command_laws::scanned(t, Quote::Outside, None) == command_laws::with_end(
                    Some(more),
                ));
            },
        }
    } else {
        let a1 = a.skip(1);
        assert(s[0] == a[0]);
        assert(s.skip(1) =~= a1 + tail);
        if a1.len() > 0 {
            assert(a1.last() == a.last());
        }
        match quote {
            Quote::Single => {
                if a[0] == '\'' {
                    lemma_joined(a1, b, Quote::Outside, word, all, more);
                } else {
                    lemma_joined(
                        a1,
                        b,
                        Quote::Single,
                        Some(command_laws::begun(word).push(a[0])),
                        all,
                        more,
                    );
                }
            },
            Quote::Double => {
                if a[0] == '"' {
                    lemma_joined(a1, b, Quote::Outside, word, all, more);
                } else {
                    lemma_joined(
                        a1,
                        b,
                        Quote::Double,
                        Some(command_laws::begun(word).push(a[0])),
                        all,
                        more,
                    );
                }
            },
            Quote::Outside => {
                if a[0] == '\'' {
                    lemma_joined(
                        a1,
                        b,
                        Quote::Single,
                        Some(command_laws::begun(word)),
                        all,
                        more,
                    );
                } else if a[0] == '"' {
                    lemma_joined(
                        a1,
                        b,
                        Quote::Double,
                        Some(command_laws::begun(word)),
                        all,
                        more,
                    );
                } else if a[0] == ' ' {
                    match word {
                        Some(w) => {
                            let rest = command_laws::scanned(a1, Quote::Outside, None)->0;
                            lemma_joined(a1, b, Quote::Outside, None, rest, more);
                            let joined = rest + more;
                            assert(joined[0] == rest[0]);
                            assert(joined.skip(1) =~= rest.skip(1) + more);
                            assert(seq![seq![w] + rest[0]] + joined.skip(1) =~= (seq![seq![w]
                                + rest[0]] + rest.skip(1)) + more);
                        },
                        None => {
                            lemma_joined(a1, b, Quote::Outside, None, all, more);
                        },
                    }
                } else if a[0] == ';' && word is None {
                    let rest = command_laws::scanned(a1, Quote::Outside, None)->0;
                    lemma_joined(a1, b, Quote::Outside, None, rest, more);
                    let none = Seq::<Seq<char>>::empty();
                    assert(seq![none] + (rest + more) =~= (seq![none] + rest) + more);
                } else if a[0] == '\\' && a.len() >= 2 {
                    let a2 = a.skip(2);
                    assert(s[1] == a[1]);
                    assert(s.skip(2) =~= a2 + tail);
                    if a2.len() > 0 {
                        assert(a2.last() == a.last());
                    }
                    lemma_joined(
                        a2,
                        b,
                        Quote::Outside,
                        Some(command_laws::begun(word).push(a[1])),
                        all,
                        more,
                    );
                } else {
                    assert(a[0] == '\\' ==> a.last() == a[0]);
                    lemma_joined(
                        a1,
                        b,
                        Quote::Outside,
                        Some(command_laws::begun(word).push(a[0])),
                        all,
                        more,
                    );
                }
            },
        }
    }
}

proof fn lemma_ran_joined(
    p: Places,
    a: Seq<Seq<Seq<char>>>,
    b: Seq<Seq<Seq<char>>>,
    d: Desk,
)
    ensures
        command_laws::ran(p, a + b, 1, d) == (match command_laws::ran(p, a, 1, d) {
            Some(next) => command_laws::ran(p, b, 1, next),
            None => None,
        }),
    decreases a.len(),
{
    if a.len() == 0 {
        assert(a + b =~= b);
    } else {
        assert((a + b)[0] == a[0]);
        assert((a + b).skip(1) =~= a.skip(1) + b);
        match command_laws::done(p, a[0], 1, d) {
            Some(next) => lemma_ran_joined(p, a.skip(1), b, next),
            None => {},
        }
    }
}

/// Two lines, one behind the other, run one after the other.
proof fn lemma_lines(p: Places, a: Seq<char>, b: Seq<char>, d: Desk)
    requires
        a.len() > 0,
        a.last() != '\\',
        command_laws::commands_of(a) is Some,
        command_laws::commands_of(b) is Some,
    ensures
        command_laws::ran_line(p, a + " ; "@ + b, d) == (match command_laws::ran_line(p, a, d) {
            Some(next) => command_laws::ran_line(p, b, next),
            None => None,
        }),
{
    let all = command_laws::commands_of(a)->0;
    let more = command_laws::commands_of(b)->0;
    lemma_joined(a, b, Quote::Outside, None, all, more);
    command_laws::lemma_chars_assoc(a, " ; "@, b);
    lemma_ran_joined(p, all, more, d);
}

/// The command that makes a zoom first installs the hooks that restore its
/// window, while nothing is zoomed yet, and then selects the pane and zooms it.
/// This is said of the names of sessions that need no quotes.
pub proof fn law_hooks_are_installed_before_the_zoom(
    p: Places,
    session: Seq<char>,
    allocation: ZoomRecoveryHookAllocation,
    window: u64,
    pane: u64,
    d: Desk,
)
    requires
        command_laws::plain(session),
        select_flow::select_text(
            (SelectCommand::Zoom { hooks: allocation, window, pane }),
            session,
        ) is Ok,
        (p.window)(command_laws::session_pane(session, pane)) == (p.window)(
            command_laws::session_window(session, window),
        ),
        command_laws::shows_active(d, (p.window)(command_laws::session_window(session, window))),
    ensures
        ({
            let line = select_flow::select_text(
                (SelectCommand::Zoom { hooks: allocation, window, pane }),
                session,
            )->Ok_0;
            let guarded = command_laws::ran_line(
                p,
                hooks::install_for_session(session, allocation.index, window)->Ok_0,
                d,
            );
            let w = (p.window)(command_laws::session_window(session, window));
            let q = (p.pane)(command_laws::session_pane(session, pane));
            &&& hooks::install_for_session(session, allocation.index, window) is Ok
            &&& guarded is Some
            &&& guarded->0.zoom == d.zoom
            &&& guarded->0.hooks.contains_key(
                (
                    hook_run_laws::session_scope(session),
                    hook_run_laws::entry("client-detached"@, allocation.index),
                ),
            )
            &&& guarded->0.hooks.contains_key(
                (
                    hook_run_laws::session_scope(session),
                    hook_run_laws::entry("client-session-changed"@, allocation.index),
                ),
            )
            &&& command_laws::ran_line(p, line, d) == Some(
                command_laws::selected(guarded->0, w, q),
            )
        }),
{
    let a = hooks::install_for_session(session, allocation.index, window)->Ok_0;
    let b = commands::select_pane_for_session_text(session, None, window, pane)->Ok_0;
    hook_run_laws::law_installed_hooks_restore_the_window(
        p,
        session,
        allocation.index,
        window,
        d,
        d,
    );
    let guarded = command_laws::ran_line(p, a, d)->0;
    command_laws::law_selecting_a_pane_of_a_session_ends_zoomed_on_it(
        p,
        session,
        None,
        window,
        pane,
        guarded,
    );
    reveal_strlit("'");
    assert(a.last() == '\'');
    lemma_lines(p, a, b, d);
}

/// The command that keeps the desktop's zoom selects the pane and removes our
/// hooks, where there are any.
pub proof fn law_a_kept_zoom_loses_our_hooks(
    p: Places,
    session: Seq<char>,
    allocation: ZoomRecoveryHookAllocation,
    window: u64,
    pane: u64,
    d: Desk,
)
    requires
        command_laws::plain(session),
        select_flow::select_text(
            (SelectCommand::KeepZoom { window, pane, remove: Some(allocation) }),
            session,
        ) is Ok,
        (p.window)(command_laws::session_pane(session, pane)) == (p.window)(
            command_laws::session_window(session, window),
        ),
        command_laws::shows_active(d, (p.window)(command_laws::session_window(session, window))),
    ensures
        command_laws::ran_line(
            p,
            select_flow::select_text(
                (SelectCommand::KeepZoom { window, pane, remove: Some(allocation) }),
                session,
            )->Ok_0,
            d,
        ) == Some(
            hook_run_laws::without_pair(
                command_laws::selected(
                    d,
                    (p.window)(command_laws::session_window(session, window)),
                    (p.pane)(command_laws::session_pane(session, pane)),
                ),
                hook_run_laws::session_scope(session),
                allocation.index,
            ),
        ),
        select_flow::select_text(
            (SelectCommand::KeepZoom { window, pane, remove: None }),
            session,
        ) == commands::select_pane_for_session_text(session, None, window, pane),
{
    let a = commands::select_pane_for_session_text(session, None, window, pane)->Ok_0;
    let b = hooks::remove_for_session(session, allocation.index)->Ok_0;
    command_laws::law_selecting_a_pane_of_a_session_ends_zoomed_on_it(
        p,
        session,
        None,
        window,
        pane,
        d,
    );
    let next = command_laws::ran_line(p, a, d)->0;
    hook_run_laws::law_removing_the_hooks_unsets_both(p, session, allocation.index, next);
    reveal_strlit("'");
    assert(a.last() == '\'');
    lemma_lines(p, a, b, d);
}

} // verus!
