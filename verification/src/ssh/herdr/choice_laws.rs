//! What a selection in a Herdr runtime brings to the front, and how keys and
//! failures are named to it.

use vstd::prelude::*;
use vstd::string::*;

use crate::input::{KeyCode, Modifiers};
use crate::ssh::flow::FlowFailure;
use crate::ssh::herdr::input;
use crate::ssh::herdr::metadata;
use crate::ssh::herdr::metadata::{Metadata, RemotePane};
use crate::ssh::herdr::recovery;
use crate::ssh::herdr::recovery::StopReason;
use crate::ssh::herdr::runtime_laws;
use crate::ssh::herdr::select;
use crate::ssh::herdr::session;
use crate::ssh::herdr::settle;
use crate::ssh::herdr::terminal;
use crate::ssh::herdr::wire::{HerdrGroup, HerdrWorkspace};
use crate::ssh::topology;
use crate::text;
use crate::tmux::snapshot::{PaneSnapshotView, SessionSnapshotView, WindowSnapshotView};
use crate::workspace;
use crate::workspace::{TerminalGroupView, TerminalView};

verus! {

/// Selecting a pane brings its tab to the front of its workspace, leaves the
/// tabs of the other workspaces as they were, and marks that terminal alone.
pub proof fn law_a_selected_pane_is_in_front(
    after: Metadata,
    before: Metadata,
    pane: u64,
    other: u64,
    i: int,
)
    requires
        select::pane_selected(after, before, pane),
        before.panes@.contains_key(pane),
        other != before.panes@[pane].workspace,
        0 <= i < before.snapshot.terminals@.len(),
    ensures
        after.active_group == Some(before.panes@[pane].group),
        after.selected_groups@.contains_key(before.panes@[pane].workspace),
        after.selected_groups@[before.panes@[pane].workspace] == before.panes@[pane].group,
        after.selected_groups@.contains_key(other) <==> before.selected_groups@.contains_key(other),
        before.selected_groups@.contains_key(other) ==> after.selected_groups@[other]
            == before.selected_groups@[other],
        after.panes@ == before.panes@,
        after.snapshot.terminals@.len() == before.snapshot.terminals@.len(),
        after.snapshot.terminals@[i]@.selected <==> before.snapshot.terminals@[i]@.id
            == text::decimal(pane as nat),
        after.snapshot.terminals@[i]@.id == before.snapshot.terminals@[i]@.id,
        after.snapshot.terminals@[i]@.group_id == before.snapshot.terminals@[i]@.group_id,
        after.snapshot.terminals@[i]@.active == before.snapshot.terminals@[i]@.active,
{
    let a = workspace::terminal_views(after.snapshot.terminals@);
    let b = workspace::terminal_views(before.snapshot.terminals@);
    assert(a.len() == b.len());
    assert(a[i] == after.snapshot.terminals@[i]@);
    assert(b[i] == before.snapshot.terminals@[i]@);
}

proof fn lemma_group_at(groups: Seq<TerminalGroupView>, k: int)
    requires
        0 <= k < groups.len(),
        forall|j: int| 0 <= j < groups.len() && j != k ==> (#[trigger] groups[j]).id != groups[k].id,
    ensures
        metadata::group_at(groups, groups[k].id) == Some(groups[k]),
    decreases groups.len(),
{
    if k > 0 {
        let rest = groups.drop_first();
        assert(groups[0].id != groups[k].id);
        assert(rest[k - 1] == groups[k]);
        assert forall|j: int| 0 <= j < rest.len() && j != k - 1 implies (#[trigger] rest[j]).id
            != rest[k - 1].id by {
            assert(rest[j] == groups[j + 1]);
        }
        lemma_group_at(rest, k - 1);
    }
}

/// Selecting a tab brings it to the front of its workspace and leaves the tabs
/// of the other workspaces as they were.
pub proof fn law_a_selected_tab_is_in_front(
    after: Metadata,
    before: Metadata,
    group: u64,
    pane: Option<u64>,
    workspace_id: u64,
    other: u64,
    k: int,
)
    requires
        select::group_selected(after, before, group, pane),
        0 <= k < before.snapshot.groups@.len(),
        before.snapshot.groups@[k]@.id == text::decimal(group as nat),
        before.snapshot.groups@[k]@.workspace_id == text::decimal(workspace_id as nat),
        forall|j: int|
            0 <= j < before.snapshot.groups@.len() && j != k ==> (
            #[trigger] before.snapshot.groups@[j])@.id != text::decimal(group as nat),
        pane is Some && before.panes@.contains_key(pane->0) ==> before.panes@[pane->0].group
            == group && before.panes@[pane->0].workspace == workspace_id,
        other != workspace_id,
    ensures
        after.active_group == Some(group),
        after.selected_groups@.contains_key(workspace_id),
        after.selected_groups@[workspace_id] == group,
        after.selected_groups@.contains_key(other) <==> before.selected_groups@.contains_key(other),
        before.selected_groups@.contains_key(other) ==> after.selected_groups@[other]
            == before.selected_groups@[other],
        after.snapshot.groups@.len() == before.snapshot.groups@.len(),
        after.snapshot.groups@[k]@.selected,
        after.snapshot.groups@[k]@.id == before.snapshot.groups@[k]@.id,
{
    let groups = workspace::group_views(before.snapshot.groups@);
    let now = workspace::group_views(after.snapshot.groups@);
    assert(groups[k] == before.snapshot.groups@[k]@);
    assert forall|j: int| 0 <= j < groups.len() && j != k implies (#[trigger] groups[j]).id
        != groups[k].id by {
        assert(groups[j] == before.snapshot.groups@[j]@);
    }
    lemma_group_at(groups, k);
    metadata::law_handles_read_back(workspace_id);
    metadata::law_handles_read_back(group);
    assert(now.len() == groups.len());
    assert(now[k] == after.snapshot.groups@[k]@);
}

/// A tab shows a terminal of its own: an active one where it has any.  A tab
/// without terminals shows none.
pub proof fn law_a_tab_shows_its_active_terminal(terminals: Seq<TerminalView>, group: u64, k: int)
    ensures
        0 <= k < terminals.len() && terminals[k].group_id == text::decimal(group as nat)
            ==> exists|j: int|
            {
                &&& 0 <= j < terminals.len()
                &&& (#[trigger] terminals[j]).group_id == text::decimal(group as nat)
                &&& terminals[k].active ==> terminals[j].active
                &&& select::group_pane(terminals, group) == metadata::handle_in(terminals[j].id)
            },
        (forall|j: int|
            0 <= j < terminals.len() ==> (#[trigger] terminals[j]).group_id != text::decimal(
                group as nat,
            )) ==> select::group_pane(terminals, group) is None,
{
    let id = text::decimal(group as nat);
    runtime_laws::law_a_group_shows_its_own_terminal(terminals, id, true);
    runtime_laws::law_a_group_shows_its_own_terminal(terminals, id, false);
    match select::first_terminal(terminals, id, true) {
        Some(t) => {
            let j = choose|j: int| 0 <= j < terminals.len() && terminals[j] == t;
            assert(terminals[j].group_id == id);
        },
        None => match select::first_terminal(terminals, id, false) {
            Some(t) => {
                let j = choose|j: int| 0 <= j < terminals.len() && terminals[j] == t;
                assert(terminals[j].group_id == id);
            },
            None => {},
        },
    }
}

/// A tab without panes leaves nothing marked, and the topology as it is.
pub proof fn law_an_empty_tab_marks_nothing(s: SessionSnapshotView, i: int, w: int)
    requires
        0 <= i < s.panes.len(),
        0 <= w < s.windows.len(),
    ensures
        select::unmarked(s).selected_pane is None,
        select::unmarked(s).panes.len() == s.panes.len(),
        !select::unmarked(s).panes[i].selected,
        select::unmarked(s).panes[i].pane_id == s.panes[i].pane_id,
        select::unmarked(s).panes[i].window_id == s.panes[i].window_id,
        select::unmarked(s).windows.len() == s.windows.len(),
        !select::unmarked(s).windows[w].selected,
        select::unmarked(s).windows[w].window_id == s.windows[w].window_id,
        select::unmarked(s).windows[w].name == s.windows[w].name,
        select::unmarked(s).windows[w].panes.len() == s.windows[w].panes.len(),
        forall|p: int|
            0 <= p < s.windows[w].panes.len() ==> !(
            #[trigger] select::unmarked(s).windows[w].panes[p]).selected,
{
}

proof fn lemma_panes_in(flat: Seq<PaneSnapshotView>, window: u64)
    ensures
        forall|i: int|
            0 <= i < flat.len() && (#[trigger] flat[i]).window_id == window ==> topology::panes_in(
                flat,
                window,
            ).contains(flat[i]),
        forall|p: int|
            0 <= p < topology::panes_in(flat, window).len() ==> (#[trigger] topology::panes_in(
                flat,
                window,
            )[p]).window_id == window && flat.contains(topology::panes_in(flat, window)[p]),
    decreases flat.len(),
{
    if flat.len() > 0 {
        let front = flat.drop_last();
        lemma_panes_in(front, window);
        let inner = topology::panes_in(front, window);
        let all = topology::panes_in(flat, window);
        assert forall|i: int| 0 <= i < flat.len() && (#[trigger] flat[i]).window_id
            == window implies all.contains(flat[i]) by {
            if i == flat.len() - 1 {
                assert(all[all.len() - 1] == flat[i]);
            } else {
                assert(front[i] == flat[i]);
                let p = choose|p: int| 0 <= p < inner.len() && inner[p] == flat[i];
                assert(all[p] == flat[i]);
            }
        }
        assert forall|p: int| 0 <= p < all.len() implies (#[trigger] all[p]).window_id == window
            && flat.contains(all[p]) by {
            if p < inner.len() {
                assert(all[p] == inner[p]);
                let i = choose|i: int| 0 <= i < front.len() && front[i] == inner[p];
                assert(flat[i] == all[p]);
            } else {
                assert(all[p] == flat[flat.len() - 1]);
            }
        }
    }
}

/// A committed window holds the panes that are in it and no others, and is
/// selected with one of them; its name and identity stay.
pub proof fn law_a_committed_window_holds_its_panes(
    windows: Seq<WindowSnapshotView>,
    flat: Seq<PaneSnapshotView>,
    w: int,
    pane: PaneSnapshotView,
)
    requires
        0 <= w < windows.len(),
    ensures
        settle::filled_windows(windows, flat).len() == windows.len(),
        settle::filled_windows(windows, flat)[w].window_id == windows[w].window_id,
        settle::filled_windows(windows, flat)[w].name == windows[w].name,
        settle::filled_windows(windows, flat)[w].panes.contains(pane) <==> flat.contains(pane)
            && pane.window_id == windows[w].window_id,
        flat.contains(pane) && pane.window_id == windows[w].window_id && pane.selected
            ==> settle::filled_windows(windows, flat)[w].selected,
        (forall|i: int| 0 <= i < flat.len() ==> !(#[trigger] flat[i]).selected)
            ==> !settle::filled_windows(windows, flat)[w].selected,
{
    lemma_panes_in(flat, windows[w].window_id);
    let inner = topology::panes_in(flat, windows[w].window_id);
    if inner.contains(pane) {
        let p = choose|p: int| 0 <= p < inner.len() && inner[p] == pane;
        assert(inner[p].window_id == windows[w].window_id);
    }
    if flat.contains(pane) {
        let i = choose|i: int| 0 <= i < flat.len() && flat[i] == pane;
        assert(flat[i] == pane);
    }
}

/// The terminals that are attached are those of the selected pane.
pub proof fn law_the_selected_panes_terminals_are_attached(
    panes: Map<u64, RemotePane>,
    natives: Map<u64, u64>,
    pane: u64,
)
    ensures
        panes.contains_key(pane) ==> terminal::terminal_of(panes, Some(pane)) == Some(
            panes[pane].terminal_id,
        ),
        natives.contains_key(pane) ==> terminal::native_of(natives, Some(pane)) == Some(
            natives[pane],
        ),
        !panes.contains_key(pane) ==> terminal::terminal_of(panes, Some(pane)) is None,
        !natives.contains_key(pane) ==> terminal::native_of(natives, Some(pane)) is None,
        terminal::terminal_of(panes, None) is None,
        terminal::native_of(natives, None) is None,
{
}

/// Every character has a name of its own in which no `+` occurs, so that the
/// modifiers in front of it can be told from it.  What cannot be typed has no
/// name.
pub proof fn law_characters_have_names(c: char)
    ensures
        input::char_name('+') == Some("plus"@),
        input::char_name(' ') == Some("space"@),
        input::char_name('\t') == Some("tab"@),
        input::char_name('\n') == Some("enter"@),
        input::char_name('\r') == Some("enter"@),
        '!' <= c <= '~' && c != '+' ==> input::char_name(c) == Some(seq![c]),
        c < ' ' && c != '\t' && c != '\n' && c != '\r' ==> input::char_name(c) is None,
        input::char_name(c) is Some ==> !input::char_name(c)->0.contains('+')
            && input::char_name(c)->0.len() > 0,
{
    reveal_strlit("plus");
    reveal_strlit("space");
    reveal_strlit("tab");
    reveal_strlit("enter");
}

/// A text is typed character by character, each with the same modifiers but
/// for the shift that its case already shows.
pub proof fn law_a_text_is_typed_by_characters(t: Seq<char>, m: Modifiers)
    ensures
        input::text_keys(t, m) is None <==> exists|i: int|
            0 <= i < t.len() && input::char_name(#[trigger] t[i]) is None,
        input::text_keys(t, m) is Some ==> input::text_keys(t, m)->0.len() == t.len(),
        input::text_keys(t, m) is Some ==> forall|i: int|
            0 <= i < t.len() ==> #[trigger] input::text_keys(t, m)->0[i] == input::prefix(
                (Modifiers { shift: false, alt: m.alt, ctrl: m.ctrl }),
            ) + input::char_name(t[i])->0,
    decreases t.len(),
{
    if t.len() > 0 {
        let front = t.drop_last();
        law_a_text_is_typed_by_characters(front, m);
        assert forall|i: int| 0 <= i < front.len() implies front[i] == t[i] by {}
        assert(t.last() == t[t.len() - 1]);
        if input::text_keys(front, m) is None {
            let i = choose|i: int|
                0 <= i < front.len() && input::char_name(#[trigger] front[i]) is None;
            assert(input::char_name(t[i]) is None);
        } else if input::char_name(t.last()) is Some {
            let keys = input::text_keys(t, m)->0;
            let less = input::text_keys(front, m)->0;
            assert(keys == less.push(input::char_key(t.last(), m)->0));
            assert forall|i: int| 0 <= i < t.len() implies #[trigger] keys[i] == input::prefix(
                (Modifiers { shift: false, alt: m.alt, ctrl: m.ctrl }),
            ) + input::char_name(t[i])->0 by {
                if i < front.len() {
                    assert(keys[i] == less[i]);
                }
            }
            assert forall|i: int| 0 <= i < t.len() implies input::char_name(
                #[trigger] t[i],
            ) is Some by {
                if i < front.len() {
                    assert(input::char_name(front[i]) is Some);
                }
            }
        }
    }
}

/// Every key is sent under the name that is written on it.
pub proof fn law_keys_are_named_as_written()
    ensures
        input::key_name(KeyCode::Escape) == Some("escape"@),
        input::key_name(KeyCode::Tab) == Some("tab"@),
        input::key_name(KeyCode::Enter) == Some("enter"@),
        input::key_name(KeyCode::Backspace) == Some("backspace"@),
        input::key_name(KeyCode::Up) == Some("up"@),
        input::key_name(KeyCode::Down) == Some("down"@),
        input::key_name(KeyCode::Left) == Some("left"@),
        input::key_name(KeyCode::Right) == Some("right"@),
        input::key_name(KeyCode::Interrupt) == Some("ctrl+c"@),
        input::key_name(KeyCode::F1) == Some("f1"@),
        input::key_name(KeyCode::F2) == Some("f2"@),
        input::key_name(KeyCode::F3) == Some("f3"@),
        input::key_name(KeyCode::F4) == Some("f4"@),
        input::key_name(KeyCode::F5) == Some("f5"@),
        input::key_name(KeyCode::F6) == Some("f6"@),
        input::key_name(KeyCode::F7) == Some("f7"@),
        input::key_name(KeyCode::F8) == Some("f8"@),
        input::key_name(KeyCode::F9) == Some("f9"@),
        input::key_name(KeyCode::F10) == Some("f10"@),
        input::key_name(KeyCode::F11) == Some("f11"@),
        input::key_name(KeyCode::F12) == Some("f12"@),
{
}

proof fn lemma_group_aliases(groups: Seq<HerdrGroup>, g: int, p: int)
    requires
        0 <= g < groups.len(),
        0 <= p < groups[g].panes@.len(),
    ensures
        session::group_aliases(groups).contains(groups[g].panes@[p].pane_id@),
    decreases groups.len(),
{
    let front = session::group_aliases(groups.drop_last());
    let all = session::group_aliases(groups);
    if g == groups.len() - 1 {
        assert(all[front.len() + p] == groups[g].panes@[p].pane_id@);
    } else {
        assert(groups.drop_last()[g] == groups[g]);
        lemma_group_aliases(groups.drop_last(), g, p);
        let i = choose|i: int|
            0 <= i < front.len() && front[i] == groups[g].panes@[p].pane_id@;
        assert(all[i] == front[i]);
    }
}

proof fn lemma_listed_aliases(workspaces: Seq<HerdrWorkspace>, w: int, g: int, p: int)
    requires
        0 <= w < workspaces.len(),
        0 <= g < workspaces[w].groups@.len(),
        0 <= p < workspaces[w].groups@[g].panes@.len(),
    ensures
        session::listed_aliases(workspaces).contains(
            workspaces[w].groups@[g].panes@[p].pane_id@,
        ),
    decreases workspaces.len(),
{
    let name = workspaces[w].groups@[g].panes@[p].pane_id@;
    let front = session::listed_aliases(workspaces.drop_last());
    let all = session::listed_aliases(workspaces);
    if w == workspaces.len() - 1 {
        lemma_group_aliases(workspaces[w].groups@, g, p);
        let last = session::group_aliases(workspaces[w].groups@);
        let i = choose|i: int| 0 <= i < last.len() && last[i] == name;
        assert(all[front.len() + i] == name);
    } else {
        assert(workspaces.drop_last()[w] == workspaces[w]);
        lemma_listed_aliases(workspaces.drop_last(), w, g, p);
        let i = choose|i: int| 0 <= i < front.len() && front[i] == name;
        assert(all[i] == name);
    }
}

proof fn lemma_distinct(texts: Seq<Seq<char>>)
    ensures
        session::distinct(texts).no_duplicates(),
        forall|t: Seq<char>| #[trigger]
            session::distinct(texts).contains(t) <==> texts.contains(t),
    decreases texts.len(),
{
    if texts.len() > 0 {
        let front = texts.drop_last();
        let less = session::distinct(front);
        lemma_distinct(front);
        assert forall|t: Seq<char>| #[trigger]
            session::distinct(texts).contains(t) <==> texts.contains(t) by {
            assert(less.contains(t) <==> front.contains(t));
            let all = session::distinct(texts);
            if texts.contains(t) {
                let i = choose|i: int| 0 <= i < texts.len() && texts[i] == t;
                if i < front.len() {
                    assert(front[i] == t);
                    let j = choose|j: int| 0 <= j < less.len() && less[j] == t;
                    assert(all[j] == t);
                } else if !less.contains(t) {
                    assert(all[all.len() - 1] == t);
                }
            }
            if all.contains(t) {
                let j = choose|j: int| 0 <= j < all.len() && all[j] == t;
                if j < less.len() {
                    assert(less[j] == t);
                    let i = choose|i: int| 0 <= i < front.len() && front[i] == t;
                    assert(texts[i] == t);
                } else {
                    assert(texts[texts.len() - 1] == t);
                }
            }
        }
    }
}

/// Every pane of a snapshot is subscribed to by its alias, once.
pub proof fn law_every_pane_has_its_alias(workspaces: Seq<HerdrWorkspace>, w: int, g: int, p: int)
    requires
        0 <= w < workspaces.len(),
        0 <= g < workspaces[w].groups@.len(),
        0 <= p < workspaces[w].groups@[g].panes@.len(),
    ensures
        session::aliases(workspaces).contains(workspaces[w].groups@[g].panes@[p].pane_id@),
        session::aliases(workspaces).no_duplicates(),
{
    lemma_listed_aliases(workspaces, w, g, p);
    lemma_distinct(session::listed_aliases(workspaces));
}

/// A stopped recovery tells its reason; a failure of the connection is none of
/// the runtime's.
pub proof fn law_a_stopped_recovery_tells_its_reason()
    ensures
        recovery::stop_text(StopReason::TerminalMissing) == "herdr_terminal_missing"@,
        recovery::stop_text(StopReason::SessionMissing) == "herdr_session_missing"@,
        recovery::stop_text(StopReason::Incompatible) == "herdr_incompatible"@,
        recovery::stop_text(StopReason::Outdated) == "recovery_stale"@,
        recovery::stop_text(StopReason::Because(FlowFailure::HerdrController))
            == "controller_conflict"@,
        recovery::stop_text(StopReason::Because(FlowFailure::HerdrMissing))
            == "herdr_session_missing"@,
        recovery::stop_text(StopReason::Because(FlowFailure::HerdrSessionMissing))
            == "herdr_session_missing"@,
        recovery::stop_text(StopReason::Because(FlowFailure::HerdrForwarding))
            == "herdr_session_missing"@,
        recovery::stop_text(StopReason::Because(FlowFailure::HerdrIncompatible))
            == "herdr_incompatible"@,
        recovery::stop_text(StopReason::Because(FlowFailure::HerdrUnsupported))
            == "herdr_incompatible"@,
        recovery::stop_text(StopReason::Because(FlowFailure::HerdrDiscoveryIncompatible))
            == "herdr_incompatible"@,
        recovery::stop_text(StopReason::Because(FlowFailure::HerdrProtocol))
            == "runtime_identity_uncertain"@,
        !recovery::is_local(FlowFailure::Channel),
        !recovery::is_local(FlowFailure::Transport),
        !recovery::is_local(FlowFailure::RemoteClosed),
        !recovery::is_local(FlowFailure::Stale),
        recovery::is_local(FlowFailure::HerdrController),
        recovery::is_local(FlowFailure::HerdrSessionMissing),
        recovery::is_local(FlowFailure::HerdrProtocol),
        recovery::is_local(FlowFailure::HerdrOperation),
{
}

/// A listing that ended well is read; without the executable it is missing,
/// and a status of its own tells an unusable installation.  A discovery fails
/// as a discovery, a selected runtime as itself.
pub proof fn law_a_listing_is_judged_by_its_status(code: u32, diagnostic: Seq<char>)
    ensures
        recovery::listing_verdict(Some(code), diagnostic) is Ok <==> code == 0,
        recovery::listing_verdict(Some(127), diagnostic) == Err::<(), FlowFailure>(
            FlowFailure::HerdrDiscoveryMissing,
        ),
        recovery::listing_verdict(Some(78), diagnostic) == Err::<(), FlowFailure>(
            FlowFailure::HerdrDiscoveryIncompatible,
        ),
        recovery::listing_verdict(None, diagnostic) == Err::<(), FlowFailure>(
            FlowFailure::HerdrDiscoveryMalformed,
        ),
        recovery::resolver_failures_for(true).missing == FlowFailure::HerdrDiscoveryMissing,
        recovery::resolver_failures_for(true).incompatible
            == FlowFailure::HerdrDiscoveryIncompatible,
        recovery::resolver_failures_for(true).malformed == FlowFailure::HerdrDiscoveryMalformed,
        recovery::resolver_failures_for(true).timeout == FlowFailure::HerdrDiscoveryTimeout,
        recovery::resolver_failures_for(false).missing == FlowFailure::HerdrMissing,
        recovery::resolver_failures_for(false).incompatible == FlowFailure::HerdrIncompatible,
        recovery::resolver_failures_for(false).malformed == FlowFailure::HerdrProtocol,
        recovery::resolver_failures_for(false).timeout == FlowFailure::HerdrProtocol,
{
}

} // verus!
