//! What a projected snapshot shows: every tab and pane in its place, and the
//! user's own choices.

use vstd::prelude::*;

use crate::ssh::herdr::handles;
use crate::ssh::herdr::handles::KeyView;
use crate::ssh::herdr::metadata;
use crate::ssh::herdr::metadata::{Metadata, RemotePane, GROUP, PANE, WORKSPACE};
use crate::ssh::herdr::placing;
use crate::ssh::herdr::placing::{PlacedGroup, PlacedPane};
use crate::ssh::herdr::project;
use crate::ssh::herdr::project::PlacementView;
use crate::ssh::herdr::wire::{HerdrGroup, HerdrPane, HerdrWorkspace};
use crate::text;
use crate::tmux::snapshot;
use crate::tmux::snapshot::PaneSnapshot;
use crate::workspace;
use crate::workspace::TerminalGroupView;

verus! {

/// The handle that a placement holds for a remote thing of this kind.
pub open spec fn handle_of(p: PlacementView, kind: u8, remote: Seq<char>) -> u64 {
    handles::table(p.ids)[KeyView { kind, remote }]
}

pub open spec fn has_handle(p: PlacementView, kind: u8, remote: Seq<char>) -> bool {
    handles::table(p.ids).contains_key(KeyView { kind, remote })
}

/// The tab `t` of the workspace `w`.
pub open spec fn tab(p: PlacementView, w: int, t: int) -> HerdrGroup {
    p.workspaces[w].groups@[t]
}

pub open spec fn is_tab(p: PlacementView, w: int, t: int) -> bool {
    0 <= w < p.workspaces.len() && 0 <= t < p.workspaces[w].groups@.len()
}

pub open spec fn is_pane(p: PlacementView, w: int, t: int, n: int) -> bool {
    is_tab(p, w, t) && 0 <= n < tab(p, w, t).panes@.len()
}

/// Everything that a placement shows has a handle.
pub open spec fn fully_placed(p: PlacementView) -> bool {
    &&& p.workspaces.len() <= usize::MAX
    &&& forall|w: int|
        0 <= w < p.workspaces.len() ==> has_handle(
            p,
            WORKSPACE,
            (#[trigger] p.workspaces[w]).workspace_id@,
        )
    &&& forall|w: int, t: int|
        #[trigger] is_tab(p, w, t) ==> has_handle(p, GROUP, p.workspaces[w].groups@[t].tab_id@)
    &&& forall|w: int, t: int, n: int|
        #[trigger] is_pane(p, w, t, n) ==> has_handle(
            p,
            PANE,
            p.workspaces[w].groups@[t].panes@[n].terminal_id@,
        )
}

proof fn lemma_tab_placed(
    table: Map<KeyView, u64>,
    workspaces: Seq<HerdrWorkspace>,
    upto: int,
    w: int,
    t: int,
) -> (i: int)
    requires
        0 <= w < upto <= workspaces.len(),
        0 <= t < workspaces[w].groups@.len(),
    ensures
        0 <= i < placing::groups_upto(table, workspaces, upto).len(),
        placing::groups_upto(table, workspaces, upto)[i] == (PlacedGroup {
            at_workspace: w as usize,
            at_group: t as usize,
            workspace: placing::workspace_handle(table, workspaces[w]),
            group: placing::group_handle(table, workspaces[w].groups@[t]),
        }),
    decreases upto,
{
    let front = placing::groups_upto(table, workspaces, upto - 1);
    let all = placing::groups_upto(table, workspaces, upto);
    if w == upto - 1 {
        let own = placing::groups_of_workspace(table, workspaces, w);
        assert(all[front.len() + t] == own[t]);
        front.len() + t
    } else {
        let i = lemma_tab_placed(table, workspaces, upto - 1, w, t);
        assert(all[i] == front[i]);
        i
    }
}

/// What is placed as a tab is a tab.
proof fn lemma_placed_is_tab(
    table: Map<KeyView, u64>,
    workspaces: Seq<HerdrWorkspace>,
    upto: int,
    i: int,
) -> (r: (int, int))
    requires
        0 <= upto <= workspaces.len(),
        0 <= i < placing::groups_upto(table, workspaces, upto).len(),
    ensures
        0 <= r.0 < upto,
        0 <= r.1 < workspaces[r.0].groups@.len(),
        placing::groups_upto(table, workspaces, upto)[i] == (PlacedGroup {
            at_workspace: r.0 as usize,
            at_group: r.1 as usize,
            workspace: placing::workspace_handle(table, workspaces[r.0]),
            group: placing::group_handle(table, workspaces[r.0].groups@[r.1]),
        }),
    decreases upto,
{
    let front = placing::groups_upto(table, workspaces, upto - 1);
    if i < front.len() {
        lemma_placed_is_tab(table, workspaces, upto - 1, i)
    } else {
        (upto - 1, i - front.len())
    }
}

proof fn lemma_groups_in(groups: Seq<PlacedGroup>, workspace: u64, group: u64)
    ensures
        project::groups_in(groups, workspace).contains(group) <==> exists|i: int|
            0 <= i < groups.len() && (#[trigger] groups[i]).workspace == workspace
                && groups[i].group == group,
    decreases groups.len(),
{
    if groups.len() > 0 {
        let front = groups.drop_last();
        lemma_groups_in(front, workspace, group);
        let before = project::groups_in(front, workspace);
        let all = project::groups_in(groups, workspace);
        if all.contains(group) {
            let k = choose|k: int| 0 <= k < all.len() && all[k] == group;
            if k < before.len() {
                assert(before[k] == group);
                let i = choose|i: int|
                    0 <= i < front.len() && (#[trigger] front[i]).workspace == workspace
                        && front[i].group == group;
                assert(groups[i] == front[i]);
            } else {
                assert(groups[groups.len() - 1].workspace == workspace);
            }
        }
        if exists|i: int|
            0 <= i < groups.len() && (#[trigger] groups[i]).workspace == workspace
                && groups[i].group == group {
            let i = choose|i: int|
                0 <= i < groups.len() && (#[trigger] groups[i]).workspace == workspace
                    && groups[i].group == group;
            if i < front.len() {
                assert(front[i] == groups[i]);
                let k = choose|k: int| 0 <= k < before.len() && before[k] == group;
                assert(all[k] == group);
            } else {
                assert(all[before.len() as int] == group);
            }
        }
    }
}

proof fn lemma_selected_in(
    workspaces: Seq<HerdrWorkspace>,
    handles: Seq<u64>,
    groups: Seq<PlacedGroup>,
    local: Map<u64, u64>,
    before: Seq<TerminalGroupView>,
    own: u64,
)
    ensures
        ({
            let map = project::selected_in(workspaces, handles, groups, local, before);
            let chosen = metadata::chosen_group(
                project::groups_in(groups, own),
                project::looked_up(local, own),
                project::marked_group(before, own),
                project::focused_group(workspaces, groups, own),
            );
            &&& map.contains_key(own) <==> handles.contains(own) && chosen is Some
            &&& map.contains_key(own) ==> Some(map[own]) == chosen
        }),
    decreases handles.len(),
{
    if handles.len() > 0 {
        let front = handles.drop_last();
        lemma_selected_in(workspaces, front, groups, local, before, own);
        if front.contains(own) {
            let i = choose|i: int| 0 <= i < front.len() && front[i] == own;
            assert(handles[i] == own);
        }
        if handles.contains(own) && handles.last() != own {
            let i = choose|i: int| 0 <= i < handles.len() && handles[i] == own;
            assert(front[i] == own);
        }
        if handles.last() == own {
            assert(handles[handles.len() - 1] == own);
        }
    }
}

/// The tab that the user chose in a workspace stays chosen there as long as it
/// exists, whatever tab the desktop has in focus, unless the selected pane
/// itself is in that workspace.  Among the shown tabs of the workspace, it
/// alone is marked.
pub proof fn law_the_users_tab_stays(
    before: Metadata,
    p: PlacementView,
    mapping: Map<u64, u64>,
    fresh: Seq<u64>,
    shown: Metadata,
    runtime: Seq<char>,
    selected: Option<u64>,
    w: int,
    t: int,
)
    requires
        fully_placed(p),
        project::shows_scene(shown, project::scene(before, p, mapping, fresh), runtime, selected),
        is_tab(p, w, t),
        before.selected_groups@.contains_key(
            handle_of(p, WORKSPACE, p.workspaces[w].workspace_id@),
        ),
        before.selected_groups@[handle_of(p, WORKSPACE, p.workspaces[w].workspace_id@)]
            == handle_of(p, GROUP, tab(p, w, t).tab_id@),
        selected is Some && shown.panes@.contains_key(selected->0)
            ==> shown.panes@[selected->0].workspace != handle_of(
            p,
            WORKSPACE,
            p.workspaces[w].workspace_id@,
        ),
    ensures
        ({
            let own = handle_of(p, WORKSPACE, p.workspaces[w].workspace_id@);
            let group = handle_of(p, GROUP, tab(p, w, t).tab_id@);
            let groups = workspace::group_views(shown.snapshot.groups@);
            &&& shown.selected_groups@.contains_key(own)
            &&& shown.selected_groups@[own] == group
            &&& forall|i: int|
                0 <= i < groups.len() && (#[trigger] groups[i]).workspace_id == text::decimal(
                    own as nat,
                ) ==> (groups[i].selected <==> groups[i].id == text::decimal(group as nat))
        }),
{
    let s = project::scene(before, p, mapping, fresh);
    let table = handles::table(p.ids);
    let own = handle_of(p, WORKSPACE, p.workspaces[w].workspace_id@);
    let group = handle_of(p, GROUP, tab(p, w, t).tab_id@);
    assert(has_handle(p, WORKSPACE, p.workspaces[w].workspace_id@));
    assert(has_handle(p, GROUP, p.workspaces[w].groups@[t].tab_id@));
    let i = lemma_tab_placed(table, p.workspaces, p.workspaces.len() as int, w, t);
    assert(s.groups[i].workspace == own && s.groups[i].group == group);
    lemma_groups_in(s.groups, own, group);
    lemma_selected_in(
        p.workspaces,
        s.handles,
        s.groups,
        before.selected_groups@,
        workspace::group_views(before.snapshot.groups@),
        own,
    );
    assert(s.handles[w] == own);
    assert(s.selected_groups.contains_key(own) && s.selected_groups[own] == group);
    lemma_marks(shown, s.workspaces, s.groups, own, group);
}

/// The marks of the shown tabs of a workspace follow its selected tab.
proof fn lemma_marks(
    shown: Metadata,
    workspaces: Seq<HerdrWorkspace>,
    placed: Seq<PlacedGroup>,
    own: u64,
    group: u64,
)
    requires
        workspace::group_views(shown.snapshot.groups@) == metadata::refreshed(
            Seq::new(placed.len(), |i: int| project::shown_group(workspaces, placed[i])),
            shown.selected_groups@,
        ),
        shown.selected_groups@.contains_key(own),
        shown.selected_groups@[own] == group,
    ensures
        ({
            let groups = workspace::group_views(shown.snapshot.groups@);
            forall|i: int|
                0 <= i < groups.len() && (#[trigger] groups[i]).workspace_id == text::decimal(
                    own as nat,
                ) ==> (groups[i].selected <==> groups[i].id == text::decimal(group as nat))
        }),
{
    let groups = workspace::group_views(shown.snapshot.groups@);
    metadata::law_handles_read_back(own);
    metadata::law_handles_read_back(group);
    assert forall|i: int|
        0 <= i < groups.len() && (#[trigger] groups[i]).workspace_id == text::decimal(
            own as nat,
        ) implies (groups[i].selected <==> groups[i].id == text::decimal(group as nat)) by {
        metadata::law_handles_read_back(placed[i].group);
        metadata::law_handles_read_back(placed[i].workspace);
        assert(groups[i].id == text::decimal(placed[i].group as nat));
        assert(groups[i].workspace_id == text::decimal(placed[i].workspace as nat));
    }
}

/// A workspace with tabs has a selected tab, which is one of its own; one
/// without has none of its own choosing.
pub proof fn law_a_selected_tab_is_a_tab_of_its_workspace(
    before: Metadata,
    p: PlacementView,
    mapping: Map<u64, u64>,
    fresh: Seq<u64>,
    own: u64,
)
    requires
        fully_placed(p),
    ensures
        ({
            let selected = project::scene(before, p, mapping, fresh).selected_groups;
            selected.contains_key(own) <==> exists|w: int, t: int|
                #[trigger] is_tab(p, w, t) && handle_of(p, WORKSPACE, p.workspaces[w].workspace_id@) == own
        }),
        ({
            let selected = project::scene(before, p, mapping, fresh).selected_groups;
            selected.contains_key(own) ==> exists|w: int, t: int|
                #[trigger] is_tab(p, w, t) && handle_of(p, WORKSPACE, p.workspaces[w].workspace_id@) == own
                    && handle_of(p, GROUP, tab(p, w, t).tab_id@) == selected[own]
        }),
{
    let s = project::scene(before, p, mapping, fresh);
    let table = handles::table(p.ids);
    let count = p.workspaces.len() as int;
    lemma_selected_in(
        p.workspaces,
        s.handles,
        s.groups,
        before.selected_groups@,
        workspace::group_views(before.snapshot.groups@),
        own,
    );
    let choices = project::groups_in(s.groups, own);
    if s.selected_groups.contains_key(own) {
        let chosen = s.selected_groups[own];
        assert(choices.contains(chosen)) by {
            if choices.len() > 0 {
                assert(choices[0] == choices[0]);
            }
        }
        lemma_groups_in(s.groups, own, chosen);
        let i = choose|i: int|
            0 <= i < s.groups.len() && (#[trigger] s.groups[i]).workspace == own
                && s.groups[i].group == chosen;
        let (w, t) = lemma_placed_is_tab(table, p.workspaces, count, i);
        assert(is_tab(p, w, t));
        assert(has_handle(p, WORKSPACE, p.workspaces[w].workspace_id@));
        assert(has_handle(p, GROUP, p.workspaces[w].groups@[t].tab_id@));
        assert(is_tab(p, w, t) && handle_of(p, GROUP, tab(p, w, t).tab_id@) == chosen);
    }
    if exists|w: int, t: int|
        #[trigger] is_tab(p, w, t) && handle_of(p, WORKSPACE, p.workspaces[w].workspace_id@) == own {
        let (w, t) = choose|w: int, t: int|
            #[trigger] is_tab(p, w, t) && handle_of(p, WORKSPACE, p.workspaces[w].workspace_id@) == own;
        assert(has_handle(p, WORKSPACE, p.workspaces[w].workspace_id@));
        let i = lemma_tab_placed(table, p.workspaces, count, w, t);
        lemma_groups_in(s.groups, own, s.groups[i].group);
        assert(choices.contains(s.groups[i].group));
        assert(choices.len() > 0);
        assert(s.handles[w] == own);
    }
}

/// Without a choice of the user in a workspace, and without a mark from before,
/// the tab that the desktop has in focus there is the selected one.
pub proof fn law_focus_decides_without_a_choice(
    before: Metadata,
    p: PlacementView,
    mapping: Map<u64, u64>,
    fresh: Seq<u64>,
    w: int,
    t: int,
)
    requires
        fully_placed(p),
        is_tab(p, w, t),
        tab(p, w, t).focused,
        !before.selected_groups@.contains_key(
            handle_of(p, WORKSPACE, p.workspaces[w].workspace_id@),
        ),
        forall|i: int|
            0 <= i < before.snapshot.groups@.len() ==> !(
            #[trigger] before.snapshot.groups@[i]).selected,
        // No other tab of that handle is in focus.
        forall|v: int, u: int|
            #[trigger] is_tab(p, v, u) && handle_of(p, WORKSPACE, p.workspaces[v].workspace_id@) == handle_of(
                p,
                WORKSPACE,
                p.workspaces[w].workspace_id@,
            ) && tab(p, v, u).focused ==> handle_of(p, GROUP, tab(p, v, u).tab_id@) == handle_of(
                p,
                GROUP,
                tab(p, w, t).tab_id@,
            ),
    ensures
        project::scene(before, p, mapping, fresh).selected_groups[handle_of(
            p,
            WORKSPACE,
            p.workspaces[w].workspace_id@,
        )] == handle_of(p, GROUP, tab(p, w, t).tab_id@),
{
    let s = project::scene(before, p, mapping, fresh);
    let table = handles::table(p.ids);
    let count = p.workspaces.len() as int;
    let own = handle_of(p, WORKSPACE, p.workspaces[w].workspace_id@);
    let group = handle_of(p, GROUP, tab(p, w, t).tab_id@);
    let marks = workspace::group_views(before.snapshot.groups@);
    assert(has_handle(p, WORKSPACE, p.workspaces[w].workspace_id@));
    assert(has_handle(p, GROUP, p.workspaces[w].groups@[t].tab_id@));
    let i = lemma_tab_placed(table, p.workspaces, count, w, t);
    lemma_groups_in(s.groups, own, group);
    lemma_selected_in(p.workspaces, s.handles, s.groups, before.selected_groups@, marks, own);
    assert(s.handles[w] == own);
    assert forall|k: int| 0 <= k < marks.len() implies !(#[trigger] marks[k]).selected by {
        assert(marks[k] == before.snapshot.groups@[k]@);
    }
    lemma_no_mark(marks, own);
    assert forall|k: int|
        0 <= k < s.groups.len() && (#[trigger] s.groups[k]).workspace == own
            && placing::group_at_place(p.workspaces, s.groups[k]).focused implies s.groups[k].group
        == group by {
        let (v, u) = lemma_placed_is_tab(table, p.workspaces, count, k);
        lemma_place_fits(p.workspaces, v, u);
        assert(is_tab(p, v, u));
        assert(has_handle(p, WORKSPACE, p.workspaces[v].workspace_id@));
        assert(has_handle(p, GROUP, p.workspaces[v].groups@[u].tab_id@));
        assert(tab(p, v, u).focused);
    }
    lemma_place_fits(p.workspaces, w, t);
    lemma_focused(p.workspaces, s.groups, own, group, i);
}

proof fn lemma_place_fits(workspaces: Seq<HerdrWorkspace>, w: int, t: int)
    requires
        workspaces.len() <= usize::MAX,
        0 <= w < workspaces.len(),
        0 <= t < workspaces[w].groups@.len(),
    ensures
        w as usize == w,
        t as usize == t,
{
    assert(workspaces[w].groups@.len() == workspaces[w].groups.len());
}

proof fn lemma_no_mark(groups: Seq<TerminalGroupView>, own: u64)
    requires
        forall|k: int| 0 <= k < groups.len() ==> !(#[trigger] groups[k]).selected,
    ensures
        project::marked_group(groups, own) is None,
    decreases groups.len(),
{
    if groups.len() > 0 {
        let rest = groups.drop_first();
        assert forall|k: int| 0 <= k < rest.len() implies !(#[trigger] rest[k]).selected by {
            assert(rest[k] == groups[k + 1]);
        }
        lemma_no_mark(rest, own);
        assert(!groups[0].selected);
    }
}

proof fn lemma_focused(
    workspaces: Seq<HerdrWorkspace>,
    groups: Seq<PlacedGroup>,
    own: u64,
    group: u64,
    i: int,
)
    requires
        0 <= i < groups.len(),
        groups[i].workspace == own,
        placing::group_at_place(workspaces, groups[i]).focused,
        forall|k: int|
            0 <= k < groups.len() && (#[trigger] groups[k]).workspace == own
                && placing::group_at_place(workspaces, groups[k]).focused ==> groups[k].group
                == group,
    ensures
        project::focused_group(workspaces, groups, own) == Some(group),
    decreases groups.len(),
{
    if !(groups[0].workspace == own && placing::group_at_place(workspaces, groups[0]).focused) {
        let rest = groups.drop_first();
        assert(rest[i - 1] == groups[i]);
        assert forall|k: int|
            0 <= k < rest.len() && (#[trigger] rest[k]).workspace == own
                && placing::group_at_place(workspaces, rest[k]).focused implies rest[k].group
            == group by {
            assert(rest[k] == groups[k + 1]);
        }
        lemma_focused(workspaces, rest, own, group, i - 1);
    } else {
        assert(groups[0].group == group);
    }
}

/// A place comes before another in the snapshot's order.
pub open spec fn precedes(a: PlacedPane, b: PlacedPane) -> bool {
    a.at_workspace < b.at_workspace || (a.at_workspace == b.at_workspace && (a.at_group
        < b.at_group || (a.at_group == b.at_group && a.at_pane < b.at_pane)))
}

/// The placed pane is the one at its place.
pub open spec fn stands_at(p: PlacementView, placed: PlacedPane, w: int, t: int, n: int) -> bool {
    &&& is_pane(p, w, t, n)
    &&& placed.at_workspace == w
    &&& placed.at_group == t
    &&& placed.at_pane == n
    &&& placed.workspace == handle_of(p, WORKSPACE, p.workspaces[w].workspace_id@)
    &&& placed.group == handle_of(p, GROUP, tab(p, w, t).tab_id@)
    &&& placed.pane == handle_of(p, PANE, tab(p, w, t).panes@[n].terminal_id@)
}

proof fn lemma_tab_panes(p: PlacementView, w: int, t: int)
    requires
        fully_placed(p),
        is_tab(p, w, t),
    ensures
        ({
            let own = placing::panes_of_group(handles::table(p.ids), p.workspaces, w, t);
            &&& own.len() == tab(p, w, t).panes@.len()
            &&& forall|n: int| 0 <= n < own.len() ==> stands_at(p, #[trigger] own[n], w, t, n)
        }),
{
    let own = placing::panes_of_group(handles::table(p.ids), p.workspaces, w, t);
    lemma_place_fits(p.workspaces, w, t);
    assert(tab(p, w, t).panes@.len() == tab(p, w, t).panes.len());
    assert forall|n: int| 0 <= n < own.len() implies stands_at(p, #[trigger] own[n], w, t, n) by {
        assert(has_handle(p, WORKSPACE, p.workspaces[w].workspace_id@));
        assert(has_handle(p, GROUP, p.workspaces[w].groups@[t].tab_id@));
        assert(is_pane(p, w, t, n));
        assert(has_handle(p, PANE, p.workspaces[w].groups@[t].panes@[n].terminal_id@));
        assert(n as usize == n);
    }
}

/// Panes in order, of places before this one, and all of those.
spec fn ordered_before(p: PlacementView, panes: Seq<PlacedPane>, w: int, t: int) -> bool {
    &&& forall|i: int|
        0 <= i < panes.len() ==> {
            let a = #[trigger] panes[i];
            &&& stands_at(
                p,
                a,
                a.at_workspace as int,
                a.at_group as int,
                a.at_pane as int,
            )
            &&& a.at_workspace < w || (a.at_workspace == w && a.at_group < t)
        }
    &&& forall|i: int, j: int|
        #![trigger panes[i], panes[j]]
        0 <= i < j < panes.len() ==> precedes(panes[i], panes[j])
    &&& forall|v: int, u: int, n: int|
        #[trigger] is_pane(p, v, u, n) && (v < w || (v == w && u < t)) ==> exists|i: int|
            0 <= i < panes.len() && stands_at(p, #[trigger] panes[i], v, u, n)
}

proof fn lemma_join_ordered(p: PlacementView, front: Seq<PlacedPane>, w: int, t: int)
    requires
        fully_placed(p),
        is_tab(p, w, t),
        ordered_before(p, front, w, t),
    ensures
        ordered_before(
            p,
            front + placing::panes_of_group(handles::table(p.ids), p.workspaces, w, t),
            w,
            t + 1,
        ),
{
    let own = placing::panes_of_group(handles::table(p.ids), p.workspaces, w, t);
    let all = front + own;
    lemma_tab_panes(p, w, t);
    assert forall|i: int| 0 <= i < all.len() implies {
        let a = #[trigger] all[i];
        &&& stands_at(p, a, a.at_workspace as int, a.at_group as int, a.at_pane as int)
        &&& a.at_workspace < w || (a.at_workspace == w && a.at_group < t + 1)
    } by {
        if i < front.len() {
            assert(all[i] == front[i]);
        } else {
            assert(all[i] == own[i - front.len()]);
        }
    }
    assert forall|i: int, j: int|
        #![trigger all[i], all[j]]
        0 <= i < j < all.len() implies precedes(all[i], all[j]) by {
        if j < front.len() {
            assert(all[i] == front[i] && all[j] == front[j]);
        } else {
            assert(all[j] == own[j - front.len()]);
            assert(stands_at(p, own[j - front.len()], w, t, j - front.len()));
            if i < front.len() {
                assert(all[i] == front[i]);
            } else {
                assert(all[i] == own[i - front.len()]);
                assert(stands_at(p, own[i - front.len()], w, t, i - front.len()));
            }
        }
    }
    assert forall|v: int, u: int, n: int|
        #[trigger] is_pane(p, v, u, n) && (v < w || (v == w && u < t + 1)) implies exists|i: int|
        0 <= i < all.len() && stands_at(p, #[trigger] all[i], v, u, n) by {
        if v < w || u < t {
            let i = choose|i: int|
                0 <= i < front.len() && stands_at(p, #[trigger] front[i], v, u, n);
            assert(all[i] == front[i]);
        } else {
            assert(all[front.len() + n] == own[n]);
            assert(stands_at(p, own[n], w, t, n));
        }
    }
}

proof fn lemma_workspace_ordered(p: PlacementView, front: Seq<PlacedPane>, w: int, t: int)
    requires
        fully_placed(p),
        0 <= w < p.workspaces.len(),
        0 <= t <= p.workspaces[w].groups@.len(),
        ordered_before(p, front, w, 0),
    ensures
        ordered_before(
            p,
            front + placing::panes_of_groups(handles::table(p.ids), p.workspaces, w, t),
            w,
            t,
        ),
    decreases t,
{
    let table = handles::table(p.ids);
    if t == 0 {
        assert(front + placing::panes_of_groups(table, p.workspaces, w, 0) =~= front);
    } else {
        lemma_workspace_ordered(p, front, w, t - 1);
        let less = placing::panes_of_groups(table, p.workspaces, w, t - 1);
        lemma_join_ordered(p, front + less, w, t - 1);
        let own = placing::panes_of_group(table, p.workspaces, w, t - 1);
        assert(front + less + own =~= front + placing::panes_of_groups(table, p.workspaces, w, t));
    }
}

proof fn lemma_all_ordered(p: PlacementView, w: int)
    requires
        fully_placed(p),
        0 <= w <= p.workspaces.len(),
    ensures
        ordered_before(p, placing::panes_upto(handles::table(p.ids), p.workspaces, w), w, 0),
    decreases w,
{
    let table = handles::table(p.ids);
    if w > 0 {
        lemma_all_ordered(p, w - 1);
        let front = placing::panes_upto(table, p.workspaces, w - 1);
        let count = p.workspaces[w - 1].groups@.len() as int;
        lemma_workspace_ordered(p, front, w - 1, count);
        let all = placing::panes_upto(table, p.workspaces, w);
        assert(all == front + placing::panes_of_groups(table, p.workspaces, w - 1, count));
        assert(ordered_before(p, all, w - 1, count));
        assert forall|v: int, u: int, n: int|
            #[trigger] is_pane(p, v, u, n) && (v < w || (v == w && u < 0)) implies exists|i: int|
            0 <= i < all.len() && stands_at(p, #[trigger] all[i], v, u, n) by {
            assert(v < w - 1 || (v == w - 1 && u < count));
        }
    }
}

/// Every pane of a snapshot is shown, once, in the snapshot's order, under the
/// handles of its workspace, its tab and its stable terminal.
pub proof fn law_every_pane_is_shown_in_its_place(
    before: Metadata,
    p: PlacementView,
    mapping: Map<u64, u64>,
    fresh: Seq<u64>,
)
    requires
        fully_placed(p),
    ensures
        ({
            let panes = project::scene(before, p, mapping, fresh).panes;
            &&& forall|i: int|
                0 <= i < panes.len() ==> {
                    let a = #[trigger] panes[i];
                    stands_at(p, a, a.at_workspace as int, a.at_group as int, a.at_pane as int)
                }
            &&& forall|i: int, j: int|
                #![trigger panes[i], panes[j]]
                0 <= i < j < panes.len() ==> precedes(panes[i], panes[j])
            &&& forall|w: int, t: int, n: int|
                #[trigger] is_pane(p, w, t, n) ==> exists|i: int|
                    0 <= i < panes.len() && stands_at(p, #[trigger] panes[i], w, t, n)
        }),
{
    let panes = project::scene(before, p, mapping, fresh).panes;
    lemma_all_ordered(p, p.workspaces.len() as int);
    assert(ordered_before(p, panes, p.workspaces.len() as int, 0));
    assert forall|w: int, t: int, n: int| #[trigger]
        is_pane(p, w, t, n) implies exists|i: int|
        0 <= i < panes.len() && stands_at(p, #[trigger] panes[i], w, t, n) by {
        assert(w < p.workspaces.len());
    }
}

/// A pane is shown as what it is: in its workspace and tab, with the native
/// terminal that belongs to it, under its name or its number, active where the
/// desktop has it in focus, and with its agent.
pub proof fn law_a_pane_is_shown_as_it_is(
    before: Metadata,
    p: PlacementView,
    mapping: Map<u64, u64>,
    fresh: Seq<u64>,
    viewport: (u16, u16),
    flat: Seq<PaneSnapshot>,
    shown: Metadata,
    runtime: Seq<char>,
    selected: Option<u64>,
    i: int,
)
    requires
        fully_placed(p),
        project::shows_scene(shown, project::scene(before, p, mapping, fresh), runtime, selected),
        snapshot::pane_views(flat) == project::flat_of(
            project::scene(before, p, mapping, fresh),
            viewport,
        ),
        0 <= i < flat.len(),
    ensures
        ({
            let s = project::scene(before, p, mapping, fresh);
            let placed = s.panes[i];
            let w = placed.at_workspace as int;
            let pane = tab(p, w, placed.at_group as int).panes@[placed.at_pane as int];
            let terminals = workspace::terminal_views(shown.snapshot.terminals@);
            let terminal = terminals[i];
            let id = handle_of(p, PANE, pane.terminal_id@);
            &&& terminals.len() == flat.len()
            &&& flat[i].pane_id == id
            &&& terminal.id == text::decimal(id as nat)
            &&& flat[i].window_id == handle_of(p, WORKSPACE, p.workspaces[w].workspace_id@)
            &&& terminal.workspace_id == text::decimal(flat[i].window_id as nat)
            &&& terminal.group_id == text::decimal(
                handle_of(p, GROUP, tab(p, w, placed.at_group as int).tab_id@) as nat,
            )
            &&& flat[i].terminal_id == s.natives[id]
            &&& terminal.terminal_id == "native:"@ + text::decimal(flat[i].terminal_id as nat)
            &&& flat[i].window_name@ == p.workspaces[w].name@
            &&& flat[i].active == pane.focused
            &&& terminal.active == pane.focused
            &&& (flat[i].columns, flat[i].rows) == viewport
            &&& pane.name is Some && pane.name->0@.len() > 0 ==> flat[i].pane_name@
                == pane.name->0@ && terminal.name == pane.name->0@ && flat[i].title@
                == pane.name->0@
            &&& terminal.agent is Some <==> pane.agent_name is Some
            &&& pane.agent_name is Some ==> terminal.agent->0.name == pane.agent_name->0@
            &&& terminal.selected <==> selected == Some(id)
        }),
{
    let s = project::scene(before, p, mapping, fresh);
    law_every_pane_is_shown_in_its_place(before, p, mapping, fresh);
    let views = snapshot::pane_views(flat);
    assert(views.len() == flat.len());
    assert(views[i] == flat[i]@);
    let placed = s.panes[i];
    assert(stands_at(
        p,
        placed,
        placed.at_workspace as int,
        placed.at_group as int,
        placed.at_pane as int,
    ));
    let terminals = workspace::terminal_views(shown.snapshot.terminals@);
    assert(terminals[i].id == text::decimal(placed.pane as nat));
    metadata::law_handles_read_back(placed.pane);
    if selected is Some {
        metadata::law_handles_read_back(selected->0);
    }
}

/// A tab is shown under its own handle, in its workspace, by its name.
pub proof fn law_a_tab_is_shown_as_it_is(
    before: Metadata,
    p: PlacementView,
    mapping: Map<u64, u64>,
    fresh: Seq<u64>,
    shown: Metadata,
    runtime: Seq<char>,
    selected: Option<u64>,
    w: int,
    t: int,
)
    requires
        fully_placed(p),
        project::shows_scene(shown, project::scene(before, p, mapping, fresh), runtime, selected),
        is_tab(p, w, t),
    ensures
        ({
            let groups = workspace::group_views(shown.snapshot.groups@);
            exists|i: int|
                0 <= i < groups.len() && (#[trigger] groups[i]).id == text::decimal(
                    handle_of(p, GROUP, tab(p, w, t).tab_id@) as nat,
                ) && groups[i].workspace_id == text::decimal(
                    handle_of(p, WORKSPACE, p.workspaces[w].workspace_id@) as nat,
                ) && groups[i].name == tab(p, w, t).name@
        }),
        ({
            let rows = workspace::workspace_views(shown.snapshot.workspaces@);
            &&& rows.len() == p.workspaces.len()
            &&& rows[w].name == p.workspaces[w].name@
            &&& rows[w].id == text::decimal(
                handle_of(p, WORKSPACE, p.workspaces[w].workspace_id@) as nat,
            )
        }),
{
    let s = project::scene(before, p, mapping, fresh);
    let table = handles::table(p.ids);
    assert(has_handle(p, WORKSPACE, p.workspaces[w].workspace_id@));
    assert(has_handle(p, GROUP, p.workspaces[w].groups@[t].tab_id@));
    let i = lemma_tab_placed(table, p.workspaces, p.workspaces.len() as int, w, t);
    lemma_place_fits(p.workspaces, w, t);
    let groups = workspace::group_views(shown.snapshot.groups@);
    assert(groups[i].id == text::decimal(s.groups[i].group as nat));
    assert(s.handles[w] == handle_of(p, WORKSPACE, p.workspaces[w].workspace_id@));
}

/// The tab that the user looked at stays the active one as long as it is shown,
/// unless a pane of another tab is selected.
pub proof fn law_the_active_tab_stays(
    before: Metadata,
    p: PlacementView,
    mapping: Map<u64, u64>,
    fresh: Seq<u64>,
    shown: Metadata,
    runtime: Seq<char>,
    selected: Option<u64>,
    w: int,
    t: int,
)
    requires
        fully_placed(p),
        project::shows_scene(shown, project::scene(before, p, mapping, fresh), runtime, selected),
        is_tab(p, w, t),
        before.active_group == Some(handle_of(p, GROUP, tab(p, w, t).tab_id@)),
        selected is Some && shown.panes@.contains_key(selected->0)
            ==> shown.panes@[selected->0].group == before.active_group->0,
    ensures
        shown.active_group == before.active_group,
{
    let s = project::scene(before, p, mapping, fresh);
    assert(has_handle(p, GROUP, p.workspaces[w].groups@[t].tab_id@));
    let i = lemma_tab_placed(
        handles::table(p.ids),
        p.workspaces,
        p.workspaces.len() as int,
        w,
        t,
    );
    assert(s.groups[i].group == before.active_group->0);
}

/// A pane that was selected stays selected as long as it exists: neither the
/// desktop's focus nor a group takes the selection from it.
pub proof fn law_the_selected_pane_stays(
    panes: Map<u64, RemotePane>,
    flat: Seq<PaneSnapshot>,
    selected: u64,
    place: Option<metadata::Place>,
    preferred: Option<u64>,
    group: Option<u64>,
)
    requires
        panes.contains_key(selected),
    ensures
        metadata::chosen_pane(panes, flat, Some(selected), place, preferred, group) == Some(
            selected,
        ),
{
}

/// What steps in for a lost pane is in the selected group, where there is one;
/// a pane of the lost one's own group comes before the desktop's focus.
pub proof fn law_a_lost_pane_is_replaced_in_its_group(
    panes: Map<u64, RemotePane>,
    flat: Seq<PaneSnapshot>,
    lost: Option<u64>,
    place: Option<metadata::Place>,
    preferred: Option<u64>,
    group: Option<u64>,
)
    requires
        lost is None || !panes.contains_key(lost->0),
        forall|i: int| 0 <= i < flat.len() ==> panes.contains_key((#[trigger] flat[i]).pane_id),
    ensures
        metadata::chosen_pane(panes, flat, lost, place, preferred, group) matches Some(pane) ==> (
        group is Some ==> panes.contains_key(pane) && panes[pane].group == group->0),
        group is Some && (exists|i: int|
            0 <= i < flat.len() && panes[(#[trigger] flat[i]).pane_id].group == group->0)
            ==> metadata::chosen_pane(panes, flat, lost, place, preferred, group) is Some,
        place is Some && (group is None || group->0 == place->0.group) && (exists|i: int|
            0 <= i < flat.len() && panes[(#[trigger] flat[i]).pane_id].group == place->0.group)
            ==> {
            let chosen = metadata::chosen_pane(panes, flat, lost, place, preferred, group);
            chosen is Some && panes[chosen->0].group == place->0.group
        },
        group is None && flat.len() > 0 ==> metadata::chosen_pane(
            panes,
            flat,
            lost,
            place,
            preferred,
            group,
        ) is Some,
{
    if group is Some {
        lemma_first_in_group(flat, panes, group->0);
    }
    if place is Some {
        lemma_first_in_group(flat, panes, place->0.group);
    }
}

proof fn lemma_first_in_group(flat: Seq<PaneSnapshot>, panes: Map<u64, RemotePane>, group: u64)
    requires
        forall|i: int| 0 <= i < flat.len() ==> panes.contains_key((#[trigger] flat[i]).pane_id),
    ensures
        metadata::first_in_group(flat, panes, group) matches Some(pane) ==> panes.contains_key(pane)
            && panes[pane].group == group,
        (exists|i: int|
            0 <= i < flat.len() && panes[(#[trigger] flat[i]).pane_id].group == group)
            ==> metadata::first_in_group(flat, panes, group) is Some,
    decreases flat.len(),
{
    if flat.len() > 0 {
        let rest = flat.drop_first();
        assert forall|i: int| 0 <= i < rest.len() implies panes.contains_key(
            (#[trigger] rest[i]).pane_id,
        ) by {
            assert(rest[i] == flat[i + 1]);
        }
        lemma_first_in_group(rest, panes, group);
        assert(panes.contains_key(flat[0].pane_id));
        if exists|i: int|
            0 <= i < flat.len() && panes[(#[trigger] flat[i]).pane_id].group == group {
            let i = choose|i: int|
                0 <= i < flat.len() && panes[(#[trigger] flat[i]).pane_id].group == group;
            if i > 0 {
                assert(rest[i - 1] == flat[i]);
            }
        }
    }
}

/// Closing a pane or a tab of a main worktree may close others: a workspace is
/// held for such a parent exactly where it is no linked worktree and another
/// workspace has the same repository.
pub proof fn law_a_parent_shares_its_repository(workspaces: Seq<HerdrWorkspace>, w: int)
    requires
        0 <= w < workspaces.len(),
    ensures
        project::is_parent(workspaces, workspaces[w]) <==> workspaces[w].worktree is Some
            && !workspaces[w].worktree->0.is_linked_worktree && exists|v: int|
            0 <= v < workspaces.len() && v != w && (#[trigger] workspaces[v]).worktree is Some
                && workspaces[v].worktree->0.repo_key@ == workspaces[w].worktree->0.repo_key@,
{
    if workspaces[w].worktree is Some {
        lemma_members(workspaces, workspaces[w].worktree->0.repo_key@, w);
    }
}

proof fn lemma_members(workspaces: Seq<HerdrWorkspace>, repo: Seq<char>, w: int)
    requires
        0 <= w < workspaces.len(),
        workspaces[w].worktree is Some,
        workspaces[w].worktree->0.repo_key@ == repo,
    ensures
        project::members(workspaces, repo) >= 1,
        project::members(workspaces, repo) > 1 <==> exists|v: int|
            0 <= v < workspaces.len() && v != w && (#[trigger] workspaces[v]).worktree is Some
                && workspaces[v].worktree->0.repo_key@ == repo,
    decreases workspaces.len(),
{
    let front = workspaces.drop_last();
    let last = workspaces.len() - 1;
    if w < last {
        assert(front[w] == workspaces[w]);
        lemma_members(front, repo, w);
        if exists|v: int|
            0 <= v < front.len() && v != w && (#[trigger] front[v]).worktree is Some
                && front[v].worktree->0.repo_key@ == repo {
            let v = choose|v: int|
                0 <= v < front.len() && v != w && (#[trigger] front[v]).worktree is Some
                    && front[v].worktree->0.repo_key@ == repo;
            assert(workspaces[v] == front[v]);
        }
        if exists|v: int|
            0 <= v < workspaces.len() && v != w && (#[trigger] workspaces[v]).worktree is Some
                && workspaces[v].worktree->0.repo_key@ == repo {
            let v = choose|v: int|
                0 <= v < workspaces.len() && v != w && (#[trigger] workspaces[v]).worktree is Some
                    && workspaces[v].worktree->0.repo_key@ == repo;
            if v < last {
                assert(front[v] == workspaces[v]);
            }
        } else {
            assert(!(workspaces[last].worktree is Some
                && workspaces[last].worktree->0.repo_key@ == repo));
        }
        if workspaces[last].worktree is Some && workspaces[last].worktree->0.repo_key@ == repo {
            assert(project::members(workspaces, repo) > 1);
        }
    } else {
        lemma_members_any(front, repo);
        if project::members(front, repo) > 0 {
            let v = choose|v: int|
                0 <= v < front.len() && (#[trigger] front[v]).worktree is Some
                    && front[v].worktree->0.repo_key@ == repo;
            assert(workspaces[v] == front[v]);
        } else {
            assert forall|v: int|
                0 <= v < workspaces.len() && v != w && (#[trigger] workspaces[v]).worktree
                    is Some implies workspaces[v].worktree->0.repo_key@ != repo by {
                assert(front[v] == workspaces[v]);
            }
        }
    }
}

proof fn lemma_members_any(workspaces: Seq<HerdrWorkspace>, repo: Seq<char>)
    ensures
        project::members(workspaces, repo) > 0 <==> exists|v: int|
            0 <= v < workspaces.len() && (#[trigger] workspaces[v]).worktree is Some
                && workspaces[v].worktree->0.repo_key@ == repo,
    decreases workspaces.len(),
{
    if workspaces.len() > 0 {
        let front = workspaces.drop_last();
        let last = workspaces.len() - 1;
        lemma_members_any(front, repo);
        if project::members(front, repo) > 0 {
            let v = choose|v: int|
                0 <= v < front.len() && (#[trigger] front[v]).worktree is Some
                    && front[v].worktree->0.repo_key@ == repo;
            assert(workspaces[v] == front[v]);
        }
        if exists|v: int|
            0 <= v < workspaces.len() && (#[trigger] workspaces[v]).worktree is Some
                && workspaces[v].worktree->0.repo_key@ == repo {
            let v = choose|v: int|
                0 <= v < workspaces.len() && (#[trigger] workspaces[v]).worktree is Some
                    && workspaces[v].worktree->0.repo_key@ == repo;
            if v < last {
                assert(front[v] == workspaces[v]);
            }
        }
        if workspaces[last].worktree is Some && workspaces[last].worktree->0.repo_key@ == repo {
            assert(project::members(workspaces, repo) > 0);
        }
    }
}

} // verus!
