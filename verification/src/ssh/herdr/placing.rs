//! Where each tab and pane of a Herdr snapshot stands, under which handles.

use vstd::prelude::*;

use crate::ssh::herdr::handles;
use crate::ssh::herdr::handles::{find_handle, KeyView};
use crate::ssh::herdr::metadata::{IdEntry, GROUP, PANE, WORKSPACE};
use crate::ssh::herdr::wire::{HerdrGroup, HerdrPane, HerdrWorkspace};

verus! {

/// A tab by its place in a snapshot, with the handles of it and its
/// workspace.
#[derive(Clone, Copy, Debug, PartialEq, Eq, Structural)]
pub struct PlacedGroup {
    pub at_workspace: usize,
    pub at_group: usize,
    pub workspace: u64,
    pub group: u64,
}

/// A pane by its place in a snapshot, with its handles.
#[derive(Clone, Copy, Debug, PartialEq, Eq, Structural)]
pub struct PlacedPane {
    pub at_workspace: usize,
    pub at_group: usize,
    pub at_pane: usize,
    pub workspace: u64,
    pub group: u64,
    pub pane: u64,
}

/// The handle of a key; 0 stands for a stranger.
pub open spec fn handle_for(handles: Map<KeyView, u64>, kind: u8, remote: Seq<char>) -> u64 {
    if handles.contains_key(KeyView { kind, remote }) {
        handles[KeyView { kind, remote }]
    } else {
        0
    }
}

pub open spec fn workspace_handle(handles: Map<KeyView, u64>, workspace: HerdrWorkspace) -> u64 {
    handle_for(handles, WORKSPACE, workspace.workspace_id@)
}

pub open spec fn group_handle(handles: Map<KeyView, u64>, group: HerdrGroup) -> u64 {
    handle_for(handles, GROUP, group.tab_id@)
}

pub open spec fn pane_handle(handles: Map<KeyView, u64>, pane: HerdrPane) -> u64 {
    handle_for(handles, PANE, pane.terminal_id@)
}

/// The panes of one tab.
pub open spec fn panes_of_group(
    handles: Map<KeyView, u64>,
    workspaces: Seq<HerdrWorkspace>,
    w: int,
    g: int,
) -> Seq<PlacedPane> {
    let group = workspaces[w].groups@[g];
    Seq::new(
        group.panes@.len(),
        |p: int|
            PlacedPane {
                at_workspace: w as usize,
                at_group: g as usize,
                at_pane: p as usize,
                workspace: workspace_handle(handles, workspaces[w]),
                group: group_handle(handles, group),
                pane: pane_handle(handles, group.panes@[p]),
            },
    )
}

/// The panes of the first `g` tabs of a workspace.
pub open spec fn panes_of_groups(
    handles: Map<KeyView, u64>,
    workspaces: Seq<HerdrWorkspace>,
    w: int,
    g: int,
) -> Seq<PlacedPane>
    decreases g,
{
    if g <= 0 {
        seq![]
    } else {
        panes_of_groups(handles, workspaces, w, g - 1) + panes_of_group(
            handles,
            workspaces,
            w,
            g - 1,
        )
    }
}

/// The panes of the first `w` workspaces.
pub open spec fn panes_upto(
    handles: Map<KeyView, u64>,
    workspaces: Seq<HerdrWorkspace>,
    w: int,
) -> Seq<PlacedPane>
    decreases w,
{
    if w <= 0 {
        seq![]
    } else {
        panes_upto(handles, workspaces, w - 1) + panes_of_groups(
            handles,
            workspaces,
            w - 1,
            workspaces[w - 1].groups@.len() as int,
        )
    }
}

/// All panes of a snapshot, in its order.
pub open spec fn placed_panes(
    handles: Map<KeyView, u64>,
    workspaces: Seq<HerdrWorkspace>,
) -> Seq<PlacedPane> {
    panes_upto(handles, workspaces, workspaces.len() as int)
}

/// The tabs of one workspace.
pub open spec fn groups_of_workspace(
    handles: Map<KeyView, u64>,
    workspaces: Seq<HerdrWorkspace>,
    w: int,
) -> Seq<PlacedGroup> {
    Seq::new(
        workspaces[w].groups@.len(),
        |g: int|
            PlacedGroup {
                at_workspace: w as usize,
                at_group: g as usize,
                workspace: workspace_handle(handles, workspaces[w]),
                group: group_handle(handles, workspaces[w].groups@[g]),
            },
    )
}

/// The tabs of the first `w` workspaces.
pub open spec fn groups_upto(
    handles: Map<KeyView, u64>,
    workspaces: Seq<HerdrWorkspace>,
    w: int,
) -> Seq<PlacedGroup>
    decreases w,
{
    if w <= 0 {
        seq![]
    } else {
        groups_upto(handles, workspaces, w - 1) + groups_of_workspace(handles, workspaces, w - 1)
    }
}

/// All tabs of a snapshot, in its order.
pub open spec fn placed_groups(
    handles: Map<KeyView, u64>,
    workspaces: Seq<HerdrWorkspace>,
) -> Seq<PlacedGroup> {
    groups_upto(handles, workspaces, workspaces.len() as int)
}

/// The place is one of the snapshot.
pub open spec fn pane_in(workspaces: Seq<HerdrWorkspace>, p: PlacedPane) -> bool {
    &&& p.at_workspace < workspaces.len()
    &&& p.at_group < workspaces[p.at_workspace as int].groups@.len()
    &&& p.at_pane < workspaces[p.at_workspace as int].groups@[p.at_group as int].panes@.len()
}

pub open spec fn group_in(workspaces: Seq<HerdrWorkspace>, g: PlacedGroup) -> bool {
    &&& g.at_workspace < workspaces.len()
    &&& g.at_group < workspaces[g.at_workspace as int].groups@.len()
}

/// The pane at a place.
pub open spec fn pane_at(workspaces: Seq<HerdrWorkspace>, p: PlacedPane) -> HerdrPane {
    workspaces[p.at_workspace as int].groups@[p.at_group as int].panes@[p.at_pane as int]
}

/// The tab at a place.
pub open spec fn group_at_place(workspaces: Seq<HerdrWorkspace>, g: PlacedGroup) -> HerdrGroup {
    workspaces[g.at_workspace as int].groups@[g.at_group as int]
}

fn resolve(ids: &Vec<IdEntry>, kind: u8, remote: &str) -> (r: u64)
    ensures
        r == handle_for(handles::table(ids@), kind, remote@),
{
    match find_handle(ids, kind, remote) {
        Some(handle) => handle,
        None => 0,
    }
}

/// The handles of the workspaces, in their order.
pub fn place_workspaces(ids: &Vec<IdEntry>, workspaces: &Vec<HerdrWorkspace>) -> (r: Vec<u64>)
    ensures
        r@ == Seq::new(
            workspaces@.len(),
            |w: int| workspace_handle(handles::table(ids@), workspaces@[w]),
        ),
{
    let mut out: Vec<u64> = Vec::new();
    let mut w: usize = 0;
    while w < workspaces.len()
        invariant
            w <= workspaces@.len(),
            out@.len() == w,
            forall|i: int|
                0 <= i < w ==> #[trigger] out@[i] == workspace_handle(handles::table(ids@), workspaces@[i]),
        decreases workspaces@.len() - w,
    {
        out.push(resolve(ids, WORKSPACE, workspaces[w].workspace_id.as_str()));
        w = w + 1;
    }
    out
}

/// Places every tab of a snapshot.
pub fn place_groups(ids: &Vec<IdEntry>, workspaces: &Vec<HerdrWorkspace>) -> (r: Vec<PlacedGroup>)
    ensures
        r@ == placed_groups(handles::table(ids@), workspaces@),
        forall|i: int| 0 <= i < r@.len() ==> group_in(workspaces@, #[trigger] r@[i]),
{
    let ghost handles = handles::table(ids@);
    let mut out: Vec<PlacedGroup> = Vec::new();
    let mut w: usize = 0;
    while w < workspaces.len()
        invariant
            w <= workspaces@.len(),
            handles == handles::table(ids@),
            out@ == groups_upto(handles, workspaces@, w as int),
            forall|i: int| 0 <= i < out@.len() ==> group_in(workspaces@, #[trigger] out@[i]),
        decreases workspaces@.len() - w,
    {
        let workspace: u64 = resolve(ids, WORKSPACE, workspaces[w].workspace_id.as_str());
        let ghost before = out@;
        let ghost own = groups_of_workspace(handles, workspaces@, w as int);
        let mut g: usize = 0;
        assert(own.take(0) == Seq::<PlacedGroup>::empty());
        while g < workspaces[w].groups.len()
            invariant
                w < workspaces@.len(),
                g <= workspaces@[w as int].groups@.len(),
                handles == handles::table(ids@),
                workspace == workspace_handle(handles, workspaces@[w as int]),
                own == groups_of_workspace(handles, workspaces@, w as int),
                out@ == before + own.take(g as int),
                forall|i: int| 0 <= i < out@.len() ==> group_in(workspaces@, #[trigger] out@[i]),
            decreases workspaces@[w as int].groups@.len() - g,
        {
            let group: u64 = resolve(ids, GROUP, workspaces[w].groups[g].tab_id.as_str());
            out.push(PlacedGroup { at_workspace: w, at_group: g, workspace, group });
            assert(own.take(g + 1) == own.take(g as int).push(own[g as int]));
            g = g + 1;
        }
        assert(own.take(g as int) == own);
        w = w + 1;
    }
    out
}

/// Places every pane of a snapshot.
pub fn place_panes(ids: &Vec<IdEntry>, workspaces: &Vec<HerdrWorkspace>) -> (r: Vec<PlacedPane>)
    ensures
        r@ == placed_panes(handles::table(ids@), workspaces@),
        forall|i: int| 0 <= i < r@.len() ==> pane_in(workspaces@, #[trigger] r@[i]),
{
    let ghost handles = handles::table(ids@);
    let mut out: Vec<PlacedPane> = Vec::new();
    let mut w: usize = 0;
    while w < workspaces.len()
        invariant
            w <= workspaces@.len(),
            handles == handles::table(ids@),
            out@ == panes_upto(handles, workspaces@, w as int),
            forall|i: int| 0 <= i < out@.len() ==> pane_in(workspaces@, #[trigger] out@[i]),
        decreases workspaces@.len() - w,
    {
        let workspace: u64 = resolve(ids, WORKSPACE, workspaces[w].workspace_id.as_str());
        let ghost before = out@;
        let mut g: usize = 0;
        while g < workspaces[w].groups.len()
            invariant
                w < workspaces@.len(),
                g <= workspaces@[w as int].groups@.len(),
                handles == handles::table(ids@),
                workspace == workspace_handle(handles, workspaces@[w as int]),
                out@ == before + panes_of_groups(handles, workspaces@, w as int, g as int),
                forall|i: int| 0 <= i < out@.len() ==> pane_in(workspaces@, #[trigger] out@[i]),
            decreases workspaces@[w as int].groups@.len() - g,
        {
            let group: u64 = resolve(ids, GROUP, workspaces[w].groups[g].tab_id.as_str());
            let ghost front = out@;
            let ghost own = panes_of_group(handles, workspaces@, w as int, g as int);
            let panes = &workspaces[w].groups[g].panes;
            let mut p: usize = 0;
            assert(own.take(0) == Seq::<PlacedPane>::empty());
            while p < panes.len()
                invariant
                    w < workspaces@.len(),
                    g < workspaces@[w as int].groups@.len(),
                    panes@ == workspaces@[w as int].groups@[g as int].panes@,
                    p <= panes@.len(),
                    handles == handles::table(ids@),
                    workspace == workspace_handle(handles, workspaces@[w as int]),
                    group == group_handle(handles, workspaces@[w as int].groups@[g as int]),
                    own == panes_of_group(handles, workspaces@, w as int, g as int),
                    out@ == front + own.take(p as int),
                    forall|i: int| 0 <= i < out@.len() ==> pane_in(workspaces@, #[trigger] out@[i]),
                decreases panes@.len() - p,
            {
                let pane: u64 = resolve(ids, PANE, panes[p].terminal_id.as_str());
                out.push(
                    PlacedPane {
                        at_workspace: w,
                        at_group: g,
                        at_pane: p,
                        workspace,
                        group,
                        pane,
                    },
                );
                assert(own.take(p + 1) == own.take(p as int).push(own[p as int]));
                p = p + 1;
            }
            assert(own.take(p as int) == own);
            g = g + 1;
        }
        w = w + 1;
    }
    out
}

proof fn lemma_group_key(groups: Seq<HerdrGroup>, g: int)
    requires
        0 <= g < groups.len(),
    ensures
        handles::group_keys(groups).contains(KeyView { kind: GROUP, remote: groups[g].tab_id@ }),
        forall|p: int|
            0 <= p < groups[g].panes@.len() ==> handles::group_keys(groups).contains(
                KeyView { kind: PANE, remote: (#[trigger] groups[g].panes@[p]).terminal_id@ },
            ),
    decreases groups.len(),
{
    let front = handles::group_keys(groups.drop_last());
    let head = seq![KeyView { kind: GROUP, remote: groups.last().tab_id@ }];
    let tail = handles::pane_keys(groups.last().panes@);
    let all = front + head + tail;
    if g == groups.len() - 1 {
        assert(all[front.len() as int] == head[0]);
        assert forall|p: int| 0 <= p < groups[g].panes@.len() implies all.contains(
            KeyView { kind: PANE, remote: (#[trigger] groups[g].panes@[p]).terminal_id@ },
        ) by {
            assert(all[front.len() + 1 + p] == tail[p]);
        }
    } else {
        lemma_group_key(groups.drop_last(), g);
        assert(groups.drop_last()[g] == groups[g]);
        lemma_front_of(front, head, tail);
    }
}

proof fn lemma_front_of(a: Seq<KeyView>, b: Seq<KeyView>, c: Seq<KeyView>)
    ensures
        forall|k: KeyView| #[trigger] a.contains(k) ==> (a + b + c).contains(k),
        forall|k: KeyView| #[trigger] c.contains(k) ==> (a + b + c).contains(k),
{
    assert forall|k: KeyView| #[trigger] a.contains(k) implies (a + b + c).contains(k) by {
        let i = choose|i: int| 0 <= i < a.len() && a[i] == k;
        assert((a + b + c)[i] == k);
    }
    assert forall|k: KeyView| #[trigger] c.contains(k) implies (a + b + c).contains(k) by {
        let i = choose|i: int| 0 <= i < c.len() && c[i] == k;
        assert((a + b + c)[a.len() + b.len() + i] == k);
    }
}

/// Everything that a snapshot shows is among its keys.
pub proof fn lemma_shown_is_keyed(workspaces: Seq<HerdrWorkspace>, w: int)
    requires
        0 <= w < workspaces.len(),
    ensures
        handles::snapshot_keys(workspaces).contains(
            KeyView { kind: WORKSPACE, remote: workspaces[w].workspace_id@ },
        ),
        forall|k: KeyView|
            #[trigger] handles::group_keys(workspaces[w].groups@).contains(k) ==> handles::snapshot_keys(
                workspaces,
            ).contains(k),
    decreases workspaces.len(),
{
    let front = handles::snapshot_keys(workspaces.drop_last());
    let head = seq![KeyView { kind: WORKSPACE, remote: workspaces.last().workspace_id@ }];
    let tail = handles::group_keys(workspaces.last().groups@);
    lemma_front_of(front, head, tail);
    if w == workspaces.len() - 1 {
        assert((front + head + tail)[front.len() as int] == head[0]);
    } else {
        lemma_shown_is_keyed(workspaces.drop_last(), w);
        assert(workspaces.drop_last()[w] == workspaces[w]);
    }
}

/// Once handles were assigned for a snapshot, each of its workspaces, tabs and
/// panes has one: no stranger is left.
pub proof fn law_everything_shown_has_a_handle(
    known: Map<KeyView, u64>,
    workspaces: Seq<HerdrWorkspace>,
    fresh: Seq<u64>,
    w: int,
    g: int,
    p: int,
)
    requires
        0 <= w < workspaces.len(),
        0 <= g < workspaces[w].groups@.len(),
        0 <= p < workspaces[w].groups@[g].panes@.len(),
    ensures
        ({
            let handles = crate::ssh::herdr::handles::assigned(
                known,
                handles::snapshot_keys(workspaces),
                fresh,
            ).0;
            let group = workspaces[w].groups@[g];
            &&& handles.contains_key(
                KeyView { kind: WORKSPACE, remote: workspaces[w].workspace_id@ },
            )
            &&& handles.contains_key(KeyView { kind: GROUP, remote: group.tab_id@ })
            &&& handles.contains_key(KeyView { kind: PANE, remote: group.panes@[p].terminal_id@ })
        }),
{
    handles::law_assigned(known, handles::snapshot_keys(workspaces), fresh);
    lemma_shown_is_keyed(workspaces, w);
    lemma_group_key(workspaces[w].groups@, g);
    assert(handles::group_keys(workspaces[w].groups@).contains(
        KeyView { kind: PANE, remote: workspaces[w].groups@[g].panes@[p].terminal_id@ },
    ));
}

/// A terminal that is known keeps its handle, wherever its pane has moved and
/// whatever its alias is now.
pub proof fn law_a_moved_terminal_keeps_its_handle(
    known: Map<KeyView, u64>,
    workspaces: Seq<HerdrWorkspace>,
    fresh: Seq<u64>,
    pane: HerdrPane,
)
    requires
        known.contains_key(KeyView { kind: PANE, remote: pane.terminal_id@ }),
    ensures
        pane_handle(handles::assigned(known, handles::snapshot_keys(workspaces), fresh).0, pane)
            == known[KeyView { kind: PANE, remote: pane.terminal_id@ }],
{
    handles::law_assigned(known, handles::snapshot_keys(workspaces), fresh);
}

} // verus!
