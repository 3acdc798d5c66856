//! Projecting a Herdr snapshot onto the common model.

use std::collections::{HashMap, HashSet};
use vstd::prelude::*;

use crate::workspace;
use crate::tmux::snapshot;
use crate::ssh::sync::retire_panes;
use crate::text;
use crate::ssh::herdr::wire;
use crate::ssh::herdr::placing;
use crate::ssh::herdr::metadata;
use crate::ssh::herdr::handles;
use crate::maps::keys_of;
use crate::ssh::herdr::handles::{
    assign_handles, assign_values, find_handle, handles_needed, live_keys, retain_live,
    values_needed, KeyView, RemoteKey,
};
use crate::ssh::herdr::metadata::{
    choose_selected_group, choose_selected_pane, handle_text, parse_handle, IdEntry, Metadata,
    Place, RemotePane, GROUP, WORKSPACE,
};
use crate::ssh::herdr::placing::{
    place_groups, place_panes, place_workspaces, PlacedGroup, PlacedPane,
};
use crate::ssh::herdr::wire::{HerdrPane, HerdrSessionSnapshot, HerdrWorkspace};
use crate::text::same_text;
use crate::tmux::snapshot::{PaneSnapshot, PaneSnapshotView, WindowSnapshot, WindowSnapshotView};
use crate::workspace::{
    numbered, Agent, AgentView, Backend, RuntimeControlSnapshot, RuntimeSnapshot, Terminal,
    TerminalGroup, TerminalGroupView, TerminalView, Workspace, WorkspaceView,
};

verus! {

broadcast use vstd::std_specs::hash::group_hash_axioms;

/// A snapshot as it is to be shown.
pub struct SnapshotProjection {
    pub metadata: Metadata,
    pub mapping: HashMap<u64, u64>,
    pub selected: Option<u64>,
    pub flat: Vec<PaneSnapshot>,
    pub windows: Vec<WindowSnapshot>,
    /// Native terminals whose panes are gone.
    pub stale: Vec<u64>,
}

/// The name of a pane; one without a name is numbered within its tab.
pub open spec fn shown_name(pane: HerdrPane, index: int) -> Seq<char> {
    match pane.name {
        Some(name) => if name@.len() > 0 {
            name@
        } else {
            "Terminal "@ + text::decimal((index + 1) as nat)
        },
        None => "Terminal "@ + text::decimal((index + 1) as nat),
    }
}

pub open spec fn shown_agent(pane: HerdrPane) -> Option<AgentView> {
    match pane.agent_name {
        Some(name) => Some(AgentView { name: name@, status: wire::common(pane.agent_status) }),
        None => None,
    }
}

pub open spec fn shown_workspace(workspace: HerdrWorkspace, handle: u64) -> WorkspaceView {
    WorkspaceView {
        id: text::decimal(handle as nat),
        name: workspace.name@,
        agent_status: Some(wire::common(workspace.agent_status)),
    }
}

/// A tab, before it is known whether it is selected.
pub open spec fn shown_group(
    workspaces: Seq<HerdrWorkspace>,
    g: PlacedGroup,
) -> TerminalGroupView {
    TerminalGroupView {
        id: text::decimal(g.group as nat),
        workspace_id: text::decimal(g.workspace as nat),
        name: placing::group_at_place(workspaces, g).name@,
        selected: false,
        agent_status: Some(wire::common(placing::group_at_place(workspaces, g).agent_status)),
    }
}

/// A pane as a terminal, before it is known whether it is selected.
pub open spec fn shown_terminal(
    workspaces: Seq<HerdrWorkspace>,
    natives: Map<u64, u64>,
    p: PlacedPane,
) -> TerminalView {
    let pane = placing::pane_at(workspaces, p);
    TerminalView {
        id: text::decimal(p.pane as nat),
        workspace_id: text::decimal(p.workspace as nat),
        group_id: text::decimal(p.group as nat),
        terminal_id: "native:"@ + text::decimal(natives[p.pane] as nat),
        name: shown_name(pane, p.at_pane as int),
        active: pane.focused,
        selected: false,
        agent: shown_agent(pane),
    }
}

/// A pane of the flat topology, before it is known whether it is selected.
pub open spec fn shown_flat(
    workspaces: Seq<HerdrWorkspace>,
    natives: Map<u64, u64>,
    viewport: (u16, u16),
    p: PlacedPane,
) -> PaneSnapshotView {
    let pane = placing::pane_at(workspaces, p);
    PaneSnapshotView {
        window_id: p.workspace,
        pane_id: p.pane,
        terminal_id: natives[p.pane],
        window_name: workspaces[p.at_workspace as int].name@,
        active: pane.focused,
        selected: false,
        index: p.at_pane as u32,
        columns: viewport.0,
        rows: viewport.1,
        pane_name: shown_name(pane, p.at_pane as int),
        title: shown_name(pane, p.at_pane as int),
    }
}

/// A workspace as a window, before its panes are known.
pub open spec fn shown_window(workspace: HerdrWorkspace, handle: u64) -> WindowSnapshotView {
    WindowSnapshotView {
        window_id: handle,
        name: workspace.name@,
        panes: seq![],
        selected: false,
        zoomed: false,
    }
}

/// The handles of the workspaces.
pub open spec fn workspace_handles(
    handles: Map<KeyView, u64>,
    workspaces: Seq<HerdrWorkspace>,
) -> Seq<u64> {
    Seq::new(workspaces.len(), |w: int| placing::workspace_handle(handles, workspaces[w]))
}

pub open spec fn pane_handles(panes: Seq<PlacedPane>) -> Seq<u64> {
    Seq::new(panes.len(), |i: int| panes[i].pane)
}

/// The remote workspace behind each handle.
pub open spec fn workspace_map(workspaces: Seq<HerdrWorkspace>, handles: Seq<u64>) -> Map<
    u64,
    String,
>
    decreases workspaces.len(),
{
    if workspaces.len() == 0 || handles.len() == 0 {
        Map::empty()
    } else {
        workspace_map(workspaces.drop_last(), handles.drop_last()).insert(
            handles.last(),
            workspaces.last().workspace_id,
        )
    }
}

/// The remote tab behind each handle.
pub open spec fn group_map(workspaces: Seq<HerdrWorkspace>, groups: Seq<PlacedGroup>) -> Map<
    u64,
    String,
>
    decreases groups.len(),
{
    if groups.len() == 0 {
        Map::empty()
    } else {
        group_map(workspaces, groups.drop_last()).insert(
            groups.last().group,
            placing::group_at_place(workspaces, groups.last()).tab_id,
        )
    }
}

/// The remote pane behind each handle.
pub open spec fn pane_map(workspaces: Seq<HerdrWorkspace>, panes: Seq<PlacedPane>) -> Map<
    u64,
    RemotePane,
>
    decreases panes.len(),
{
    if panes.len() == 0 {
        Map::empty()
    } else {
        pane_map(workspaces, panes.drop_last()).insert(
            panes.last().pane,
            RemotePane {
                pane_id: placing::pane_at(workspaces, panes.last()).pane_id,
                terminal_id: placing::pane_at(workspaces, panes.last()).terminal_id,
                workspace: panes.last().workspace,
                group: panes.last().group,
            },
        )
    }
}

/// The number of workspaces that share a repository.
pub open spec fn members(workspaces: Seq<HerdrWorkspace>, repo: Seq<char>) -> nat
    decreases workspaces.len(),
{
    if workspaces.len() == 0 {
        0
    } else {
        members(workspaces.drop_last(), repo) + (match workspaces.last().worktree {
            Some(worktree) => if worktree.repo_key@ == repo {
                1nat
            } else {
                0nat
            },
            None => 0nat,
        })
    }
}

/// The workspace is the main worktree of a repository that others share.
pub open spec fn is_parent(workspaces: Seq<HerdrWorkspace>, workspace: HerdrWorkspace) -> bool {
    match workspace.worktree {
        Some(worktree) => !worktree.is_linked_worktree && members(workspaces, worktree.repo_key@)
            > 1,
        None => false,
    }
}

/// The handles of the workspaces whose closing may close others.
pub open spec fn parents(workspaces: Seq<HerdrWorkspace>, handles: Seq<u64>, handle: u64) -> bool {
    exists|w: int|
        0 <= w < workspaces.len() && #[trigger] handles[w] == handle && is_parent(
            workspaces,
            workspaces[w],
        )
}

/// The last pane with the focused alias.
pub open spec fn focused_pane(
    workspaces: Seq<HerdrWorkspace>,
    panes: Seq<PlacedPane>,
    focused: Option<String>,
) -> Option<u64>
    decreases panes.len(),
{
    if focused is None || panes.len() == 0 {
        None
    } else if placing::pane_at(workspaces, panes.last()).pane_id@ == focused->0@ {
        Some(panes.last().pane)
    } else {
        focused_pane(workspaces, panes.drop_last(), focused)
    }
}

/// The first focused tab of a workspace.
pub open spec fn focused_group(
    workspaces: Seq<HerdrWorkspace>,
    groups: Seq<PlacedGroup>,
    workspace: u64,
) -> Option<u64>
    decreases groups.len(),
{
    if groups.len() == 0 {
        None
    } else if groups[0].workspace == workspace && placing::group_at_place(workspaces, groups[0]).focused {
        Some(groups[0].group)
    } else {
        focused_group(workspaces, groups.drop_first(), workspace)
    }
}

/// The first group of a workspace that was marked as selected before.
pub open spec fn marked_group(groups: Seq<TerminalGroupView>, workspace: u64) -> Option<u64>
    decreases groups.len(),
{
    if groups.len() == 0 {
        None
    } else if groups[0].selected && metadata::handle_in(groups[0].workspace_id) == Some(workspace)
        && metadata::handle_in(groups[0].id) is Some {
        metadata::handle_in(groups[0].id)
    } else {
        marked_group(groups.drop_first(), workspace)
    }
}

/// The tabs of a workspace, in their order.
pub open spec fn groups_in(groups: Seq<PlacedGroup>, workspace: u64) -> Seq<u64>
    decreases groups.len(),
{
    if groups.len() == 0 {
        seq![]
    } else if groups.last().workspace == workspace {
        groups_in(groups.drop_last(), workspace).push(groups.last().group)
    } else {
        groups_in(groups.drop_last(), workspace)
    }
}

pub open spec fn looked_up(m: Map<u64, u64>, key: u64) -> Option<u64> {
    if m.contains_key(key) {
        Some(m[key])
    } else {
        None
    }
}

/// The selected group of each workspace that has groups.
pub open spec fn selected_in(
    workspaces: Seq<HerdrWorkspace>,
    handles: Seq<u64>,
    groups: Seq<PlacedGroup>,
    local: Map<u64, u64>,
    before: Seq<TerminalGroupView>,
) -> Map<u64, u64>
    decreases handles.len(),
{
    if handles.len() == 0 {
        Map::empty()
    } else {
        let front = selected_in(workspaces, handles.drop_last(), groups, local, before);
        let own = handles.last();
        match metadata::chosen_group(
            groups_in(groups, own),
            looked_up(local, own),
            marked_group(before, own),
            focused_group(workspaces, groups, own),
        ) {
            Some(group) => front.insert(own, group),
            None => front,
        }
    }
}

/// The group is shown.
pub open spec fn shows_group(groups: Seq<PlacedGroup>, group: u64) -> bool {
    exists|i: int| 0 <= i < groups.len() && (#[trigger] groups[i]).group == group
}

/// The active group: the one that was active, while it is shown; else the
/// focused tab; else the selected tab of the focused workspace.
pub open spec fn active_in(
    handles: Map<KeyView, u64>,
    groups: Seq<PlacedGroup>,
    selected: Map<u64, u64>,
    old_active: Option<u64>,
    focused_tab: Option<String>,
    focused_workspace: Option<String>,
) -> Option<u64> {
    if old_active is Some && shows_group(groups, old_active->0) {
        old_active
    } else if focused_tab is Some && handles.contains_key(
        KeyView { kind: GROUP, remote: focused_tab->0@ },
    ) {
        Some(handles[KeyView { kind: GROUP, remote: focused_tab->0@ }])
    } else if focused_workspace is Some && handles.contains_key(
        KeyView { kind: WORKSPACE, remote: focused_workspace->0@ },
    ) {
        looked_up(
            selected,
            handles[KeyView { kind: WORKSPACE, remote: focused_workspace->0@ }],
        )
    } else {
        None
    }
}

fn name_of(pane: &HerdrPane, index: usize) -> (r: String)
    requires
        index < usize::MAX,
    ensures
        r@ == shown_name(*pane, index as int),
{
    match &pane.name {
        Some(name) => {
            if name.as_str().as_bytes().len() > 0 {
                proof {
                    lemma_empty_text(name@);
                }
                return name.clone();
            }
            proof {
                lemma_empty_text(name@);
            }
        },
        None => {},
    }
    numbered("Terminal ", (index + 1) as u64)
}

proof fn lemma_empty_text(s: Seq<char>)
    ensures
        crate::text::utf8(s).len() == 0 <==> s.len() == 0,
{
    if s.len() > 0 {
        vstd::utf8::encode_utf8_decode_utf8(s);
        if crate::text::utf8(s).len() == 0 {
            assert(crate::text::utf8(s) =~= crate::text::utf8(Seq::<char>::empty()));
            vstd::utf8::encode_utf8_decode_utf8(Seq::<char>::empty());
        }
    }
}

fn build_workspaces(workspaces: &Vec<HerdrWorkspace>, handles: &Vec<u64>) -> (r: Vec<Workspace>)
    requires
        handles@.len() == workspaces@.len(),
    ensures
        workspace::workspace_views(r@) == Seq::new(
            workspaces@.len(),
            |w: int| shown_workspace(workspaces@[w], handles@[w]),
        ),
{
    let mut out: Vec<Workspace> = Vec::new();
    let mut w: usize = 0;
    while w < workspaces.len()
        invariant
            w <= workspaces@.len(),
            handles@.len() == workspaces@.len(),
            out@.len() == w,
            forall|i: int|
                0 <= i < w ==> (#[trigger] out@[i])@ == shown_workspace(workspaces@[i], handles@[i]),
        decreases workspaces@.len() - w,
    {
        out.push(
            Workspace {
                id: handle_text(handles[w]),
                name: workspaces[w].name.clone(),
                agent_status: crate::ssh::herdr::wire::herdr_rollup_status(
                    workspaces[w].agent_status,
                ),
            },
        );
        w = w + 1;
    }
    assert(workspace::workspace_views(out@) =~= Seq::new(
        workspaces@.len(),
        |w: int| shown_workspace(workspaces@[w], handles@[w]),
    ));
    out
}

fn build_windows(workspaces: &Vec<HerdrWorkspace>, handles: &Vec<u64>) -> (r: Vec<WindowSnapshot>)
    requires
        handles@.len() == workspaces@.len(),
    ensures
        snapshot::window_views(r@) == Seq::new(
            workspaces@.len(),
            |w: int| shown_window(workspaces@[w], handles@[w]),
        ),
{
    let mut out: Vec<WindowSnapshot> = Vec::new();
    let mut w: usize = 0;
    while w < workspaces.len()
        invariant
            w <= workspaces@.len(),
            handles@.len() == workspaces@.len(),
            out@.len() == w,
            forall|i: int|
                0 <= i < w ==> (#[trigger] out@[i])@ == shown_window(workspaces@[i], handles@[i]),
        decreases workspaces@.len() - w,
    {
        let panes: Vec<PaneSnapshot> = Vec::new();
        assert(snapshot::pane_views(panes@) =~= Seq::<PaneSnapshotView>::empty());
        out.push(
            WindowSnapshot {
                window_id: handles[w],
                name: workspaces[w].name.clone(),
                panes,
                selected: false,
                zoomed: false,
            },
        );
        w = w + 1;
    }
    assert(snapshot::window_views(out@) =~= Seq::new(
        workspaces@.len(),
        |w: int| shown_window(workspaces@[w], handles@[w]),
    ));
    out
}

fn build_groups(workspaces: &Vec<HerdrWorkspace>, groups: &Vec<PlacedGroup>) -> (r: Vec<
    TerminalGroup,
>)
    requires
        forall|i: int| 0 <= i < groups@.len() ==> placing::group_in(workspaces@, #[trigger] groups@[i]),
    ensures
        workspace::group_views(r@) == Seq::new(
            groups@.len(),
            |i: int| shown_group(workspaces@, groups@[i]),
        ),
{
    let mut out: Vec<TerminalGroup> = Vec::new();
    let mut i: usize = 0;
    while i < groups.len()
        invariant
            i <= groups@.len(),
            forall|k: int| 0 <= k < groups@.len() ==> placing::group_in(workspaces@, #[trigger] groups@[k]),
            out@.len() == i,
            forall|k: int|
                0 <= k < i ==> (#[trigger] out@[k])@ == shown_group(workspaces@, groups@[k]),
        decreases groups@.len() - i,
    {
        let g = groups[i];
        assert(placing::group_in(workspaces@, groups@[i as int]));
        let group = &workspaces[g.at_workspace].groups[g.at_group];
        out.push(
            TerminalGroup {
                id: handle_text(g.group),
                workspace_id: handle_text(g.workspace),
                name: group.name.clone(),
                selected: false,
                agent_status: crate::ssh::herdr::wire::herdr_rollup_status(group.agent_status),
            },
        );
        i = i + 1;
    }
    assert(workspace::group_views(out@) =~= Seq::new(
        groups@.len(),
        |i: int| shown_group(workspaces@, groups@[i]),
    ));
    out
}

fn native_of(natives: &HashMap<u64, u64>, pane: u64) -> (r: u64)
    requires
        natives@.contains_key(pane),
    ensures
        r == natives@[pane],
{
    match natives.get(&pane) {
        Some(native) => *native,
        None => 0,
    }
}

fn build_terminals(
    workspaces: &Vec<HerdrWorkspace>,
    natives: &HashMap<u64, u64>,
    panes: &Vec<PlacedPane>,
) -> (r: Vec<Terminal>)
    requires
        forall|i: int| 0 <= i < panes@.len() ==> placing::pane_in(workspaces@, #[trigger] panes@[i]),
        forall|i: int| 0 <= i < panes@.len() ==> natives@.contains_key((#[trigger] panes@[i]).pane),
    ensures
        workspace::terminal_views(r@) == Seq::new(
            panes@.len(),
            |i: int| shown_terminal(workspaces@, natives@, panes@[i]),
        ),
{
    let mut out: Vec<Terminal> = Vec::new();
    let mut i: usize = 0;
    while i < panes.len()
        invariant
            i <= panes@.len(),
            forall|k: int| 0 <= k < panes@.len() ==> placing::pane_in(workspaces@, #[trigger] panes@[k]),
            forall|k: int|
                0 <= k < panes@.len() ==> natives@.contains_key((#[trigger] panes@[k]).pane),
            out@.len() == i,
            forall|k: int|
                0 <= k < i ==> (#[trigger] out@[k])@ == shown_terminal(
                    workspaces@,
                    natives@,
                    panes@[k],
                ),
        decreases panes@.len() - i,
    {
        let p = panes[i];
        assert(placing::pane_in(workspaces@, panes@[i as int]));
        assert(natives@.contains_key(panes@[i as int].pane));
        let siblings = &workspaces[p.at_workspace].groups[p.at_group].panes;
        let _count: usize = siblings.len();
        let pane = &siblings[p.at_pane];
        let agent = match &pane.agent_name {
            Some(name) => Some(
                Agent { name: name.clone(), status: pane.agent_status.to_common() },
            ),
            None => None,
        };
        out.push(
            Terminal {
                id: handle_text(p.pane),
                workspace_id: handle_text(p.workspace),
                group_id: handle_text(p.group),
                terminal_id: numbered("native:", native_of(natives, p.pane)),
                name: name_of(pane, p.at_pane),
                active: pane.focused,
                selected: false,
                agent,
            },
        );
        i = i + 1;
    }
    assert(workspace::terminal_views(out@) =~= Seq::new(
        panes@.len(),
        |i: int| shown_terminal(workspaces@, natives@, panes@[i]),
    ));
    out
}

fn build_flat(
    workspaces: &Vec<HerdrWorkspace>,
    natives: &HashMap<u64, u64>,
    viewport: (u16, u16),
    panes: &Vec<PlacedPane>,
) -> (r: Vec<PaneSnapshot>)
    requires
        forall|i: int| 0 <= i < panes@.len() ==> placing::pane_in(workspaces@, #[trigger] panes@[i]),
        forall|i: int| 0 <= i < panes@.len() ==> natives@.contains_key((#[trigger] panes@[i]).pane),
    ensures
        snapshot::pane_views(r@) == Seq::new(
            panes@.len(),
            |i: int| shown_flat(workspaces@, natives@, viewport, panes@[i]),
        ),
{
    let mut out: Vec<PaneSnapshot> = Vec::new();
    let mut i: usize = 0;
    while i < panes.len()
        invariant
            i <= panes@.len(),
            forall|k: int| 0 <= k < panes@.len() ==> placing::pane_in(workspaces@, #[trigger] panes@[k]),
            forall|k: int|
                0 <= k < panes@.len() ==> natives@.contains_key((#[trigger] panes@[k]).pane),
            out@.len() == i,
            forall|k: int|
                0 <= k < i ==> (#[trigger] out@[k])@ == shown_flat(
                    workspaces@,
                    natives@,
                    viewport,
                    panes@[k],
                ),
        decreases panes@.len() - i,
    {
        let p = panes[i];
        assert(placing::pane_in(workspaces@, panes@[i as int]));
        assert(natives@.contains_key(panes@[i as int].pane));
        let siblings = &workspaces[p.at_workspace].groups[p.at_group].panes;
        let _count: usize = siblings.len();
        let pane = &siblings[p.at_pane];
        out.push(
            PaneSnapshot {
                window_id: p.workspace,
                pane_id: p.pane,
                terminal_id: native_of(natives, p.pane),
                window_name: workspaces[p.at_workspace].name.clone(),
                active: pane.focused,
                selected: false,
                index: p.at_pane as u32,
                columns: viewport.0,
                rows: viewport.1,
                pane_name: name_of(pane, p.at_pane),
                title: name_of(pane, p.at_pane),
            },
        );
        i = i + 1;
    }
    assert(snapshot::pane_views(out@) =~= Seq::new(
        panes@.len(),
        |i: int| shown_flat(workspaces@, natives@, viewport, panes@[i]),
    ));
    out
}

fn map_workspaces(workspaces: &Vec<HerdrWorkspace>, handles: &Vec<u64>) -> (r: HashMap<u64, String>)
    requires
        handles@.len() == workspaces@.len(),
    ensures
        r@ == workspace_map(workspaces@, handles@),
{
    let mut out: HashMap<u64, String> = HashMap::new();
    let mut w: usize = 0;
    while w < workspaces.len()
        invariant
            w <= workspaces@.len(),
            handles@.len() == workspaces@.len(),
            out@ == workspace_map(workspaces@.take(w as int), handles@.take(w as int)),
        decreases workspaces@.len() - w,
    {
        assert(workspaces@.take(w + 1).drop_last() == workspaces@.take(w as int));
        assert(handles@.take(w + 1).drop_last() == handles@.take(w as int));
        out.insert(handles[w], workspaces[w].workspace_id.clone());
        w = w + 1;
    }
    assert(workspaces@.take(w as int) == workspaces@);
    assert(handles@.take(w as int) == handles@);
    out
}

fn map_groups(workspaces: &Vec<HerdrWorkspace>, groups: &Vec<PlacedGroup>) -> (r: HashMap<
    u64,
    String,
>)
    requires
        forall|i: int| 0 <= i < groups@.len() ==> placing::group_in(workspaces@, #[trigger] groups@[i]),
    ensures
        r@ == group_map(workspaces@, groups@),
{
    let mut out: HashMap<u64, String> = HashMap::new();
    let mut i: usize = 0;
    assert(groups@.take(0) == Seq::<PlacedGroup>::empty());
    while i < groups.len()
        invariant
            i <= groups@.len(),
            forall|k: int| 0 <= k < groups@.len() ==> placing::group_in(workspaces@, #[trigger] groups@[k]),
            out@ == group_map(workspaces@, groups@.take(i as int)),
        decreases groups@.len() - i,
    {
        assert(groups@.take(i + 1).drop_last() == groups@.take(i as int));
        let g = groups[i];
        assert(placing::group_in(workspaces@, groups@[i as int]));
        out.insert(g.group, workspaces[g.at_workspace].groups[g.at_group].tab_id.clone());
        i = i + 1;
    }
    assert(groups@.take(i as int) == groups@);
    out
}

fn map_panes(workspaces: &Vec<HerdrWorkspace>, panes: &Vec<PlacedPane>) -> (r: HashMap<
    u64,
    RemotePane,
>)
    requires
        forall|i: int| 0 <= i < panes@.len() ==> placing::pane_in(workspaces@, #[trigger] panes@[i]),
    ensures
        r@ == pane_map(workspaces@, panes@),
{
    let mut out: HashMap<u64, RemotePane> = HashMap::new();
    let mut i: usize = 0;
    assert(panes@.take(0) == Seq::<PlacedPane>::empty());
    while i < panes.len()
        invariant
            i <= panes@.len(),
            forall|k: int| 0 <= k < panes@.len() ==> placing::pane_in(workspaces@, #[trigger] panes@[k]),
            out@ == pane_map(workspaces@, panes@.take(i as int)),
        decreases panes@.len() - i,
    {
        assert(panes@.take(i + 1).drop_last() == panes@.take(i as int));
        let p = panes[i];
        assert(placing::pane_in(workspaces@, panes@[i as int]));
        let pane = &workspaces[p.at_workspace].groups[p.at_group].panes[p.at_pane];
        out.insert(
            p.pane,
            RemotePane {
                pane_id: pane.pane_id.clone(),
                terminal_id: pane.terminal_id.clone(),
                workspace: p.workspace,
                group: p.group,
            },
        );
        i = i + 1;
    }
    assert(panes@.take(i as int) == panes@);
    out
}

/// The keys of the pane map are the handles of the panes.
pub proof fn lemma_pane_map(workspaces: Seq<HerdrWorkspace>, panes: Seq<PlacedPane>)
    ensures
        forall|h: u64|
            #![trigger pane_map(workspaces, panes).contains_key(h)]
            pane_map(workspaces, panes).contains_key(h) <==> pane_handles(panes).contains(h),
    decreases panes.len(),
{
    if panes.len() > 0 {
        lemma_pane_map(workspaces, panes.drop_last());
        let front = pane_handles(panes.drop_last());
        assert(pane_handles(panes) =~= front.push(panes.last().pane));
        assert forall|h: u64|
            #![trigger pane_map(workspaces, panes).contains_key(h)]
            pane_map(workspaces, panes).contains_key(h) <==> pane_handles(panes).contains(h) by {
            assert(pane_map(workspaces, panes).contains_key(h) == (pane_map(
                workspaces,
                panes.drop_last(),
            ).contains_key(h) || h == panes.last().pane));
            if front.contains(h) {
                let i = choose|i: int| 0 <= i < front.len() && front[i] == h;
                assert(pane_handles(panes)[i] == h);
            }
            if pane_handles(panes).contains(h) {
                let i = choose|i: int| 0 <= i < pane_handles(panes).len() && pane_handles(
                    panes,
                )[i] == h;
                if i < front.len() {
                    assert(front[i] == h);
                }
            }
            assert(pane_handles(panes)[panes.len() - 1] == panes.last().pane);
        }
    }
}

fn count_members(workspaces: &Vec<HerdrWorkspace>, repo: &str) -> (r: usize)
    ensures
        r == members(workspaces@, repo@),
{
    let mut count: usize = 0;
    let mut w: usize = 0;
    assert(workspaces@.take(0) == Seq::<HerdrWorkspace>::empty());
    while w < workspaces.len()
        invariant
            w <= workspaces@.len(),
            count <= w,
            count == members(workspaces@.take(w as int), repo@),
        decreases workspaces@.len() - w,
    {
        assert(workspaces@.take(w + 1).drop_last() == workspaces@.take(w as int));
        match &workspaces[w].worktree {
            Some(worktree) => {
                if same_text(worktree.repo_key.as_str(), repo) {
                    count = count + 1;
                }
            },
            None => {},
        }
        w = w + 1;
    }
    assert(workspaces@.take(w as int) == workspaces@);
    count
}

fn find_parents(workspaces: &Vec<HerdrWorkspace>, handles: &Vec<u64>) -> (r: HashSet<u64>)
    requires
        handles@.len() == workspaces@.len(),
    ensures
        forall|h: u64| #[trigger] r@.contains(h) <==> parents(workspaces@, handles@, h),
{
    let mut out: HashSet<u64> = HashSet::new();
    let mut w: usize = 0;
    while w < workspaces.len()
        invariant
            w <= workspaces@.len(),
            handles@.len() == workspaces@.len(),
            forall|h: u64|
                #[trigger] out@.contains(h) <==> exists|i: int|
                    0 <= i < w && #[trigger] handles@[i] == h && is_parent(
                        workspaces@,
                        workspaces@[i],
                    ),
        decreases workspaces@.len() - w,
    {
        let parent = match &workspaces[w].worktree {
            Some(worktree) => !worktree.is_linked_worktree && count_members(
                workspaces,
                worktree.repo_key.as_str(),
            ) > 1,
            None => false,
        };
        assert(parent == is_parent(workspaces@, workspaces@[w as int]));
        let ghost before = out@;
        if parent {
            out.insert(handles[w]);
        }
        assert forall|h: u64| #[trigger] out@.contains(h) <==> exists|i: int|
            0 <= i < w + 1 && #[trigger] handles@[i] == h && is_parent(
                workspaces@,
                workspaces@[i],
            ) by {
            if out@.contains(h) {
                if before.contains(h) {
                    let i = choose|i: int|
                        0 <= i < w && #[trigger] handles@[i] == h && is_parent(
                            workspaces@,
                            workspaces@[i],
                        );
                    assert(handles@[i] == h);
                } else {
                    assert(handles@[w as int] == h);
                }
            }
            if exists|i: int|
                0 <= i < w + 1 && #[trigger] handles@[i] == h && is_parent(
                    workspaces@,
                    workspaces@[i],
                ) {
                let i = choose|i: int|
                    0 <= i < w + 1 && #[trigger] handles@[i] == h && is_parent(
                        workspaces@,
                        workspaces@[i],
                    );
                if i < w {
                    assert(before.contains(h));
                }
            }
        }
        w = w + 1;
    }
    out
}

fn find_focused_pane(
    workspaces: &Vec<HerdrWorkspace>,
    panes: &Vec<PlacedPane>,
    focused: &Option<String>,
) -> (r: Option<u64>)
    requires
        forall|i: int| 0 <= i < panes@.len() ==> placing::pane_in(workspaces@, #[trigger] panes@[i]),
    ensures
        r == focused_pane(workspaces@, panes@, *focused),
{
    let alias = match focused {
        Some(alias) => alias,
        None => {
            return None;
        },
    };
    let mut n: usize = panes.len();
    assert(panes@.take(n as int) == panes@);
    while n > 0
        invariant
            n <= panes@.len(),
            *focused == Some(*alias),
            forall|k: int| 0 <= k < panes@.len() ==> placing::pane_in(workspaces@, #[trigger] panes@[k]),
            focused_pane(workspaces@, panes@.take(n as int), *focused) == focused_pane(
                workspaces@,
                panes@,
                *focused,
            ),
        decreases n,
    {
        assert(panes@.take(n as int).drop_last() == panes@.take(n - 1));
        n = n - 1;
        let p = panes[n];
        assert(placing::pane_in(workspaces@, panes@[n as int]));
        let pane = &workspaces[p.at_workspace].groups[p.at_group].panes[p.at_pane];
        if same_text(pane.pane_id.as_str(), alias.as_str()) {
            return Some(p.pane);
        }
    }
    None
}

fn find_focused_group(
    workspaces: &Vec<HerdrWorkspace>,
    groups: &Vec<PlacedGroup>,
    workspace: u64,
) -> (r: Option<u64>)
    requires
        forall|i: int| 0 <= i < groups@.len() ==> placing::group_in(workspaces@, #[trigger] groups@[i]),
    ensures
        r == focused_group(workspaces@, groups@, workspace),
{
    let mut i: usize = 0;
    assert(groups@.skip(0) == groups@);
    while i < groups.len()
        invariant
            i <= groups@.len(),
            forall|k: int| 0 <= k < groups@.len() ==> placing::group_in(workspaces@, #[trigger] groups@[k]),
            focused_group(workspaces@, groups@.skip(i as int), workspace) == focused_group(
                workspaces@,
                groups@,
                workspace,
            ),
        decreases groups@.len() - i,
    {
        assert(groups@.skip(i as int).drop_first() == groups@.skip(i + 1));
        let g = groups[i];
        assert(placing::group_in(workspaces@, groups@[i as int]));
        if g.workspace == workspace && workspaces[g.at_workspace].groups[g.at_group].focused {
            return Some(g.group);
        }
        i = i + 1;
    }
    None
}

fn find_marked_group(groups: &Vec<TerminalGroup>, workspace: u64) -> (r: Option<u64>)
    ensures
        r == marked_group(workspace::group_views(groups@), workspace),
{
    let ghost all = workspace::group_views(groups@);
    let mut i: usize = 0;
    assert(all.skip(0) == all);
    while i < groups.len()
        invariant
            i <= groups@.len(),
            all == workspace::group_views(groups@),
            marked_group(all.skip(i as int), workspace) == marked_group(all, workspace),
        decreases groups@.len() - i,
    {
        assert(all.skip(i as int)[0] == groups@[i as int]@);
        assert(all.skip(i as int).drop_first() == all.skip(i + 1));
        if groups[i].selected {
            let own = match parse_handle(groups[i].workspace_id.as_str()) {
                Some(own) => own == workspace,
                None => false,
            };
            let handle = parse_handle(groups[i].id.as_str());
            if own && handle.is_some() {
                return handle;
            }
        }
        i = i + 1;
    }
    None
}

fn collect_groups(groups: &Vec<PlacedGroup>, workspace: u64) -> (r: Vec<u64>)
    ensures
        r@ == groups_in(groups@, workspace),
{
    let mut out: Vec<u64> = Vec::new();
    let mut i: usize = 0;
    assert(groups@.take(0) == Seq::<PlacedGroup>::empty());
    while i < groups.len()
        invariant
            i <= groups@.len(),
            out@ == groups_in(groups@.take(i as int), workspace),
        decreases groups@.len() - i,
    {
        assert(groups@.take(i + 1).drop_last() == groups@.take(i as int));
        if groups[i].workspace == workspace {
            out.push(groups[i].group);
        }
        i = i + 1;
    }
    assert(groups@.take(i as int) == groups@);
    out
}

fn find_value(m: &HashMap<u64, u64>, key: u64) -> (r: Option<u64>)
    ensures
        r == looked_up(m@, key),
{
    match m.get(&key) {
        Some(value) => Some(*value),
        None => None,
    }
}

fn select_groups(
    workspaces: &Vec<HerdrWorkspace>,
    handles: &Vec<u64>,
    groups: &Vec<PlacedGroup>,
    local: &HashMap<u64, u64>,
    before: &Vec<TerminalGroup>,
) -> (r: HashMap<u64, u64>)
    requires
        forall|i: int| 0 <= i < groups@.len() ==> placing::group_in(workspaces@, #[trigger] groups@[i]),
    ensures
        r@ == selected_in(workspaces@, handles@, groups@, local@, workspace::group_views(before@)),
{
    let mut out: HashMap<u64, u64> = HashMap::new();
    let mut w: usize = 0;
    assert(handles@.take(0) == Seq::<u64>::empty());
    while w < handles.len()
        invariant
            w <= handles@.len(),
            forall|i: int| 0 <= i < groups@.len() ==> placing::group_in(workspaces@, #[trigger] groups@[i]),
            out@ == selected_in(
                workspaces@,
                handles@.take(w as int),
                groups@,
                local@,
                workspace::group_views(before@),
            ),
        decreases handles@.len() - w,
    {
        assert(handles@.take(w + 1).drop_last() == handles@.take(w as int));
        let own: u64 = handles[w];
        let choices = collect_groups(groups, own);
        let chosen = choose_selected_group(
            choices.as_slice(),
            find_value(local, own),
            find_marked_group(before, own),
            find_focused_group(workspaces, groups, own),
        );
        match chosen {
            Some(group) => {
                out.insert(own, group);
            },
            None => {},
        }
        w = w + 1;
    }
    assert(handles@.take(w as int) == handles@);
    out
}

fn is_shown(groups: &Vec<PlacedGroup>, group: u64) -> (r: bool)
    ensures
        r == shows_group(groups@, group),
{
    let mut i: usize = 0;
    while i < groups.len()
        invariant
            i <= groups@.len(),
            forall|k: int| 0 <= k < i ==> (#[trigger] groups@[k]).group != group,
        decreases groups@.len() - i,
    {
        if groups[i].group == group {
            return true;
        }
        i = i + 1;
    }
    false
}

fn choose_active(
    ids: &Vec<IdEntry>,
    groups: &Vec<PlacedGroup>,
    selected: &HashMap<u64, u64>,
    old_active: Option<u64>,
    focused_tab: &Option<String>,
    focused_workspace: &Option<String>,
) -> (r: Option<u64>)
    ensures
        r == active_in(
            handles::table(ids@),
            groups@,
            selected@,
            old_active,
            *focused_tab,
            *focused_workspace,
        ),
{
    match old_active {
        Some(group) => {
            if is_shown(groups, group) {
                return old_active;
            }
        },
        None => {},
    }
    match focused_tab {
        Some(tab) => {
            let found = find_handle(ids, GROUP, tab.as_str());
            if found.is_some() {
                return found;
            }
        },
        None => {},
    }
    match focused_workspace {
        Some(workspace) => match find_handle(ids, WORKSPACE, workspace.as_str()) {
            Some(handle) => find_value(selected, handle),
            None => None,
        },
        None => None,
    }
}

/// The natives of handles that are not among the panes, in some order.
pub open spec fn stale_natives(
    natives: Map<u64, u64>,
    panes: Map<u64, RemotePane>,
    stale: Seq<u64>,
) -> bool {
    exists|gone: Seq<u64>|
        #![trigger gone.no_duplicates()]
        {
            &&& gone.no_duplicates()
            &&& forall|h: u64|
                #[trigger] gone.contains(h) <==> natives.contains_key(h) && !panes.contains_key(h)
            &&& stale == Seq::new(gone.len(), |i: int| natives[gone[i]])
        }
}

fn find_gone(natives: &HashMap<u64, u64>, panes: &HashMap<u64, RemotePane>) -> (r: Vec<u64>)
    ensures
        r@.no_duplicates(),
        forall|h: u64|
            #[trigger] r@.contains(h) <==> natives@.contains_key(h) && !panes@.contains_key(h),
{
    let keys = keys_of(natives);
    let mut out: Vec<u64> = Vec::new();
    let mut i: usize = 0;
    while i < keys.len()
        invariant
            i <= keys@.len(),
            keys@.no_duplicates(),
            out@.no_duplicates(),
            forall|h: u64|
                #[trigger] out@.contains(h) <==> !panes@.contains_key(h) && keys@.take(
                    i as int,
                ).contains(h),
        decreases keys@.len() - i,
    {
        let handle: u64 = keys[i];
        let ghost front = keys@.take(i as int);
        let ghost before = out@;
        assert(keys@.take(i + 1) == front.push(handle));
        broadcast use vstd::seq_lib::group_seq_properties;

        assert(!front.contains(handle)) by {
            if front.contains(handle) {
                let k = choose|k: int| 0 <= k < front.len() && front[k] == handle;
                assert(keys@[k] == keys@[i as int]);
            }
        }
        if !panes.contains_key(&handle) {
            assert(!before.contains(handle));
            out.push(handle);
        }
        i = i + 1;
    }
    assert(keys@.take(i as int) == keys@);
    out
}

/// A snapshot with the handles of everything that it shows.
pub struct Placement {
    snapshot: HerdrSessionSnapshot,
    ids: Vec<IdEntry>,
    keys: Vec<RemoteKey>,
    handles: Vec<u64>,
    groups: Vec<PlacedGroup>,
    panes: Vec<PlacedPane>,
}

/// What a placement holds.
#[verifier::ext_equal]
pub struct PlacementView {
    pub workspaces: Seq<HerdrWorkspace>,
    pub ids: Seq<IdEntry>,
    pub focused_workspace: Option<String>,
    pub focused_tab: Option<String>,
    pub focused_pane: Option<String>,
}

impl View for Placement {
    type V = PlacementView;

    closed spec fn view(&self) -> PlacementView {
        PlacementView {
            workspaces: self.snapshot.workspaces@,
            ids: self.ids@,
            focused_workspace: self.snapshot.focused_workspace_id,
            focused_tab: self.snapshot.focused_tab_id,
            focused_pane: self.snapshot.focused_pane_id,
        }
    }
}

/// The handles of the panes of a placement.
pub open spec fn placed_handles(p: PlacementView) -> Seq<u64> {
    pane_handles(placing::placed_panes(handles::table(p.ids), p.workspaces))
}

impl Placement {
    #[verifier::type_invariant]
    spec fn placed(&self) -> bool {
        &&& handles::key_views(self.keys@) == handles::snapshot_keys(self.snapshot.workspaces@)
        &&& self.handles@ == workspace_handles(handles::table(self.ids@), self.snapshot.workspaces@)
        &&& self.groups@ == placing::placed_groups(handles::table(self.ids@), self.snapshot.workspaces@)
        &&& self.panes@ == placing::placed_panes(handles::table(self.ids@), self.snapshot.workspaces@)
        &&& forall|i: int|
            0 <= i < self.groups@.len() ==> placing::group_in(
                self.snapshot.workspaces@,
                #[trigger] self.groups@[i],
            )
        &&& forall|i: int|
            0 <= i < self.panes@.len() ==> placing::pane_in(
                self.snapshot.workspaces@,
                #[trigger] self.panes@[i],
            )
    }

    /// The number of fresh handles that a snapshot needs.
    pub fn handles_needed(metadata: &Metadata, snapshot: &HerdrSessionSnapshot) -> (r: usize)
        ensures
            r == handles::unknown(handles::table(metadata.ids@), handles::snapshot_keys(snapshot.workspaces@)),
    {
        let keys = live_keys(&snapshot.workspaces);
        handles_needed(&metadata.ids, &keys)
    }

    /// Places a snapshot: what is known keeps its handle, what is new gets a
    /// fresh one.
    pub fn new(metadata: &Metadata, snapshot: HerdrSessionSnapshot, fresh: &Vec<u64>) -> (r: Self)
        requires
            handles::unknown(handles::table(metadata.ids@), handles::snapshot_keys(snapshot.workspaces@)) <= fresh@.len(),
        ensures
            r@.workspaces == snapshot.workspaces@,
            r@.focused_workspace == snapshot.focused_workspace_id,
            r@.focused_tab == snapshot.focused_tab_id,
            r@.focused_pane == snapshot.focused_pane_id,
            handles::table(r@.ids) == handles::assigned(
                handles::table(metadata.ids@),
                handles::snapshot_keys(snapshot.workspaces@),
                fresh@,
            ).0,
    {
        let keys = live_keys(&snapshot.workspaces);
        let mut ids = copied_ids(&metadata.ids);
        assign_handles(&mut ids, &keys, fresh);
        let handles = place_workspaces(&ids, &snapshot.workspaces);
        assert(handles@ =~= workspace_handles(handles::table(ids@), snapshot.workspaces@));
        let groups = place_groups(&ids, &snapshot.workspaces);
        let panes = place_panes(&ids, &snapshot.workspaces);
        Placement { snapshot, ids, keys, handles, groups, panes }
    }

    /// The number of fresh native terminals that the panes need.
    pub fn natives_needed(&self, mapping: &HashMap<u64, u64>) -> (r: usize)
        ensures
            r == handles::unknown(mapping@, placed_handles(self@)),
    {
        proof {
            use_type_invariant(self);
        }
        let handles = self.pane_handles();
        values_needed(mapping, &handles)
    }

    fn pane_handles(&self) -> (r: Vec<u64>)
        ensures
            r@ == placed_handles(self@),
    {
        proof {
            use_type_invariant(self);
        }
        let mut out: Vec<u64> = Vec::new();
        let mut i: usize = 0;
        while i < self.panes.len()
            invariant
                i <= self.panes@.len(),
                out@.len() == i,
                forall|k: int| 0 <= k < i ==> #[trigger] out@[k] == self.panes@[k].pane,
            decreases self.panes@.len() - i,
        {
            out.push(self.panes[i].pane);
            i = i + 1;
        }
        assert(out@ =~= pane_handles(self.panes@));
        out
    }
}

fn copied_ids(ids: &Vec<IdEntry>) -> (r: Vec<IdEntry>)
    ensures
        r@ == ids@,
{
    let mut out: Vec<IdEntry> = Vec::new();
    let mut i: usize = 0;
    while i < ids.len()
        invariant
            i <= ids@.len(),
            out@ == ids@.take(i as int),
        decreases ids@.len() - i,
    {
        assert(ids@.take(i + 1) == ids@.take(i as int).push(ids@[i as int]));
        out.push(
            IdEntry { kind: ids[i].kind, remote: ids[i].remote.clone(), handle: ids[i].handle },
        );
        i = i + 1;
    }
    assert(ids@.take(i as int) == ids@);
    out
}

/// Where the pane stood that was selected.
pub open spec fn old_place(panes: Map<u64, RemotePane>, selected: Option<u64>) -> Option<Place> {
    if selected is Some && panes.contains_key(selected->0) {
        Some(
            Place {
                workspace: panes[selected->0].workspace,
                group: panes[selected->0].group,
            },
        )
    } else {
        None
    }
}

/// The projection of a placement, before a pane is selected in it.
pub struct Scene {
    pub workspaces: Seq<HerdrWorkspace>,
    pub ids: Seq<IdEntry>,
    pub handles: Seq<u64>,
    pub groups: Seq<PlacedGroup>,
    pub panes: Seq<PlacedPane>,
    pub natives: Map<u64, u64>,
    pub remote: Map<u64, RemotePane>,
    pub selected_groups: Map<u64, u64>,
    pub active_group: Option<u64>,
    pub preferred: Option<u64>,
}

/// Everything that a snapshot and what was known before it determine.
pub open spec fn scene(
    metadata: Metadata,
    p: PlacementView,
    mapping: Map<u64, u64>,
    fresh: Seq<u64>,
) -> Scene {
    let table = handles::table(p.ids);
    let handles = workspace_handles(table, p.workspaces);
    let groups = placing::placed_groups(table, p.workspaces);
    let panes = placing::placed_panes(table, p.workspaces);
    let selected_groups = selected_in(
        p.workspaces,
        handles,
        groups,
        metadata.selected_groups@,
        workspace::group_views(metadata.snapshot.groups@),
    );
    Scene {
        workspaces: p.workspaces,
        ids: p.ids,
        handles,
        groups,
        panes,
        natives: handles::assigned(mapping, pane_handles(panes), fresh).0,
        remote: pane_map(p.workspaces, panes),
        selected_groups,
        active_group: active_in(
            table,
            groups,
            selected_groups,
            metadata.active_group,
            p.focused_tab,
            p.focused_workspace,
        ),
        preferred: focused_pane(p.workspaces, panes, p.focused_pane),
    }
}

/// What is shown of a scene in which a pane, or none, is selected.
pub open spec fn shows_scene(
    metadata: Metadata,
    s: Scene,
    runtime: Seq<char>,
    selected: Option<u64>,
) -> bool {
    let keys = handles::snapshot_keys(s.workspaces);
    &&& metadata.ids@ == handles::kept_entries(s.ids, keys)
    &&& metadata.workspaces@ == workspace_map(s.workspaces, s.handles)
    &&& metadata.groups@ == group_map(s.workspaces, s.groups)
    &&& metadata.panes@ == s.remote
    &&& forall|h: u64|
        #[trigger] metadata.linked_worktree_parents@.contains(h) <==> parents(
            s.workspaces,
            s.handles,
            h,
        )
    &&& metadata.selected_groups@ == (if selected is Some {
        metadata::groups_with_pane(s.selected_groups, s.remote, selected->0)
    } else {
        s.selected_groups
    })
    &&& metadata.active_group == (if selected is Some && s.remote.contains_key(selected->0) {
        Some(s.remote[selected->0].group)
    } else {
        s.active_group
    })
    &&& metadata.snapshot.control@ == workspace::default_control()
    &&& metadata.snapshot.backend == Backend::Herdr
    &&& metadata.snapshot.runtime@ == runtime
    &&& metadata.snapshot.groups_supported
    &&& workspace::workspace_views(metadata.snapshot.workspaces@) == Seq::new(
        s.workspaces.len(),
        |w: int| shown_workspace(s.workspaces[w], s.handles[w]),
    )
    &&& workspace::group_views(metadata.snapshot.groups@) == metadata::refreshed(
        Seq::new(s.groups.len(), |i: int| shown_group(s.workspaces, s.groups[i])),
        metadata.selected_groups@,
    )
    &&& workspace::terminal_views(metadata.snapshot.terminals@) == metadata::with_selected(
        Seq::new(s.panes.len(), |i: int| shown_terminal(s.workspaces, s.natives, s.panes[i])),
        selected,
    )
}

/// The flat panes of a scene, before one is marked as selected.
pub open spec fn flat_of(s: Scene, viewport: (u16, u16)) -> Seq<PaneSnapshotView> {
    Seq::new(
        s.panes.len(),
        |i: int| shown_flat(s.workspaces, s.natives, viewport, s.panes[i]),
    )
}

/// The windows of a scene, before they have panes.
pub open spec fn windows_of(s: Scene) -> Seq<WindowSnapshotView> {
    Seq::new(s.workspaces.len(), |w: int| shown_window(s.workspaces[w], s.handles[w]))
}

/// Projects a placed snapshot onto the common model.
pub fn project_snapshot(
    metadata: Metadata,
    placement: Placement,
    mapping: HashMap<u64, u64>,
    old_selected: Option<u64>,
    runtime: String,
    viewport: (u16, u16),
    fresh: &Vec<u64>,
) -> (r: SnapshotProjection)
    requires
        handles::unknown(mapping@, placed_handles(placement@)) <= fresh@.len(),
    ensures
        ({
            let s = scene(metadata, placement@, mapping@, fresh@);
            &&& shows_scene(r.metadata, s, runtime@, r.selected)
            &&& snapshot::pane_views(r.flat@) == flat_of(s, viewport)
            &&& snapshot::window_views(r.windows@) == windows_of(s)
            &&& r.selected == metadata::chosen_pane(
                s.remote,
                r.flat@,
                old_selected,
                old_place(metadata.panes@, old_selected),
                s.preferred,
                s.active_group,
            )
            &&& r.mapping@ == s.natives.restrict(s.remote.dom())
            &&& stale_natives(s.natives, s.remote, r.stale@)
        }),
{
    proof {
        use_type_invariant(&placement);
    }
    let ghost s = scene(metadata, placement@, mapping@, fresh@);
    let pids = placement.pane_handles();
    let mut natives = mapping;
    assign_values(&mut natives, &pids, fresh);
    proof {
        handles::law_assigned(mapping@, pids@, fresh@);
        assert forall|i: int| 0 <= i < placement.panes@.len() implies natives@.contains_key(
            (#[trigger] placement.panes@[i]).pane,
        ) by {
            assert(pids@[i] == placement.panes@[i].pane);
        }
    }
    let workspaces = &placement.snapshot.workspaces;
    let remote = map_panes(workspaces, &placement.panes);
    let selected_groups = select_groups(
        workspaces,
        &placement.handles,
        &placement.groups,
        &metadata.selected_groups,
        &metadata.snapshot.groups,
    );
    let active_group = choose_active(
        &placement.ids,
        &placement.groups,
        &selected_groups,
        metadata.active_group,
        &placement.snapshot.focused_tab_id,
        &placement.snapshot.focused_workspace_id,
    );
    let preferred = find_focused_pane(
        workspaces,
        &placement.panes,
        &placement.snapshot.focused_pane_id,
    );
    let flat = build_flat(workspaces, &natives, viewport, &placement.panes);
    let terminals = build_terminals(workspaces, &natives, &placement.panes);
    let mut shown = Metadata {
        snapshot: RuntimeSnapshot {
            control: RuntimeControlSnapshot::default(),
            backend: Backend::Herdr,
            runtime,
            groups_supported: true,
            workspaces: build_workspaces(workspaces, &placement.handles),
            groups: build_groups(workspaces, &placement.groups),
            terminals,
        },
        ids: retain_live(&placement.ids, &placement.keys),
        workspaces: map_workspaces(workspaces, &placement.handles),
        groups: map_groups(workspaces, &placement.groups),
        panes: remote,
        linked_worktree_parents: find_parents(workspaces, &placement.handles),
        selected_groups,
        active_group,
    };
    let ghost groups0 = workspace::group_views(shown.snapshot.groups@);
    let ghost terminals0 = workspace::terminal_views(shown.snapshot.terminals@);
    shown.refresh_group_selection();
    proof {
        lemma_pane_map(s.workspaces, s.panes);
        assert(snapshot::pane_views(flat@).len() == flat@.len());
        assert(flat@.len() == s.panes.len());
        assert(pids@ == pane_handles(s.panes));
        assert forall|i: int| 0 <= i < flat@.len() implies shown.panes@.contains_key(
            (#[trigger] flat@[i]).pane_id,
        ) by {
            assert(snapshot::pane_views(flat@)[i] == flat@[i]@);
            assert(flat_of(s, viewport)[i].pane_id == s.panes[i].pane);
            assert(pids@[i] == s.panes[i].pane);
            assert(pane_handles(s.panes).contains(s.panes[i].pane));
        }
    }
    let old_target = match old_selected {
        Some(pane) => metadata.panes.get(&pane),
        None => None,
    };
    let selected = choose_selected_pane(
        &shown,
        flat.as_slice(),
        old_selected,
        old_target,
        preferred,
        active_group,
    );
    match selected {
        Some(pane) => {
            shown.select(pane);
            proof {
                metadata::lemma_refreshed_twice(groups0, s.selected_groups, shown.selected_groups@);
            }
        },
        None => {
            assert(metadata::with_selected(terminals0, None) =~= terminals0);
        },
    }
    let gone = find_gone(&natives, &shown.panes);
    let ghost full = natives@;
    assert forall|i: int| 0 <= i < gone@.len() implies natives@.contains_key(
        #[trigger] gone@[i],
    ) by {
        assert(gone@.contains(gone@[i]));
    }
    let stale = retire_panes(&mut natives, &gone);
    proof {
        assert(natives@ =~= full.restrict(s.remote.dom()));
        assert(gone@.no_duplicates());
        assert(stale_natives(full, s.remote, stale@));
    }
    SnapshotProjection {
        metadata: shown,
        mapping: natives,
        selected,
        windows: build_windows(&placement.snapshot.workspaces, &placement.handles),
        flat,
        stale,
    }
}

proof fn lemma_first_is_flat(flat: Seq<PaneSnapshot>, panes: Map<u64, RemotePane>, key: u64)
    ensures
        metadata::first_in_group(flat, panes, key) matches Some(pane) ==> exists|i: int|
            0 <= i < flat.len() && (#[trigger] flat[i]).pane_id == pane,
        metadata::first_in_workspace(flat, key) matches Some(pane) ==> exists|i: int|
            0 <= i < flat.len() && (#[trigger] flat[i]).pane_id == pane,
    decreases flat.len(),
{
    if flat.len() > 0 {
        let rest = flat.drop_first();
        lemma_first_is_flat(rest, panes, key);
        assert(forall|i: int| 0 <= i < rest.len() ==> #[trigger] rest[i] == flat[i + 1]);
        assert(flat[0].pane_id == flat[0].pane_id);
        if metadata::first_in_group(flat, panes, key) is Some
            && panes[flat[0].pane_id].group != key {
            let i = choose|i: int|
                0 <= i < rest.len() && (#[trigger] rest[i]).pane_id == metadata::first_in_group(
                    rest,
                    panes,
                    key,
                )->0;
            assert(flat[i + 1] == rest[i]);
        }
        if metadata::first_in_workspace(flat, key) is Some && flat[0].window_id != key {
            let i = choose|i: int|
                0 <= i < rest.len() && (#[trigger] rest[i]).pane_id == metadata::first_in_workspace(
                    rest,
                    key,
                )->0;
            assert(flat[i + 1] == rest[i]);
        }
    }
}

proof fn lemma_focused_is_placed(
    workspaces: Seq<HerdrWorkspace>,
    panes: Seq<PlacedPane>,
    focused: Option<String>,
)
    ensures
        focused_pane(workspaces, panes, focused) matches Some(pane) ==> pane_handles(
            panes,
        ).contains(pane),
    decreases panes.len(),
{
    if focused is Some && panes.len() > 0 {
        lemma_focused_is_placed(workspaces, panes.drop_last(), focused);
        assert(pane_handles(panes)[panes.len() - 1] == panes.last().pane);
        if placing::pane_at(workspaces, panes.last()).pane_id@ != focused->0@ && focused_pane(
            workspaces,
            panes,
            focused,
        ) is Some {
            let front = pane_handles(panes.drop_last());
            let i = choose|i: int|
                0 <= i < front.len() && front[i] == focused_pane(workspaces, panes, focused)->0;
            assert(pane_handles(panes)[i] == front[i]);
        }
    }
}

/// What a projection selects is a pane that it shows, with a native terminal.
pub proof fn law_the_selected_pane_is_shown(
    metadata: Metadata,
    p: PlacementView,
    mapping: Map<u64, u64>,
    fresh: Seq<u64>,
    viewport: (u16, u16),
    flat: Seq<PaneSnapshot>,
    old_selected: Option<u64>,
)
    requires
        snapshot::pane_views(flat) == flat_of(scene(metadata, p, mapping, fresh), viewport),
    ensures
        ({
            let s = scene(metadata, p, mapping, fresh);
            metadata::chosen_pane(
                s.remote,
                flat,
                old_selected,
                old_place(metadata.panes@, old_selected),
                s.preferred,
                s.active_group,
            ) matches Some(pane) ==> s.remote.contains_key(pane) && s.natives.contains_key(pane)
        }),
{
    let s = scene(metadata, p, mapping, fresh);
    let old_target = old_place(metadata.panes@, old_selected);
    lemma_pane_map(s.workspaces, s.panes);
    handles::law_assigned(mapping, pane_handles(s.panes), fresh);
    lemma_focused_is_placed(s.workspaces, s.panes, p.focused_pane);
    assert forall|i: int| 0 <= i < flat.len() implies pane_handles(s.panes).contains(
        (#[trigger] flat[i]).pane_id,
    ) by {
        let views = snapshot::pane_views(flat);
        assert(views.len() == flat.len());
        assert(views.len() == s.panes.len());
        assert(views[i] == flat[i]@);
        assert(views[i].pane_id == s.panes[i].pane);
        assert(pane_handles(s.panes)[i] == flat[i].pane_id);
    }
    if old_target is Some {
        lemma_first_is_flat(flat, s.remote, old_target->0.group);
        lemma_first_is_flat(flat, s.remote, old_target->0.workspace);
    }
    if s.active_group is Some {
        lemma_first_is_flat(flat, s.remote, s.active_group->0);
    }
}

/// A pane that had a native terminal keeps it.
pub proof fn law_known_panes_keep_their_terminal(
    metadata: Metadata,
    p: PlacementView,
    mapping: Map<u64, u64>,
    fresh: Seq<u64>,
    pane: u64,
)
    requires
        mapping.contains_key(pane),
    ensures
        scene(metadata, p, mapping, fresh).natives.contains_key(pane),
        scene(metadata, p, mapping, fresh).natives[pane] == mapping[pane],
{
    let panes = placing::placed_panes(handles::table(p.ids), p.workspaces);
    handles::law_assigned(mapping, pane_handles(panes), fresh);
}

} // verus!
