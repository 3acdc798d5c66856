//! The handles under which a Herdr runtime is shown, and what is selected.

use std::collections::{HashMap, HashSet};
use vstd::prelude::*;

use crate::workspace;
use crate::text;
use crate::bytes;
use crate::bytes::parse_signed_decimal;
use crate::text::{push_decimal, same_text};
use crate::tmux::snapshot::PaneSnapshot;
use crate::workspace::{RuntimeSnapshot, Terminal, TerminalGroup, TerminalGroupView, TerminalView};

verus! {

broadcast use vstd::std_specs::hash::group_hash_axioms;

/// The local handle of a remote workspace, tab or terminal.
#[derive(Clone, Debug, PartialEq, Eq)]
pub struct IdEntry {
    pub kind: u8,
    pub remote: String,
    pub handle: u64,
}

pub const WORKSPACE: u8 = 0x77;

pub const GROUP: u8 = 0x67;

pub const PANE: u8 = 0x70;

/// A remote pane behind a local handle.
#[derive(Debug, PartialEq, Eq)]
pub struct RemotePane {
    pub pane_id: String,
    pub terminal_id: String,
    pub workspace: u64,
    pub group: u64,
}

impl Clone for RemotePane {
    fn clone(&self) -> (r: Self)
        ensures
            r == *self,
    {
        RemotePane {
            pane_id: self.pane_id.clone(),
            terminal_id: self.terminal_id.clone(),
            workspace: self.workspace,
            group: self.group,
        }
    }
}

/// What a connection knows of its Herdr runtime.
pub struct Metadata {
    pub snapshot: RuntimeSnapshot,
    /// The handles; a remote id of one kind has one entry.
    pub ids: Vec<IdEntry>,
    pub workspaces: HashMap<u64, String>,
    pub groups: HashMap<u64, String>,
    pub panes: HashMap<u64, RemotePane>,
    /// Closing a pane or a tab of these workspaces may close others with it.
    pub linked_worktree_parents: HashSet<u64>,
    /// The selected group of each workspace.  It is kept apart from terminal
    /// selection, so that an empty group stays selectable.
    pub selected_groups: HashMap<u64, u64>,
    pub active_group: Option<u64>,
}

impl Default for Metadata {
    fn default() -> (r: Self)
        ensures
            r.snapshot.control@ == workspace::default_control(),
            r.snapshot.groups@.len() == 0,
            r.snapshot.workspaces@.len() == 0,
            r.snapshot.terminals@.len() == 0,
            r.ids@.len() == 0,
            r.workspaces@ == Map::<u64, String>::empty(),
            r.groups@ == Map::<u64, String>::empty(),
            r.panes@ == Map::<u64, RemotePane>::empty(),
            r.linked_worktree_parents@ == Set::<u64>::empty(),
            r.selected_groups@ == Map::<u64, u64>::empty(),
            r.active_group is None,
    {
        Metadata {
            snapshot: RuntimeSnapshot::default(),
            ids: Vec::new(),
            workspaces: HashMap::new(),
            groups: HashMap::new(),
            panes: HashMap::new(),
            linked_worktree_parents: HashSet::new(),
            selected_groups: HashMap::new(),
            active_group: None,
        }
    }
}

/// The handle that a shown id stands for.
pub open spec fn handle_in(id: Seq<char>) -> Option<u64> {
    match bytes::signed_decimal_number(text::utf8(id), u64::MAX as nat) {
        Some(n) => Some(n as u64),
        None => None,
    }
}

pub fn parse_handle(id: &str) -> (r: Option<u64>)
    ensures
        r == handle_in(id@),
{
    parse_signed_decimal(id.as_bytes(), u64::MAX)
}

pub fn handle_text(handle: u64) -> (r: String)
    ensures
        r@ == text::decimal(handle as nat),
{
    let mut id = String::new();
    push_decimal(&mut id, handle);
    assert(id@ =~= text::decimal(handle as nat));
    id
}

/// A shown handle reads back as the handle.
pub proof fn law_handles_read_back(handle: u64)
    ensures
        handle_in(text::decimal(handle as nat)) == Some(handle),
{
    crate::text::law_decimal_reads_back(handle as nat, u64::MAX as nat);
    let b = text::utf8(text::decimal(handle as nat));
    assert(b[0] != 0x2b);
}

/// The group is the selected one of its workspace.
pub open spec fn is_selected(group: TerminalGroupView, selected: Map<u64, u64>) -> bool {
    match handle_in(group.workspace_id) {
        Some(workspace) => selected.contains_key(workspace) && selected[workspace] == (
        match handle_in(group.id) {
            Some(handle) => handle,
            None => 0,
        }),
        None => false,
    }
}

/// The groups, each marked by whether it is selected.
pub open spec fn refreshed(groups: Seq<TerminalGroupView>, selected: Map<u64, u64>) -> Seq<
    TerminalGroupView,
> {
    Seq::new(
        groups.len(),
        |i: int| TerminalGroupView { selected: is_selected(groups[i], selected), ..groups[i] },
    )
}

/// The terminals, of which at most the one with this handle is selected.
pub open spec fn with_selected(terminals: Seq<TerminalView>, handle: Option<u64>) -> Seq<
    TerminalView,
> {
    Seq::new(
        terminals.len(),
        |i: int|
            TerminalView {
                selected: handle is Some && terminals[i].id == text::decimal(handle->0 as nat),
                ..terminals[i]
            },
    )
}

/// The first group that is shown under this id.
pub open spec fn group_at(groups: Seq<TerminalGroupView>, id: Seq<char>) -> Option<
    TerminalGroupView,
>
    decreases groups.len(),
{
    if groups.len() == 0 {
        None
    } else if groups[0].id == id {
        Some(groups[0])
    } else {
        group_at(groups.drop_first(), id)
    }
}

/// The workspace of a shown group.
pub open spec fn workspace_of_group(groups: Seq<TerminalGroupView>, group: u64) -> Option<u64> {
    match group_at(groups, text::decimal(group as nat)) {
        Some(found) => handle_in(found.workspace_id),
        None => None,
    }
}

pub fn find_group_workspace(groups: &Vec<TerminalGroup>, group: u64) -> (r: Option<u64>)
    ensures
        r == workspace_of_group(workspace::group_views(groups@), group),
{
    let id = handle_text(group);
    let ghost all = workspace::group_views(groups@);
    let mut i: usize = 0;
    assert(all.skip(0) == all);
    while i < groups.len()
        invariant
            i <= groups@.len(),
            all == workspace::group_views(groups@),
            id@ == text::decimal(group as nat),
            group_at(all.skip(i as int), id@) == group_at(all, id@),
        decreases groups@.len() - i,
    {
        assert(all.skip(i as int)[0] == groups@[i as int]@);
        assert(all.skip(i as int).drop_first() == all.skip(i + 1));
        if same_text(groups[i].id.as_str(), id.as_str()) {
            return parse_handle(groups[i].workspace_id.as_str());
        }
        i = i + 1;
    }
    None
}

fn refreshed_copy(groups: &Vec<TerminalGroup>, selected: &HashMap<u64, u64>) -> (r: Vec<
    TerminalGroup,
>)
    ensures
        workspace::group_views(r@) == refreshed(workspace::group_views(groups@), selected@),
{
    let mut out: Vec<TerminalGroup> = Vec::new();
    let mut i: usize = 0;
    while i < groups.len()
        invariant
            i <= groups@.len(),
            out@.len() == i,
            forall|j: int|
                0 <= j < i ==> (#[trigger] out@[j])@ == refreshed(
                    workspace::group_views(groups@),
                    selected@,
                )[j],
        decreases groups@.len() - i,
    {
        let mut group = groups[i].clone();
        let mark = match parse_handle(group.workspace_id.as_str()) {
            Some(workspace) => match selected.get(&workspace) {
                Some(chosen) => {
                    let own: u64 = match parse_handle(group.id.as_str()) {
                        Some(handle) => handle,
                        None => 0,
                    };
                    *chosen == own
                },
                None => false,
            },
            None => false,
        };
        group.selected = mark;
        out.push(group);
        i = i + 1;
    }
    assert(workspace::group_views(out@) =~= refreshed(workspace::group_views(groups@), selected@));
    out
}

fn selected_copy(terminals: &Vec<Terminal>, handle: Option<u64>) -> (r: Vec<Terminal>)
    ensures
        workspace::terminal_views(r@) == with_selected(workspace::terminal_views(terminals@), handle),
{
    let mut out: Vec<Terminal> = Vec::new();
    let mut i: usize = 0;
    while i < terminals.len()
        invariant
            i <= terminals@.len(),
            out@.len() == i,
            forall|j: int|
                0 <= j < i ==> (#[trigger] out@[j])@ == with_selected(
                    workspace::terminal_views(terminals@),
                    handle,
                )[j],
        decreases terminals@.len() - i,
    {
        let mut terminal = terminals[i].clone();
        terminal.selected = match handle {
            Some(handle) => {
                let id = handle_text(handle);
                same_text(terminal.id.as_str(), id.as_str())
            },
            None => false,
        };
        out.push(terminal);
        i = i + 1;
    }
    assert(workspace::terminal_views(out@) =~= with_selected(workspace::terminal_views(terminals@), handle));
    out
}

/// Everything but the selection and its marks.
pub open spec fn same_runtime(a: Metadata, b: Metadata) -> bool {
    &&& a.ids == b.ids
    &&& a.workspaces == b.workspaces
    &&& a.groups == b.groups
    &&& a.panes == b.panes
    &&& a.linked_worktree_parents == b.linked_worktree_parents
    &&& a.snapshot.control == b.snapshot.control
    &&& a.snapshot.backend == b.snapshot.backend
    &&& a.snapshot.runtime == b.snapshot.runtime
    &&& a.snapshot.groups_supported == b.snapshot.groups_supported
    &&& a.snapshot.workspaces == b.snapshot.workspaces
}

/// The selected groups once a pane is selected: its group becomes the one of
/// its workspace.
pub open spec fn groups_with_pane(
    selected: Map<u64, u64>,
    panes: Map<u64, RemotePane>,
    pane: u64,
) -> Map<u64, u64> {
    if panes.contains_key(pane) {
        selected.insert(panes[pane].workspace, panes[pane].group)
    } else {
        selected
    }
}

impl Metadata {
    /// Marks the groups by the selection.
    pub fn refresh_group_selection(&mut self)
        ensures
            same_runtime(*final(self), *old(self)),
            final(self).selected_groups == old(self).selected_groups,
            final(self).active_group == old(self).active_group,
            final(self).snapshot.terminals == old(self).snapshot.terminals,
            workspace::group_views(final(self).snapshot.groups@) == refreshed(
                workspace::group_views(old(self).snapshot.groups@),
                old(self).selected_groups@,
            ),
    {
        let groups = refreshed_copy(&self.snapshot.groups, &self.selected_groups);
        self.snapshot.groups = groups;
    }

    /// Takes the selection off every terminal.
    pub fn deselect_terminals(&mut self)
        ensures
            same_runtime(*final(self), *old(self)),
            final(self).selected_groups == old(self).selected_groups,
            final(self).active_group == old(self).active_group,
            final(self).snapshot.groups == old(self).snapshot.groups,
            workspace::terminal_views(final(self).snapshot.terminals@) == with_selected(
                workspace::terminal_views(old(self).snapshot.terminals@),
                None,
            ),
    {
        let terminals = selected_copy(&self.snapshot.terminals, None);
        self.snapshot.terminals = terminals;
    }

    /// Selects a pane, and with it its group.
    pub fn select(&mut self, pane: u64)
        ensures
            same_runtime(*final(self), *old(self)),
            final(self).selected_groups@ == groups_with_pane(
                old(self).selected_groups@,
                old(self).panes@,
                pane,
            ),
            final(self).active_group == (if old(self).panes@.contains_key(pane) {
                Some(old(self).panes@[pane].group)
            } else {
                old(self).active_group
            }),
            workspace::terminal_views(final(self).snapshot.terminals@) == with_selected(
                workspace::terminal_views(old(self).snapshot.terminals@),
                Some(pane),
            ),
            workspace::group_views(final(self).snapshot.groups@) == refreshed(
                workspace::group_views(old(self).snapshot.groups@),
                final(self).selected_groups@,
            ),
    {
        let found: Option<(u64, u64)> = match self.panes.get(&pane) {
            Some(remote) => Some((remote.workspace, remote.group)),
            None => None,
        };
        match found {
            Some((workspace, group)) => {
                self.selected_groups.insert(workspace, group);
                self.active_group = Some(group);
            },
            None => {},
        }
        let terminals = selected_copy(&self.snapshot.terminals, Some(pane));
        self.snapshot.terminals = terminals;
        self.refresh_group_selection();
    }

    /// Selects a group on its own.  No terminal stays selected, so that an
    /// empty group is shown as selected.
    pub fn select_group(&mut self, group: u64)
        ensures
            same_runtime(*final(self), *old(self)),
            match workspace_of_group(workspace::group_views(old(self).snapshot.groups@), group) {
                Some(workspace) => {
                    &&& final(self).selected_groups@ == old(self).selected_groups@.insert(
                        workspace,
                        group,
                    )
                    &&& final(self).active_group == Some(group)
                    &&& workspace::terminal_views(final(self).snapshot.terminals@) == with_selected(
                        workspace::terminal_views(old(self).snapshot.terminals@),
                        None,
                    )
                    &&& workspace::group_views(final(self).snapshot.groups@) == refreshed(
                        workspace::group_views(old(self).snapshot.groups@),
                        final(self).selected_groups@,
                    )
                },
                None => *final(self) == *old(self),
            },
    {
        let workspace: u64 = match find_group_workspace(&self.snapshot.groups, group) {
            Some(workspace) => workspace,
            None => {
                return ;
            },
        };
        self.selected_groups.insert(workspace, group);
        self.active_group = Some(group);
        self.deselect_terminals();
        self.refresh_group_selection();
    }

    pub fn active_group(&self) -> (r: Option<u64>)
        ensures
            r == self.active_group,
    {
        self.active_group
    }
}

/// Only the last marking counts.
pub proof fn lemma_refreshed_twice(
    groups: Seq<TerminalGroupView>,
    a: Map<u64, u64>,
    b: Map<u64, u64>,
)
    ensures
        refreshed(refreshed(groups, a), b) == refreshed(groups, b),
{
    assert(refreshed(refreshed(groups, a), b) =~= refreshed(groups, b));
}

pub proof fn lemma_selected_twice(
    terminals: Seq<TerminalView>,
    a: Option<u64>,
    b: Option<u64>,
)
    ensures
        with_selected(with_selected(terminals, a), b) == with_selected(terminals, b),
{
    assert(with_selected(with_selected(terminals, a), b) =~= with_selected(terminals, b));
}

/// Of one workspace at most one group is marked as selected, as long as the
/// groups are shown under different handles.
pub proof fn law_one_group_is_selected(
    groups: Seq<TerminalGroupView>,
    selected: Map<u64, u64>,
    i: int,
    j: int,
)
    requires
        0 <= i < j < groups.len(),
        groups[i].workspace_id == groups[j].workspace_id,
        handle_in(groups[i].id) is Some,
        handle_in(groups[j].id) is Some,
        handle_in(groups[i].id) != handle_in(groups[j].id),
    ensures
        !(refreshed(groups, selected)[i].selected && refreshed(groups, selected)[j].selected),
{
}

/// Selecting a group, even an empty one, makes it the marked one of its
/// workspace and leaves the marks of other workspaces as they were.
pub proof fn law_selecting_a_group_keeps_other_workspaces(
    groups: Seq<TerminalGroupView>,
    selected: Map<u64, u64>,
    workspace: u64,
    group: u64,
    i: int,
)
    requires
        0 <= i < groups.len(),
    ensures
        handle_in(groups[i].workspace_id) != Some(workspace) ==> refreshed(
            groups,
            selected.insert(workspace, group),
        )[i] == refreshed(groups, selected)[i],
        handle_in(groups[i].workspace_id) == Some(workspace) && handle_in(groups[i].id) is Some
            ==> refreshed(groups, selected.insert(workspace, group))[i].selected == (handle_in(
            groups[i].id,
        ) == Some(group)),
{
}

/// The group to select in a workspace: the local choice, else the group that
/// was marked, else the focused one, else the first; each only if it exists.
pub open spec fn chosen_group(
    groups: Seq<u64>,
    local: Option<u64>,
    marked: Option<u64>,
    focused: Option<u64>,
) -> Option<u64> {
    if local is Some && groups.contains(local->0) {
        local
    } else if marked is Some && groups.contains(marked->0) {
        marked
    } else if focused is Some && groups.contains(focused->0) {
        focused
    } else if groups.len() > 0 {
        Some(groups[0])
    } else {
        None
    }
}

fn holds(groups: &[u64], group: Option<u64>) -> (r: bool)
    ensures
        r == (group is Some && groups@.contains(group->0)),
{
    let wanted: u64 = match group {
        Some(wanted) => wanted,
        None => {
            return false;
        },
    };
    let mut i: usize = 0;
    while i < groups.len()
        invariant
            i <= groups@.len(),
            group == Some(wanted),
            forall|j: int| 0 <= j < i ==> groups@[j] != wanted,
        decreases groups@.len() - i,
    {
        if groups[i] == wanted {
            assert(groups@[i as int] == wanted);
            return true;
        }
        i = i + 1;
    }
    false
}

pub fn choose_selected_group(
    groups: &[u64],
    local: Option<u64>,
    legacy_flag: Option<u64>,
    focused: Option<u64>,
) -> (r: Option<u64>)
    ensures
        r == chosen_group(groups@, local, legacy_flag, focused),
{
    if holds(groups, local) {
        local
    } else if holds(groups, legacy_flag) {
        legacy_flag
    } else if holds(groups, focused) {
        focused
    } else if groups.len() > 0 {
        Some(groups[0])
    } else {
        None
    }
}

/// The first shown pane of a group.
pub open spec fn first_in_group(
    flat: Seq<PaneSnapshot>,
    panes: Map<u64, RemotePane>,
    group: u64,
) -> Option<u64>
    decreases flat.len(),
{
    if flat.len() == 0 {
        None
    } else if panes[flat[0].pane_id].group == group {
        Some(flat[0].pane_id)
    } else {
        first_in_group(flat.drop_first(), panes, group)
    }
}

/// The first shown pane of a workspace.
pub open spec fn first_in_workspace(flat: Seq<PaneSnapshot>, workspace: u64) -> Option<u64>
    decreases flat.len(),
{
    if flat.len() == 0 {
        None
    } else if flat[0].window_id == workspace {
        Some(flat[0].pane_id)
    } else {
        first_in_workspace(flat.drop_first(), workspace)
    }
}

/// A place in the runtime.
#[derive(Debug, PartialEq, Eq)]
pub struct Place {
    pub workspace: u64,
    pub group: u64,
}

/// The pane to select: the one that was selected, while it exists; else one
/// of its group, as long as no other group is selected; else, without a
/// selected group, one of its workspace; else the preferred one, where it is
/// in the selected group; else the first of the selected group.  Without a
/// selected group, any first pane.  An empty selected group selects no pane.
pub open spec fn chosen_pane(
    panes: Map<u64, RemotePane>,
    flat: Seq<PaneSnapshot>,
    old_selected: Option<u64>,
    old_target: Option<Place>,
    preferred: Option<u64>,
    group: Option<u64>,
) -> Option<u64> {
    let kept_group = old_target is Some && (group is None || group->0 == old_target->0.group);
    if old_selected is Some && panes.contains_key(old_selected->0) {
        old_selected
    } else if kept_group && first_in_group(flat, panes, old_target->0.group) is Some {
        first_in_group(flat, panes, old_target->0.group)
    } else if group is None && old_target is Some && first_in_workspace(
        flat,
        old_target->0.workspace,
    ) is Some {
        first_in_workspace(flat, old_target->0.workspace)
    } else if preferred is Some && (group is None || (panes.contains_key(preferred->0)
        && panes[preferred->0].group == group->0)) {
        preferred
    } else if group is Some {
        first_in_group(flat, panes, group->0)
    } else if flat.len() > 0 {
        Some(flat[0].pane_id)
    } else {
        None
    }
}

fn find_in_group(flat: &[PaneSnapshot], panes: &HashMap<u64, RemotePane>, group: u64) -> (r: Option<
    u64,
>)
    requires
        forall|i: int|
            0 <= i < flat@.len() ==> panes@.contains_key((#[trigger] flat@[i]).pane_id),
    ensures
        r == first_in_group(flat@, panes@, group),
{
    let mut i: usize = 0;
    assert(flat@.skip(0) == flat@);
    while i < flat.len()
        invariant
            i <= flat@.len(),
            forall|j: int|
                0 <= j < flat@.len() ==> panes@.contains_key((#[trigger] flat@[j]).pane_id),
            first_in_group(flat@.skip(i as int), panes@, group) == first_in_group(
                flat@,
                panes@,
                group,
            ),
        decreases flat@.len() - i,
    {
        assert(flat@.skip(i as int).drop_first() == flat@.skip(i + 1));
        assert(panes@.contains_key(flat@[i as int].pane_id));
        match panes.get(&flat[i].pane_id) {
            Some(remote) => {
                if remote.group == group {
                    return Some(flat[i].pane_id);
                }
            },
            None => {},
        }
        i = i + 1;
    }
    None
}

fn find_in_workspace(flat: &[PaneSnapshot], workspace: u64) -> (r: Option<u64>)
    ensures
        r == first_in_workspace(flat@, workspace),
{
    let mut i: usize = 0;
    assert(flat@.skip(0) == flat@);
    while i < flat.len()
        invariant
            i <= flat@.len(),
            first_in_workspace(flat@.skip(i as int), workspace) == first_in_workspace(
                flat@,
                workspace,
            ),
        decreases flat@.len() - i,
    {
        assert(flat@.skip(i as int).drop_first() == flat@.skip(i + 1));
        if flat[i].window_id == workspace {
            return Some(flat[i].pane_id);
        }
        i = i + 1;
    }
    None
}

/// Where the pane that was selected stood.
pub open spec fn place(target: Option<&RemotePane>) -> Option<Place> {
    match target {
        Some(remote) => Some(Place { workspace: remote.workspace, group: remote.group }),
        None => None,
    }
}

pub fn choose_selected_pane(
    metadata: &Metadata,
    flat: &[PaneSnapshot],
    old_selected: Option<u64>,
    old_target: Option<&RemotePane>,
    preferred: Option<u64>,
    selected_group: Option<u64>,
) -> (r: Option<u64>)
    requires
        forall|i: int|
            0 <= i < flat@.len() ==> metadata.panes@.contains_key((#[trigger] flat@[i]).pane_id),
    ensures
        r == chosen_pane(
            metadata.panes@,
            flat@,
            old_selected,
            place(old_target),
            preferred,
            selected_group,
        ),
{
    match old_selected {
        Some(pane) => {
            if metadata.panes.contains_key(&pane) {
                return old_selected;
            }
        },
        None => {},
    }
    match old_target {
        Some(old) => {
            let kept = match selected_group {
                Some(group) => group == old.group,
                None => true,
            };
            if kept {
                let in_group = find_in_group(flat, &metadata.panes, old.group);
                if in_group.is_some() {
                    return in_group;
                }
            }
            if selected_group.is_none() {
                let in_workspace = find_in_workspace(flat, old.workspace);
                if in_workspace.is_some() {
                    return in_workspace;
                }
            }
        },
        None => {},
    }
    match preferred {
        Some(pane) => {
            let fits = match selected_group {
                Some(group) => match metadata.panes.get(&pane) {
                    Some(remote) => remote.group == group,
                    None => false,
                },
                None => true,
            };
            if fits {
                return preferred;
            }
        },
        None => {},
    }
    match selected_group {
        Some(group) => find_in_group(flat, &metadata.panes, group),
        None => if flat.len() > 0 {
            Some(flat[0].pane_id)
        } else {
            None
        },
    }
}

/// A group that is selected and empty selects no pane, unless the pane that
/// was selected is still there: a pane of another group never steps in,
/// wherever the lost pane stood and whichever pane is preferred.
pub proof fn law_an_empty_group_borrows_no_pane(
    panes: Map<u64, RemotePane>,
    flat: Seq<PaneSnapshot>,
    old_selected: Option<u64>,
    old_target: Option<Place>,
    preferred: Option<u64>,
    group: u64,
)
    requires
        forall|id: u64| #[trigger] panes.contains_key(id) ==> panes[id].group != group,
        forall|i: int| 0 <= i < flat.len() ==> panes.contains_key((#[trigger] flat[i]).pane_id),
        old_selected is None || !panes.contains_key(old_selected->0),
    ensures
        chosen_pane(panes, flat, old_selected, old_target, preferred, Some(group)) is None,
{
    lemma_no_pane_in_group(flat, panes, group);
}

proof fn lemma_no_pane_in_group(
    flat: Seq<PaneSnapshot>,
    panes: Map<u64, RemotePane>,
    group: u64,
)
    requires
        forall|id: u64| #[trigger] panes.contains_key(id) ==> panes[id].group != group,
        forall|i: int| 0 <= i < flat.len() ==> panes.contains_key((#[trigger] flat[i]).pane_id),
    ensures
        first_in_group(flat, panes, group) is None,
    decreases flat.len(),
{
    if flat.len() > 0 {
        assert(panes.contains_key(flat[0].pane_id));
        assert forall|i: int|
            0 <= i < flat.drop_first().len() implies panes.contains_key(
            (#[trigger] flat.drop_first()[i]).pane_id,
        ) by {
            assert(flat.drop_first()[i] == flat[i + 1]);
        }
        lemma_no_pane_in_group(flat.drop_first(), panes, group);
    }
}

} // verus!
