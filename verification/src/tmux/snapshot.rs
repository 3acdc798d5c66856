//! Low-frequency tmux state exposed to the control bridge.

use vstd::prelude::*;

verus! {

/// The most sessions that runtime discovery lists.
pub const MAX_RUNTIME_SESSIONS: usize = 256;

/// `panes` is a flat view for list rendering; `windows` retains the window
/// and pane hierarchy.
#[derive(Debug, PartialEq, Eq)]
pub struct SessionSnapshot {
    pub windows: Vec<WindowSnapshot>,
    pub panes: Vec<PaneSnapshot>,
    pub selected_pane: Option<u64>,
}

#[derive(Debug, PartialEq, Eq)]
pub struct WindowSnapshot {
    pub window_id: u64,
    pub name: String,
    pub panes: Vec<PaneSnapshot>,
    pub selected: bool,
    pub zoomed: bool,
}

#[derive(Debug, PartialEq, Eq)]
pub struct PaneSnapshot {
    pub window_id: u64,
    pub pane_id: u64,
    pub terminal_id: u64,
    pub window_name: String,
    /// The pane selected inside its own window; `selected` is the one pane
    /// that the mobile client selected.
    pub active: bool,
    pub selected: bool,
    pub index: u32,
    pub columns: u16,
    pub rows: u16,
    /// The pane title, shown as the name of the terminal tab.
    pub pane_name: String,
    /// An alias retained for older callers.
    pub title: String,
}

#[verifier::ext_equal]
pub struct SessionSnapshotView {
    pub windows: Seq<WindowSnapshotView>,
    pub panes: Seq<PaneSnapshotView>,
    pub selected_pane: Option<u64>,
}

#[verifier::ext_equal]
pub struct WindowSnapshotView {
    pub window_id: u64,
    pub name: Seq<char>,
    pub panes: Seq<PaneSnapshotView>,
    pub selected: bool,
    pub zoomed: bool,
}

#[verifier::ext_equal]
pub struct PaneSnapshotView {
    pub window_id: u64,
    pub pane_id: u64,
    pub terminal_id: u64,
    pub window_name: Seq<char>,
    pub active: bool,
    pub selected: bool,
    pub index: u32,
    pub columns: u16,
    pub rows: u16,
    pub pane_name: Seq<char>,
    pub title: Seq<char>,
}

pub open spec fn pane_views(panes: Seq<PaneSnapshot>) -> Seq<PaneSnapshotView> {
    Seq::new(panes.len(), |i: int| panes[i]@)
}

pub open spec fn window_views(windows: Seq<WindowSnapshot>) -> Seq<WindowSnapshotView> {
    Seq::new(windows.len(), |i: int| windows[i]@)
}

impl View for PaneSnapshot {
    type V = PaneSnapshotView;

    open spec fn view(&self) -> PaneSnapshotView {
        PaneSnapshotView {
            window_id: self.window_id,
            pane_id: self.pane_id,
            terminal_id: self.terminal_id,
            window_name: self.window_name@,
            active: self.active,
            selected: self.selected,
            index: self.index,
            columns: self.columns,
            rows: self.rows,
            pane_name: self.pane_name@,
            title: self.title@,
        }
    }
}

impl View for WindowSnapshot {
    type V = WindowSnapshotView;

    open spec fn view(&self) -> WindowSnapshotView {
        WindowSnapshotView {
            window_id: self.window_id,
            name: self.name@,
            panes: pane_views(self.panes@),
            selected: self.selected,
            zoomed: self.zoomed,
        }
    }
}

impl View for SessionSnapshot {
    type V = SessionSnapshotView;

    open spec fn view(&self) -> SessionSnapshotView {
        SessionSnapshotView {
            windows: window_views(self.windows@),
            panes: pane_views(self.panes@),
            selected_pane: self.selected_pane,
        }
    }
}

impl Clone for PaneSnapshot {
    fn clone(&self) -> (r: Self)
        ensures
            r == *self,
    {
        PaneSnapshot {
            window_id: self.window_id,
            pane_id: self.pane_id,
            terminal_id: self.terminal_id,
            window_name: self.window_name.clone(),
            active: self.active,
            selected: self.selected,
            index: self.index,
            columns: self.columns,
            rows: self.rows,
            pane_name: self.pane_name.clone(),
            title: self.title.clone(),
        }
    }
}

impl Clone for WindowSnapshot {
    fn clone(&self) -> (r: Self)
        ensures
            r@ == self@,
    {
        let panes = self.panes.clone();
        assert(pane_views(panes@) =~= pane_views(self.panes@));
        WindowSnapshot {
            window_id: self.window_id,
            name: self.name.clone(),
            panes,
            selected: self.selected,
            zoomed: self.zoomed,
        }
    }
}

impl Clone for SessionSnapshot {
    fn clone(&self) -> (r: Self)
        ensures
            r@ == self@,
    {
        let windows = self.windows.clone();
        assert(window_views(windows@) =~= window_views(self.windows@));
        let panes = self.panes.clone();
        assert(pane_views(panes@) =~= pane_views(self.panes@));
        SessionSnapshot { windows, panes, selected_pane: self.selected_pane }
    }
}

impl Default for SessionSnapshot {
    fn default() -> (r: Self)
        ensures
            r.windows@.len() == 0,
            r.panes@.len() == 0,
            r.selected_pane is None,
    {
        SessionSnapshot { windows: Vec::new(), panes: Vec::new(), selected_pane: None }
    }
}

} // verus!
