//! The session state that the controllers share with the control plane.

use std::collections::HashMap;
use vstd::prelude::*;

use crate::ssh::herdr::metadata::{Metadata, RemotePane};
use crate::tmux::records::SessionIdentity;
use crate::tmux::snapshot::SessionSnapshot;
use crate::workspace::{RecoveryPhase, RecoverySnapshot, RuntimeDiscoverySnapshot};

verus! {

/// The runtime that a picker row stands for.
#[derive(Debug, PartialEq, Eq)]
pub enum RuntimeBinding {
    Tmux(SessionIdentity),
    Herdr { name: String, default: bool, executable: String },
}

/// A picker row by its native-owned id.
#[derive(Debug, PartialEq, Eq)]
pub struct BoundCandidate {
    pub id: String,
    pub binding: RuntimeBinding,
}

/// Which runtime a connection is for, as far as it is known.
#[derive(Debug, PartialEq, Eq)]
pub struct ConnectionProfile {
    /// The runtime's name; none for the default one.
    pub runtime: Option<String>,
    pub tmux_identity: Option<SessionIdentity>,
    /// The Herdr executable that was found on the host.
    pub herdr_executable: Option<String>,
}

fn copied(text: &Option<String>) -> (r: Option<String>)
    ensures
        r == *text,
{
    match text {
        Some(text) => Some(text.clone()),
        None => None,
    }
}

impl Clone for ConnectionProfile {
    fn clone(&self) -> (r: Self)
        ensures
            r == *self,
    {
        ConnectionProfile {
            runtime: copied(&self.runtime),
            tmux_identity: match &self.tmux_identity {
                Some(identity) => Some(identity.clone()),
                None => None,
            },
            herdr_executable: copied(&self.herdr_executable),
        }
    }
}

impl Default for ConnectionProfile {
    fn default() -> (r: Self)
        ensures
            r == (ConnectionProfile {
                runtime: None,
                tmux_identity: None,
                herdr_executable: None,
            }),
    {
        ConnectionProfile { runtime: None, tmux_identity: None, herdr_executable: None }
    }
}

/// What one connection shows and owns.
pub struct SessionState {
    pub generation: u64,
    pub operation_epoch: u64,
    pub snapshot: SessionSnapshot,
    /// The native terminal of each remote pane.
    pub pane_terminals: HashMap<u64, u64>,
    pub selected_pane: Option<u64>,
    /// Whether the zoom of `meeterm_zoomed_window` is ours to restore.
    pub meeterm_zoomed: bool,
    pub meeterm_zoomed_window: Option<u64>,
    pub meeterm_zoomed_pane: Option<u64>,
    pub viewport: Option<(u16, u16)>,
    pub recovery: RecoverySnapshot,
    pub runtime_operations_ready: bool,
    pub terminal_input_ready: bool,
    pub terminal_visible: bool,
    pub recovery_terminal_id: Option<String>,
    pub recovery_group_id: Option<u64>,
    /// What is known of a Herdr runtime.
    pub herdr: Metadata,
    pub runtime_discovery: RuntimeDiscoverySnapshot,
    pub runtime_candidates: Vec<BoundCandidate>,
    /// What the connection may connect to again.
    pub profile: Option<ConnectionProfile>,
}

impl Default for SessionState {
    fn default() -> (r: Self)
        ensures
            r.generation == 0,
            r.operation_epoch == 0,
            r.snapshot.windows@.len() == 0,
            r.snapshot.panes@.len() == 0,
            r.snapshot.selected_pane is None,
            r.pane_terminals@ == Map::<u64, u64>::empty(),
            r.selected_pane is None,
            !r.meeterm_zoomed,
            r.meeterm_zoomed_window is None,
            r.meeterm_zoomed_pane is None,
            r.viewport is None,
            r.recovery.phase == RecoveryPhase::Inactive,
            !r.runtime_operations_ready,
            !r.terminal_input_ready,
            !r.terminal_visible,
            r.recovery_terminal_id is None,
            r.recovery_group_id is None,
            r.herdr.snapshot.groups@.len() == 0,
            r.herdr.ids@.len() == 0,
            r.herdr.panes@ == Map::<u64, RemotePane>::empty(),
            r.herdr.selected_groups@ == Map::<u64, u64>::empty(),
            r.herdr.active_group is None,
            r.runtime_discovery.discovery_revision == 0,
            r.runtime_candidates@.len() == 0,
            r.profile is None,
    {
        SessionState {
            generation: 0,
            operation_epoch: 0,
            snapshot: SessionSnapshot::default(),
            pane_terminals: HashMap::new(),
            selected_pane: None,
            meeterm_zoomed: false,
            meeterm_zoomed_window: None,
            meeterm_zoomed_pane: None,
            viewport: None,
            recovery: RecoverySnapshot::default(),
            runtime_operations_ready: false,
            terminal_input_ready: false,
            terminal_visible: false,
            recovery_terminal_id: None,
            recovery_group_id: None,
            herdr: Metadata::default(),
            runtime_discovery: RuntimeDiscoverySnapshot::default(),
            runtime_candidates: Vec::new(),
            profile: None,
        }
    }
}

/// Everything but the tmux selection, topology and zoom ownership.
pub open spec fn same_lifecycle(a: SessionState, b: SessionState) -> bool {
    &&& a.generation == b.generation
    &&& a.operation_epoch == b.operation_epoch
    &&& a.viewport == b.viewport
    &&& a.recovery == b.recovery
    &&& a.runtime_operations_ready == b.runtime_operations_ready
    &&& a.terminal_input_ready == b.terminal_input_ready
    &&& a.terminal_visible == b.terminal_visible
    &&& a.recovery_terminal_id == b.recovery_terminal_id
    &&& a.recovery_group_id == b.recovery_group_id
    &&& a.herdr == b.herdr
    &&& a.runtime_discovery == b.runtime_discovery
    &&& a.runtime_candidates == b.runtime_candidates
    &&& a.profile == b.profile
}

/// The zoom that meeterm owns: whether, in which window, through which pane.
pub open spec fn zoom_ownership(s: SessionState) -> (bool, Option<u64>, Option<u64>) {
    (s.meeterm_zoomed, s.meeterm_zoomed_window, s.meeterm_zoomed_pane)
}

} // verus!
