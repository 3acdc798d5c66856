//! Backend-independent, low-frequency control-plane metadata.
//!
//! IDs are opaque to the UI and are resolved only inside the owning
//! connection and runtime.  Native terminal handles have a separate lifetime.

use vstd::prelude::*;
use vstd::string::*;

use crate::text;
use crate::text::{push_decimal, same_text};
use crate::tmux::snapshot::{PaneSnapshot, SessionSnapshot, WindowSnapshot};

verus! {

/// The bounded recovery budget shared by the actor and its control contract.
pub const DEFAULT_RECOVERY_MAX_ATTEMPTS: u32 = 6;

#[derive(Clone, Copy, Debug, PartialEq, Eq, Structural)]
pub enum Backend {
    Tmux,
    Herdr,
}

impl Default for Backend {
    fn default() -> (r: Self)
        ensures
            r == Backend::Tmux,
    {
        Backend::Tmux
    }
}

impl Backend {
    pub fn parse(value: &str) -> (r: Option<Self>)
        ensures
            r == Some(Backend::Tmux) <==> value@ == "tmux"@,
            r == Some(Backend::Herdr) <==> value@ == "herdr"@,
    {
        proof {
            reveal_strlit("tmux");
            reveal_strlit("herdr");
            assert("tmux"@.len() != "herdr"@.len());
        }
        if same_text(value, "tmux") {
            Some(Backend::Tmux)
        } else if same_text(value, "herdr") {
            Some(Backend::Herdr)
        } else {
            None
        }
    }
}

/// The state of one backend's runtime list.
#[derive(Clone, Copy, Debug, PartialEq, Eq, Structural)]
pub enum RuntimeSectionState {
    Loading,
    Success,
    Empty,
    Error,
}

impl Default for RuntimeSectionState {
    fn default() -> (r: Self)
        ensures
            r == RuntimeSectionState::Loading,
    {
        RuntimeSectionState::Loading
    }
}

#[derive(Clone, Copy, Debug, PartialEq, Eq, Structural)]
pub enum RuntimeState {
    Running,
    Stopped,
    Unknown,
}

impl Default for RuntimeState {
    fn default() -> (r: Self)
        ensures
            r == RuntimeState::Running,
    {
        RuntimeState::Running
    }
}

/// Where a recovery stands.  It can describe a retained screen while the
/// connection is being rebuilt.
#[derive(Clone, Copy, Debug, PartialEq, Eq, Structural)]
pub enum RecoveryPhase {
    Inactive,
    Reconnecting,
    AwaitingConfirmation,
    Resynchronizing,
    Stopped,
}

impl Default for RecoveryPhase {
    fn default() -> (r: Self)
        ensures
            r == RecoveryPhase::Inactive,
    {
        RecoveryPhase::Inactive
    }
}

#[derive(Debug, PartialEq, Eq)]
pub struct RecoverySnapshot {
    pub phase: RecoveryPhase,
    /// A stable, sanitized snake_case reason.
    pub reason: String,
    pub attempt: u32,
    pub max_attempts: u32,
    /// Opaque, bounded, native-scoped confirmation material.  It is empty
    /// outside of awaiting confirmation.
    pub confirmation_token: String,
}

#[verifier::ext_equal]
pub struct RecoveryView {
    pub phase: RecoveryPhase,
    pub reason: Seq<char>,
    pub attempt: u32,
    pub max_attempts: u32,
    pub confirmation_token: Seq<char>,
}

impl View for RecoverySnapshot {
    type V = RecoveryView;

    open spec fn view(&self) -> RecoveryView {
        RecoveryView {
            phase: self.phase,
            reason: self.reason@,
            attempt: self.attempt,
            max_attempts: self.max_attempts,
            confirmation_token: self.confirmation_token@,
        }
    }
}

/// No recovery.
pub open spec fn no_recovery() -> RecoveryView {
    RecoveryView {
        phase: RecoveryPhase::Inactive,
        reason: seq![],
        attempt: 0,
        max_attempts: DEFAULT_RECOVERY_MAX_ATTEMPTS,
        confirmation_token: seq![],
    }
}

impl Clone for RecoverySnapshot {
    fn clone(&self) -> (r: Self)
        ensures
            r == *self,
    {
        RecoverySnapshot {
            phase: self.phase,
            reason: self.reason.clone(),
            attempt: self.attempt,
            max_attempts: self.max_attempts,
            confirmation_token: self.confirmation_token.clone(),
        }
    }
}

impl Default for RecoverySnapshot {
    fn default() -> (r: Self)
        ensures
            r@ == no_recovery(),
    {
        RecoverySnapshot {
            phase: RecoveryPhase::Inactive,
            reason: String::new(),
            attempt: 0,
            max_attempts: DEFAULT_RECOVERY_MAX_ATTEMPTS,
            confirmation_token: String::new(),
        }
    }
}

/// Lifecycle controls beside the authoritative topology.  The epoch is a
/// decimal string because it must remain exact in JavaScript.
#[derive(Debug, PartialEq, Eq)]
pub struct RuntimeControlSnapshot {
    pub operation_epoch: String,
    pub has_retained_work: bool,
    pub runtime_operations_ready: bool,
    pub terminal_input_ready: bool,
    pub recovery: RecoverySnapshot,
}

#[verifier::ext_equal]
pub struct RuntimeControlView {
    pub operation_epoch: Seq<char>,
    pub has_retained_work: bool,
    pub runtime_operations_ready: bool,
    pub terminal_input_ready: bool,
    pub recovery: RecoveryView,
}

impl View for RuntimeControlSnapshot {
    type V = RuntimeControlView;

    open spec fn view(&self) -> RuntimeControlView {
        RuntimeControlView {
            operation_epoch: self.operation_epoch@,
            has_retained_work: self.has_retained_work,
            runtime_operations_ready: self.runtime_operations_ready,
            terminal_input_ready: self.terminal_input_ready,
            recovery: self.recovery@,
        }
    }
}

/// Nothing retained, nothing ready, epoch zero, no recovery.
pub open spec fn default_control() -> RuntimeControlView {
    RuntimeControlView {
        operation_epoch: "0"@,
        has_retained_work: false,
        runtime_operations_ready: false,
        terminal_input_ready: false,
        recovery: no_recovery(),
    }
}

impl Clone for RuntimeControlSnapshot {
    fn clone(&self) -> (r: Self)
        ensures
            r == *self,
    {
        RuntimeControlSnapshot {
            operation_epoch: self.operation_epoch.clone(),
            has_retained_work: self.has_retained_work,
            runtime_operations_ready: self.runtime_operations_ready,
            terminal_input_ready: self.terminal_input_ready,
            recovery: self.recovery.clone(),
        }
    }
}

impl Default for RuntimeControlSnapshot {
    fn default() -> (r: Self)
        ensures
            r@ == default_control(),
    {
        RuntimeControlSnapshot {
            operation_epoch: String::from_str("0"),
            has_retained_work: false,
            runtime_operations_ready: false,
            terminal_input_ready: false,
            recovery: RecoverySnapshot::default(),
        }
    }
}

#[derive(Debug, PartialEq, Eq)]
pub struct RuntimeCandidate {
    /// A native-owned ID, scoped to one connection generation and one
    /// discovery revision.  It is no remote identity.
    pub id: String,
    pub backend: Backend,
    pub name: String,
    pub state: RuntimeState,
    pub selectable: bool,
    pub suggested: bool,
    pub error_code: Option<String>,
    pub error_message: Option<String>,
}

impl Clone for RuntimeCandidate {
    fn clone(&self) -> (r: Self)
        ensures
            r == *self,
    {
        RuntimeCandidate {
            id: self.id.clone(),
            backend: self.backend,
            name: self.name.clone(),
            state: self.state,
            selectable: self.selectable,
            suggested: self.suggested,
            error_code: self.error_code.clone(),
            error_message: self.error_message.clone(),
        }
    }
}

impl Default for RuntimeCandidate {
    fn default() -> (r: Self)
        ensures
            r.id@ == Seq::<char>::empty(),
            r.backend == Backend::Tmux,
            r.name@ == Seq::<char>::empty(),
            r.state == RuntimeState::Running,
            !r.selectable,
            !r.suggested,
            r.error_code is None,
            r.error_message is None,
    {
        RuntimeCandidate {
            id: String::new(),
            backend: Backend::Tmux,
            name: String::new(),
            state: RuntimeState::Running,
            selectable: false,
            suggested: false,
            error_code: None,
            error_message: None,
        }
    }
}

#[derive(Debug, PartialEq, Eq)]
pub struct RuntimeSection {
    pub state: RuntimeSectionState,
    pub candidates: Vec<RuntimeCandidate>,
    pub error_code: Option<String>,
    pub error_message: Option<String>,
}

impl RuntimeSection {
    /// The list is being read: no candidate and no error yet.
    pub open spec fn is_loading(self) -> bool {
        &&& self.state == RuntimeSectionState::Loading
        &&& self.candidates@.len() == 0
        &&& self.error_code is None
        &&& self.error_message is None
    }
}

impl Clone for RuntimeSection {
    fn clone(&self) -> (r: Self)
        ensures
            r.state == self.state,
            r.candidates@ == self.candidates@,
            r.error_code == self.error_code,
            r.error_message == self.error_message,
    {
        let candidates = self.candidates.clone();
        assert(candidates@ =~= self.candidates@);
        RuntimeSection {
            state: self.state,
            candidates,
            error_code: self.error_code.clone(),
            error_message: self.error_message.clone(),
        }
    }
}

impl Default for RuntimeSection {
    fn default() -> (r: Self)
        ensures
            r.is_loading(),
    {
        RuntimeSection {
            state: RuntimeSectionState::Loading,
            candidates: Vec::new(),
            error_code: None,
            error_message: None,
        }
    }
}

#[derive(Debug, PartialEq, Eq)]
pub struct RuntimeDiscoverySnapshot {
    pub connection_generation: u64,
    pub discovery_revision: u64,
    pub tmux: RuntimeSection,
    pub herdr: RuntimeSection,
}

impl Clone for RuntimeDiscoverySnapshot {
    fn clone(&self) -> (r: Self)
        ensures
            r.connection_generation == self.connection_generation,
            r.discovery_revision == self.discovery_revision,
            r.tmux.state == self.tmux.state,
            r.tmux.candidates@ == self.tmux.candidates@,
            r.tmux.error_code == self.tmux.error_code,
            r.tmux.error_message == self.tmux.error_message,
            r.herdr.state == self.herdr.state,
            r.herdr.candidates@ == self.herdr.candidates@,
            r.herdr.error_code == self.herdr.error_code,
            r.herdr.error_message == self.herdr.error_message,
    {
        RuntimeDiscoverySnapshot {
            connection_generation: self.connection_generation,
            discovery_revision: self.discovery_revision,
            tmux: self.tmux.clone(),
            herdr: self.herdr.clone(),
        }
    }
}

impl Default for RuntimeDiscoverySnapshot {
    fn default() -> (r: Self)
        ensures
            r.connection_generation == 0,
            r.discovery_revision == 0,
            r.tmux.is_loading(),
            r.herdr.is_loading(),
    {
        RuntimeDiscoverySnapshot::loading(0, 0)
    }
}

impl RuntimeDiscoverySnapshot {
    /// Both lists are being read.
    pub fn loading(generation: u64, revision: u64) -> (r: Self)
        ensures
            r.connection_generation == generation,
            r.discovery_revision == revision,
            r.tmux.is_loading(),
            r.herdr.is_loading(),
    {
        RuntimeDiscoverySnapshot {
            connection_generation: generation,
            discovery_revision: revision,
            tmux: RuntimeSection::default(),
            herdr: RuntimeSection::default(),
        }
    }
}

#[derive(Clone, Copy, Debug, PartialEq, Eq, Structural)]
pub enum AgentStatus {
    Blocked,
    Done,
    Working,
    Idle,
    Unknown,
}

impl AgentStatus {
    pub open spec fn wire(self) -> Seq<char> {
        match self {
            AgentStatus::Blocked => "blocked"@,
            AgentStatus::Done => "done"@,
            AgentStatus::Working => "working"@,
            AgentStatus::Idle => "idle"@,
            AgentStatus::Unknown => "unknown"@,
        }
    }

    /// The one lower-case vocabulary of the wire.
    pub fn wire_name(self) -> (r: &'static str)
        ensures
            r@ == self.wire(),
    {
        match self {
            AgentStatus::Blocked => "blocked",
            AgentStatus::Done => "done",
            AgentStatus::Working => "working",
            AgentStatus::Idle => "idle",
            AgentStatus::Unknown => "unknown",
        }
    }
}

#[derive(Debug, PartialEq, Eq)]
pub struct Workspace {
    pub id: String,
    pub name: String,
    pub agent_status: Option<AgentStatus>,
}

#[derive(Debug, PartialEq, Eq)]
pub struct TerminalGroup {
    pub id: String,
    pub workspace_id: String,
    pub name: String,
    pub selected: bool,
    pub agent_status: Option<AgentStatus>,
}

#[derive(Debug, PartialEq, Eq)]
pub struct Terminal {
    pub id: String,
    pub workspace_id: String,
    pub group_id: String,
    pub terminal_id: String,
    pub name: String,
    pub active: bool,
    pub selected: bool,
    pub agent: Option<Agent>,
}

#[derive(Debug, PartialEq, Eq)]
pub struct Agent {
    pub name: String,
    pub status: AgentStatus,
}

#[derive(Debug, PartialEq, Eq)]
pub struct RuntimeSnapshot {
    pub control: RuntimeControlSnapshot,
    pub backend: Backend,
    pub runtime: String,
    pub groups_supported: bool,
    pub workspaces: Vec<Workspace>,
    pub groups: Vec<TerminalGroup>,
    pub terminals: Vec<Terminal>,
}

#[verifier::ext_equal]
pub struct WorkspaceView {
    pub id: Seq<char>,
    pub name: Seq<char>,
    pub agent_status: Option<AgentStatus>,
}

#[verifier::ext_equal]
pub struct TerminalGroupView {
    pub id: Seq<char>,
    pub workspace_id: Seq<char>,
    pub name: Seq<char>,
    pub selected: bool,
    pub agent_status: Option<AgentStatus>,
}

#[verifier::ext_equal]
pub struct AgentView {
    pub name: Seq<char>,
    pub status: AgentStatus,
}

#[verifier::ext_equal]
pub struct TerminalView {
    pub id: Seq<char>,
    pub workspace_id: Seq<char>,
    pub group_id: Seq<char>,
    pub terminal_id: Seq<char>,
    pub name: Seq<char>,
    pub active: bool,
    pub selected: bool,
    pub agent: Option<AgentView>,
}

/// What a runtime shows of its workspaces, groups and terminals.
#[verifier::ext_equal]
pub struct RuntimeSnapshotView {
    pub control: RuntimeControlView,
    pub backend: Backend,
    pub runtime: Seq<char>,
    pub groups_supported: bool,
    pub workspaces: Seq<WorkspaceView>,
    pub groups: Seq<TerminalGroupView>,
    pub terminals: Seq<TerminalView>,
}

impl View for Workspace {
    type V = WorkspaceView;

    open spec fn view(&self) -> WorkspaceView {
        WorkspaceView { id: self.id@, name: self.name@, agent_status: self.agent_status }
    }
}

impl View for TerminalGroup {
    type V = TerminalGroupView;

    open spec fn view(&self) -> TerminalGroupView {
        TerminalGroupView {
            id: self.id@,
            workspace_id: self.workspace_id@,
            name: self.name@,
            selected: self.selected,
            agent_status: self.agent_status,
        }
    }
}

impl View for Agent {
    type V = AgentView;

    open spec fn view(&self) -> AgentView {
        AgentView { name: self.name@, status: self.status }
    }
}

impl View for Terminal {
    type V = TerminalView;

    open spec fn view(&self) -> TerminalView {
        TerminalView {
            id: self.id@,
            workspace_id: self.workspace_id@,
            group_id: self.group_id@,
            terminal_id: self.terminal_id@,
            name: self.name@,
            active: self.active,
            selected: self.selected,
            agent: match self.agent {
                Some(agent) => Some(agent@),
                None => None,
            },
        }
    }
}

pub open spec fn workspace_views(v: Seq<Workspace>) -> Seq<WorkspaceView> {
    Seq::new(v.len(), |i: int| v[i]@)
}

pub open spec fn group_views(v: Seq<TerminalGroup>) -> Seq<TerminalGroupView> {
    Seq::new(v.len(), |i: int| v[i]@)
}

pub open spec fn terminal_views(v: Seq<Terminal>) -> Seq<TerminalView> {
    Seq::new(v.len(), |i: int| v[i]@)
}

impl View for RuntimeSnapshot {
    type V = RuntimeSnapshotView;

    open spec fn view(&self) -> RuntimeSnapshotView {
        RuntimeSnapshotView {
            control: self.control@,
            backend: self.backend,
            runtime: self.runtime@,
            groups_supported: self.groups_supported,
            workspaces: workspace_views(self.workspaces@),
            groups: group_views(self.groups@),
            terminals: terminal_views(self.terminals@),
        }
    }
}

impl Clone for Workspace {
    fn clone(&self) -> (r: Self)
        ensures
            r == *self,
    {
        Workspace {
            id: self.id.clone(),
            name: self.name.clone(),
            agent_status: self.agent_status,
        }
    }
}

impl Clone for TerminalGroup {
    fn clone(&self) -> (r: Self)
        ensures
            r == *self,
    {
        TerminalGroup {
            id: self.id.clone(),
            workspace_id: self.workspace_id.clone(),
            name: self.name.clone(),
            selected: self.selected,
            agent_status: self.agent_status,
        }
    }
}

impl Clone for Agent {
    fn clone(&self) -> (r: Self)
        ensures
            r == *self,
    {
        Agent { name: self.name.clone(), status: self.status }
    }
}

impl Clone for Terminal {
    fn clone(&self) -> (r: Self)
        ensures
            r == *self,
    {
        Terminal {
            id: self.id.clone(),
            workspace_id: self.workspace_id.clone(),
            group_id: self.group_id.clone(),
            terminal_id: self.terminal_id.clone(),
            name: self.name.clone(),
            active: self.active,
            selected: self.selected,
            agent: match &self.agent {
                Some(agent) => Some(agent.clone()),
                None => None,
            },
        }
    }
}

impl Clone for RuntimeSnapshot {
    fn clone(&self) -> (r: Self)
        ensures
            r@ == self@,
            r.control == self.control,
    {
        let workspaces = self.workspaces.clone();
        let groups = self.groups.clone();
        let terminals = self.terminals.clone();
        assert(workspace_views(workspaces@) =~= workspace_views(self.workspaces@));
        assert(group_views(groups@) =~= group_views(self.groups@));
        assert(terminal_views(terminals@) =~= terminal_views(self.terminals@));
        RuntimeSnapshot {
            control: self.control.clone(),
            backend: self.backend,
            runtime: self.runtime.clone(),
            groups_supported: self.groups_supported,
            workspaces,
            groups,
            terminals,
        }
    }
}

impl Default for RuntimeSnapshot {
    fn default() -> (r: Self)
        ensures
            r.control@ == default_control(),
            r.backend == Backend::Tmux,
            r.runtime@ == Seq::<char>::empty(),
            !r.groups_supported,
            r.workspaces@.len() == 0,
            r.groups@.len() == 0,
            r.terminals@.len() == 0,
    {
        RuntimeSnapshot {
            control: RuntimeControlSnapshot::default(),
            backend: Backend::Tmux,
            runtime: String::new(),
            groups_supported: false,
            workspaces: Vec::new(),
            groups: Vec::new(),
            terminals: Vec::new(),
        }
    }
}

/// A window as a workspace.
pub open spec fn tmux_workspace(
    window: crate::tmux::snapshot::WindowSnapshotView,
) -> WorkspaceView {
    WorkspaceView {
        id: "@"@ + text::decimal(window.window_id as nat),
        name: window.name,
        agent_status: None,
    }
}

/// A window's one virtual group, which nothing in tmux corresponds to.
pub open spec fn tmux_group(
    window: crate::tmux::snapshot::WindowSnapshotView,
) -> TerminalGroupView {
    TerminalGroupView {
        id: "@"@ + text::decimal(window.window_id as nat),
        workspace_id: "@"@ + text::decimal(window.window_id as nat),
        name: seq![],
        selected: window.selected,
        agent_status: None,
    }
}

/// A pane as a terminal.
pub open spec fn tmux_terminal(pane: crate::tmux::snapshot::PaneSnapshotView) -> TerminalView {
    TerminalView {
        id: "%"@ + text::decimal(pane.pane_id as nat),
        workspace_id: "@"@ + text::decimal(pane.window_id as nat),
        group_id: "@"@ + text::decimal(pane.window_id as nat),
        terminal_id: "native:"@ + text::decimal(pane.terminal_id as nat),
        name: pane.pane_name,
        active: pane.active,
        selected: pane.selected,
        agent: None,
    }
}

/// A tmux session as a runtime: windows in their order become workspaces
/// with one virtual group each, panes in their order become terminals.  The
/// lifecycle controls start anew.
pub open spec fn tmux_runtime(
    snapshot: crate::tmux::snapshot::SessionSnapshotView,
    runtime: Seq<char>,
) -> RuntimeSnapshotView {
    RuntimeSnapshotView {
        control: default_control(),
        backend: Backend::Tmux,
        runtime,
        groups_supported: false,
        workspaces: Seq::new(
            snapshot.windows.len(),
            |i: int| tmux_workspace(snapshot.windows[i]),
        ),
        groups: Seq::new(snapshot.windows.len(), |i: int| tmux_group(snapshot.windows[i])),
        terminals: Seq::new(snapshot.panes.len(), |i: int| tmux_terminal(snapshot.panes[i])),
    }
}

pub(crate) fn numbered(prefix: &str, n: u64) -> (r: String)
    ensures
        r@ == prefix@ + text::decimal(n as nat),
{
    let mut id = String::from_str(prefix);
    push_decimal(&mut id, n);
    id
}

fn workspace_of(window: &WindowSnapshot) -> (r: Workspace)
    ensures
        r@ == tmux_workspace(window@),
{
    Workspace {
        id: numbered("@", window.window_id),
        name: window.name.clone(),
        agent_status: None,
    }
}

fn group_of(window: &WindowSnapshot) -> (r: TerminalGroup)
    ensures
        r@ == tmux_group(window@),
{
    TerminalGroup {
        id: numbered("@", window.window_id),
        workspace_id: numbered("@", window.window_id),
        name: String::new(),
        selected: window.selected,
        agent_status: None,
    }
}

fn terminal_of(pane: &PaneSnapshot) -> (r: Terminal)
    ensures
        r@ == tmux_terminal(pane@),
{
    Terminal {
        id: numbered("%", pane.pane_id),
        workspace_id: numbered("@", pane.window_id),
        group_id: numbered("@", pane.window_id),
        terminal_id: numbered("native:", pane.terminal_id),
        name: pane.pane_name.clone(),
        active: pane.active,
        selected: pane.selected,
        agent: None,
    }
}

impl RuntimeSnapshot {
    /// Projects a tmux session onto the common model.
    pub fn tmux_for_runtime(snapshot: &SessionSnapshot, runtime: &str) -> (r: Self)
        ensures
            r@ == tmux_runtime(snapshot@, runtime@),
    {
        let mut workspaces: Vec<Workspace> = Vec::new();
        let mut groups: Vec<TerminalGroup> = Vec::new();
        let mut terminals: Vec<Terminal> = Vec::new();
        let mut i: usize = 0;
        while i < snapshot.windows.len()
            invariant
                i <= snapshot.windows@.len(),
                workspaces@.len() == i,
                groups@.len() == i,
                forall|j: int|
                    0 <= j < i ==> (#[trigger] workspaces@[j])@ == tmux_workspace(
                        snapshot.windows@[j]@,
                    ),
                forall|j: int|
                    0 <= j < i ==> (#[trigger] groups@[j])@ == tmux_group(snapshot.windows@[j]@),
            decreases snapshot.windows@.len() - i,
        {
            workspaces.push(workspace_of(&snapshot.windows[i]));
            groups.push(group_of(&snapshot.windows[i]));
            i = i + 1;
        }
        let mut k: usize = 0;
        while k < snapshot.panes.len()
            invariant
                k <= snapshot.panes@.len(),
                terminals@.len() == k,
                forall|j: int|
                    0 <= j < k ==> (#[trigger] terminals@[j])@ == tmux_terminal(
                        snapshot.panes@[j]@,
                    ),
            decreases snapshot.panes@.len() - k,
        {
            terminals.push(terminal_of(&snapshot.panes[k]));
            k = k + 1;
        }
        let result = RuntimeSnapshot {
            control: RuntimeControlSnapshot::default(),
            backend: Backend::Tmux,
            runtime: runtime.to_owned(),
            groups_supported: false,
            workspaces,
            groups,
            terminals,
        };
        assert(result@.workspaces =~= tmux_runtime(snapshot@, runtime@).workspaces);
        assert(result@.groups =~= tmux_runtime(snapshot@, runtime@).groups);
        assert(result@.terminals =~= tmux_runtime(snapshot@, runtime@).terminals);
        result
    }
}

} // verus!
