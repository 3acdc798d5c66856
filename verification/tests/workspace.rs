use meeterm_core::tmux::{PaneSnapshot, SessionSnapshot, WindowSnapshot, SESSION_NAME};
use meeterm_core::workspace::{
    AgentStatus, Backend, RecoveryPhase, RuntimeControlSnapshot, RuntimeDiscoverySnapshot,
    RuntimeSectionState, RuntimeSnapshot, DEFAULT_RECOVERY_MAX_ATTEMPTS,
};

#[test]
fn tmux_projection_keeps_remote_layout_and_native_identity_distinct() {
    let pane = PaneSnapshot {
        window_id: 7,
        pane_id: 12,
        terminal_id: 82,
        window_name: "work".into(),
        pane_name: "shell".into(),
        title: "shell".into(),
        active: true,
        selected: true,
        index: 0,
        columns: 40,
        rows: 20,
    };
    let source = SessionSnapshot {
        selected_pane: Some(12),
        panes: vec![pane.clone()],
        windows: vec![WindowSnapshot {
            window_id: 7,
            name: "work".into(),
            panes: vec![pane],
            selected: true,
            zoomed: false,
        }],
    };
    let original = source.clone();
    let result = RuntimeSnapshot::tmux_for_runtime(&source, SESSION_NAME);
    assert_eq!(source, original);
    assert_eq!(result.runtime, "meeterm");
    assert_eq!(
        RuntimeSnapshot::tmux_for_runtime(&source, "dev-日本語").runtime,
        "dev-日本語"
    );
    assert!(!result.groups_supported);
    assert_eq!(result.groups.len(), 1);
    assert_eq!(result.groups[0].workspace_id, result.workspaces[0].id);
    assert_eq!(result.terminals[0].group_id, result.groups[0].id);
    assert_eq!(result.terminals[0].id, "%12");
    assert_eq!(result.terminals[0].terminal_id, "native:82");
    assert!(result.terminals[0].agent.is_none());
    assert!(result.workspaces[0].agent_status.is_none());
    assert!(result.groups[0].agent_status.is_none());
    assert_eq!(result.control, RuntimeControlSnapshot::default());
}

#[test]
fn backend_names_are_exact() {
    assert_eq!(Backend::parse("tmux"), Some(Backend::Tmux));
    assert_eq!(Backend::parse("herdr"), Some(Backend::Herdr));
    assert_eq!(Backend::parse("Tmux"), None);
    assert_eq!(Backend::parse(""), None);
}

#[test]
fn agent_status_names_are_lower_case() {
    let values = [
        (AgentStatus::Blocked, "blocked"),
        (AgentStatus::Done, "done"),
        (AgentStatus::Working, "working"),
        (AgentStatus::Idle, "idle"),
        (AgentStatus::Unknown, "unknown"),
    ];
    for (status, encoded) in values {
        assert_eq!(status.wire_name(), encoded);
    }
}

#[test]
fn a_loading_discovery_has_two_empty_sections() {
    let discovery = RuntimeDiscoverySnapshot::loading(4, 9);
    assert_eq!(discovery.connection_generation, 4);
    assert_eq!(discovery.discovery_revision, 9);
    assert_eq!(discovery.tmux.state, RuntimeSectionState::Loading);
    assert_eq!(discovery.herdr, discovery.tmux);
    assert!(discovery.tmux.candidates.is_empty());
}

#[test]
fn the_default_recovery_is_inactive_with_its_budget() {
    let control = RuntimeControlSnapshot::default();
    assert_eq!(control.operation_epoch, "0");
    assert_eq!(control.recovery.phase, RecoveryPhase::Inactive);
    assert_eq!(control.recovery.max_attempts, DEFAULT_RECOVERY_MAX_ATTEMPTS);
    assert_eq!(DEFAULT_RECOVERY_MAX_ATTEMPTS, 6);
}
