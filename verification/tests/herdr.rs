use std::collections::HashMap;

use meeterm_core::input::Modifiers;
use meeterm_core::ssh::commit::CommitGate;
use meeterm_core::ssh::flow::FlowFailure;
use meeterm_core::ssh::herdr::command::{
    herdr_admission, HerdrAction, HerdrAdmission, HerdrFact, HerdrFlow, HerdrPhase, HerdrProgram,
};
use meeterm_core::ssh::herdr::input::{input_call, InputCall, SemanticInput};
use meeterm_core::ssh::herdr::metadata::{
    choose_selected_group, choose_selected_pane, handle_text, IdEntry, Metadata, RemotePane,
};
use meeterm_core::ssh::herdr::project::{project_snapshot, Placement, SnapshotProjection};
use meeterm_core::ssh::herdr::recovery::{
    recovery_target, Listed, RecoverAction, RecoverFact, RecoverPhase, Recovery, RecoveryTarget,
    StopReason,
};
use meeterm_core::ssh::herdr::settle::{
    commit_projection, discarded_natives, settle_projection,
};
use meeterm_core::ssh::herdr::terminal::{
    commit_strict_frame, strict_frame_allowed, ActivateAction, ActivateFact, ActivatePhase,
    Activation, FrameState, FrameStep,
};
use meeterm_core::ssh::herdr::wire;
use meeterm_core::ssh::herdr::wire::{herdr_rollup_status, snapshot_contains_stable_terminal};
use meeterm_core::ssh::command::ControlCommand;
use meeterm_core::ssh::state::SessionState;
use meeterm_core::tmux::{PaneSnapshot, SessionSnapshot, WindowSnapshot};
use meeterm_core::workspace;
use meeterm_core::workspace::{Backend, RecoveryPhase, RuntimeControlSnapshot, RuntimeSnapshot};

fn group(id: u64, workspace: u64, selected: bool) -> workspace::TerminalGroup {
    workspace::TerminalGroup {
        id: id.to_string(),
        workspace_id: workspace.to_string(),
        name: format!("group-{id}"),
        selected,
        agent_status: None,
    }
}

fn terminal(id: u64, workspace: u64, group: u64, selected: bool) -> workspace::Terminal {
    workspace::Terminal {
        id: id.to_string(),
        workspace_id: workspace.to_string(),
        group_id: group.to_string(),
        terminal_id: format!("native:{id}"),
        name: format!("terminal-{id}"),
        active: true,
        selected,
        agent: None,
    }
}

fn remote(pane: &str, terminal: &str, workspace: u64, group: u64) -> RemotePane {
    RemotePane {
        pane_id: pane.to_owned(),
        terminal_id: terminal.to_owned(),
        workspace,
        group,
    }
}

fn metadata_with_groups() -> Metadata {
    let mut metadata = Metadata {
        snapshot: RuntimeSnapshot {
            control: RuntimeControlSnapshot::default(),
            backend: Backend::Herdr,
            runtime: "default".to_owned(),
            groups_supported: true,
            workspaces: vec![
                workspace::Workspace {
                    id: "100".to_owned(),
                    name: "workspace-100".to_owned(),
                    agent_status: None,
                },
                workspace::Workspace {
                    id: "200".to_owned(),
                    name: "workspace-200".to_owned(),
                    agent_status: None,
                },
            ],
            groups: vec![
                group(1, 100, true),
                group(2, 100, false),
                group(3, 200, true),
            ],
            terminals: vec![terminal(10, 100, 1, true)],
        },
        ..Metadata::default()
    };
    metadata.workspaces.insert(100, "workspace-100".to_owned());
    metadata.workspaces.insert(200, "workspace-200".to_owned());
    metadata.groups.insert(1, "tab-1".to_owned());
    metadata.groups.insert(2, "tab-2".to_owned());
    metadata.groups.insert(3, "tab-3".to_owned());
    metadata
        .panes
        .insert(10, remote("pane-10", "terminal-10", 100, 1));
    metadata.selected_groups.insert(100, 1);
    metadata.selected_groups.insert(200, 3);
    metadata.active_group = Some(1);
    metadata
}

/// Projects a snapshot with handles from 1,000,000 on and native terminals
/// from 2,000,000 on.
fn project(
    metadata: Metadata,
    mapping: HashMap<u64, u64>,
    old_selected: Option<u64>,
    snapshot: wire::HerdrSessionSnapshot,
) -> SnapshotProjection {
    let count = Placement::handles_needed(&metadata, &snapshot);
    let handles: Vec<u64> = (0..count).map(|i| 1_000_000 + i as u64).collect();
    let placement = Placement::new(&metadata, snapshot, &handles);
    let count = placement.natives_needed(&mapping);
    let natives: Vec<u64> = (0..count).map(|i| 2_000_000 + i as u64).collect();
    project_snapshot(
        metadata,
        placement,
        mapping,
        old_selected,
        "default".to_owned(),
        (80, 24),
        &natives,
    )
}

#[test]
fn select_group_keeps_empty_group_and_one_selection_per_workspace() {
    let mut metadata = metadata_with_groups();

    metadata.select_group(2);

    assert_eq!(metadata.selected_groups.get(&100), Some(&2));
    assert_eq!(metadata.active_group, Some(2));
    assert_eq!(
        metadata
            .snapshot
            .groups
            .iter()
            .filter(|group| group.workspace_id == "100" && group.selected)
            .map(|group| group.id.as_str())
            .collect::<Vec<_>>(),
        vec!["2"]
    );
    assert_eq!(
        metadata
            .snapshot
            .groups
            .iter()
            .filter(|group| group.workspace_id == "200" && group.selected)
            .map(|group| group.id.as_str())
            .collect::<Vec<_>>(),
        vec!["3"]
    );
    assert!(metadata
        .snapshot
        .terminals
        .iter()
        .all(|terminal| !terminal.selected));
}

#[test]
fn selected_group_precedes_conflicting_focused_flags() {
    assert_eq!(
        choose_selected_group(&[1, 2], Some(1), Some(2), Some(2)),
        Some(1)
    );
    assert_eq!(
        choose_selected_group(&[1, 2], None, Some(1), Some(2)),
        Some(1)
    );
    assert_eq!(choose_selected_group(&[1, 2], None, None, Some(2)), Some(2));
    assert_eq!(choose_selected_group(&[1, 2], None, None, None), Some(1));
}

#[test]
fn empty_selected_group_does_not_fall_back_to_another_group_pane() {
    let mut metadata = metadata_with_groups();
    metadata
        .panes
        .insert(11, remote("pane-11", "terminal-11", 100, 1));
    let pane = PaneSnapshot {
        window_id: 100,
        pane_id: 11,
        terminal_id: 111,
        window_name: "workspace-100".to_owned(),
        pane_name: "terminal-11".to_owned(),
        title: "terminal-11".to_owned(),
        active: true,
        selected: false,
        index: 0,
        columns: 80,
        rows: 24,
    };
    let old_target = remote("old-pane", "old-terminal", 100, 1);

    assert_eq!(
        choose_selected_pane(
            &metadata,
            std::slice::from_ref(&pane),
            None,
            Some(&old_target),
            Some(11),
            Some(2),
        ),
        None
    );

    metadata
        .panes
        .insert(12, remote("pane-12", "terminal-12", 100, 2));
    let selected_pane = PaneSnapshot {
        pane_id: 12,
        ..pane
    };
    assert_eq!(
        choose_selected_pane(
            &metadata,
            std::slice::from_ref(&selected_pane),
            Some(12),
            None,
            Some(11),
            Some(2),
        ),
        Some(12)
    );
}

#[test]
fn an_emptied_selected_group_selects_no_other_pane_of_its_workspace() {
    let mut metadata = metadata_with_groups();
    metadata
        .panes
        .insert(11, remote("pane-11", "terminal-11", 100, 1));
    let pane = PaneSnapshot {
        window_id: 100,
        pane_id: 11,
        terminal_id: 111,
        window_name: "workspace-100".to_owned(),
        pane_name: "terminal-11".to_owned(),
        title: "terminal-11".to_owned(),
        active: true,
        selected: false,
        index: 0,
        columns: 80,
        rows: 24,
    };
    let lost = remote("lost-pane", "lost-terminal", 100, 2);
    let panes = std::slice::from_ref(&pane);

    assert_eq!(
        choose_selected_pane(&metadata, panes, Some(12), Some(&lost), Some(11), Some(2)),
        None
    );
    // Without a selected group, the workspace of the lost pane decides.
    assert_eq!(
        choose_selected_pane(&metadata, panes, Some(12), Some(&lost), None, None),
        Some(11)
    );
}

#[test]
fn recovery_target_distinguishes_empty_group_from_disappeared_terminal() {
    let mut state = SessionState {
        recovery_group_id: Some(2),
        ..SessionState::default()
    };
    state.herdr.snapshot.groups = vec![group(2, 100, true)];
    assert_eq!(recovery_target(&state), RecoveryTarget::EmptyGroup(2));

    // The same remembered group is no longer an empty selected group once
    // its group record disappeared from the authoritative snapshot.
    state.herdr.snapshot.groups.clear();
    assert_eq!(recovery_target(&state), RecoveryTarget::Missing);

    // A non-empty group with no remembered stable terminal is the
    // disappeared-terminal case; recovery must not choose another pane.
    state.herdr.snapshot.groups = vec![group(1, 100, true)];
    state.recovery_group_id = Some(1);
    state
        .herdr
        .panes
        .insert(10, remote("pane-10", "terminal-10", 100, 1));
    assert_eq!(recovery_target(&state), RecoveryTarget::Missing);

    state.recovery_terminal_id = Some("terminal-10".to_owned());
    assert_eq!(
        recovery_target(&state),
        RecoveryTarget::Terminal("terminal-10".to_owned())
    );
}

#[test]
fn confirmed_epoch_is_rechecked_at_discovery_controller_and_mutation_boundaries() {
    // Confirmed, discovered again, but the epoch has moved on: nothing runs.
    let confirming = Recovery {
        phase: RecoverPhase::Confirming,
        epoch: 5,
    };
    for listed in [Listed::Session, Listed::Missing, Listed::OtherExecutable] {
        let (ended, action) = confirming.advance(RecoverFact::Discovered {
            listed,
            current: false,
        });
        assert_eq!(ended.phase, RecoverPhase::Ended);
        assert_eq!(action, RecoverAction::Fail(FlowFailure::Stale));
    }
    let discovered = |listed| {
        confirming
            .advance(RecoverFact::Discovered {
                listed,
                current: true,
            })
            .1
    };
    assert_eq!(
        discovered(Listed::Session),
        RecoverAction::Run { epoch: 5 }
    );
    assert_eq!(
        discovered(Listed::Missing),
        RecoverAction::Stop(StopReason::SessionMissing, FlowFailure::HerdrSessionMissing)
    );
    assert_eq!(
        discovered(Listed::OtherExecutable),
        RecoverAction::Stop(StopReason::Incompatible, FlowFailure::HerdrIncompatible)
    );

    // The channel is open, but the control command is not sent.
    let opening = Activation {
        phase: ActivatePhase::Opening,
        complete: true,
    };
    let (ended, action) = opening.advance(ActivateFact::Opened {
        epoch_current: false,
    });
    assert_eq!(ended.phase, ActivatePhase::Ended);
    assert_eq!(action, ActivateAction::Fail(FlowFailure::Stale));
    assert_eq!(
        opening
            .advance(ActivateFact::Opened {
                epoch_current: true
            })
            .1,
        ActivateAction::StartControl
    );

    // A change that waited over the boundary is dropped.
    let change = ControlCommand::CloseWorkspace { window_id: 7 };
    assert_eq!(
        herdr_admission(&change, false, true, false),
        HerdrAdmission::Drop
    );
    assert!(matches!(
        herdr_admission(&change, true, true, false),
        HerdrAdmission::Run { .. }
    ));
}

#[test]
fn herdr_rollups_preserve_upstream_values_independently() {
    let workspace_status = herdr_rollup_status(wire::AgentStatus::Blocked);
    let group_status = herdr_rollup_status(wire::AgentStatus::Working);

    assert_eq!(workspace_status, Some(workspace::AgentStatus::Blocked));
    assert_eq!(group_status, Some(workspace::AgentStatus::Working));
    assert_ne!(workspace_status, group_status);
    assert_eq!(
        herdr_rollup_status(wire::AgentStatus::Unknown),
        Some(workspace::AgentStatus::Unknown)
    );
}

fn moved_snapshot() -> wire::HerdrSessionSnapshot {
    let moved_pane = wire::HerdrPane {
        pane_id: "pane-moved".to_owned(),
        terminal_id: "terminal-10".to_owned(),
        name: Some("moved".to_owned()),
        focused: true,
        agent_name: None,
        agent_status: wire::AgentStatus::Idle,
    };
    wire::HerdrSessionSnapshot {
        version: wire::HERDR_VERSION.to_owned(),
        protocol: wire::HERDR_PROTOCOL,
        focused_workspace_id: Some("workspace-moved".to_owned()),
        focused_tab_id: Some("tab-moved".to_owned()),
        focused_pane_id: Some("pane-moved".to_owned()),
        workspaces: vec![wire::HerdrWorkspace {
            workspace_id: "workspace-moved".to_owned(),
            name: "Moved workspace".to_owned(),
            agent_status: wire::AgentStatus::Working,
            groups: vec![wire::HerdrGroup {
                tab_id: "tab-moved".to_owned(),
                name: "Moved tab".to_owned(),
                focused: true,
                agent_status: wire::AgentStatus::Idle,
                panes: vec![moved_pane],
            }],
            worktree: None,
        }],
    }
}

#[test]
fn strict_recovery_resolves_a_moved_stable_terminal_without_alias_fallback() {
    let mut metadata = metadata_with_groups();
    metadata.ids.push(IdEntry {
        kind: b'p',
        remote: "terminal-10".to_owned(),
        handle: 10,
    });
    let moved = moved_snapshot();
    assert!(snapshot_contains_stable_terminal(&moved, "terminal-10"));
    assert!(!snapshot_contains_stable_terminal(&moved, "terminal-gone"));
    let projection = project(metadata, HashMap::from([(10, 12_345)]), Some(10), moved);
    assert_eq!(projection.selected, Some(10));
    assert_eq!(projection.mapping.get(&10), Some(&12_345));
    let moved_remote = projection.metadata.panes.get(&10).expect("moved pane");
    assert_ne!(moved_remote.workspace, 100);
    assert_ne!(moved_remote.group, 1);
    assert_eq!(moved_remote.terminal_id, "terminal-10");
}

fn strict_frame_projection(owner: u64, label: &str) -> SnapshotProjection {
    let workspace_name = format!("workspace-{label}");
    let group_name = format!("group-{label}");
    let terminal_name = format!("terminal-{label}");
    let mut metadata = Metadata {
        snapshot: RuntimeSnapshot {
            control: RuntimeControlSnapshot::default(),
            backend: Backend::Herdr,
            runtime: "default".to_owned(),
            groups_supported: true,
            workspaces: vec![workspace::Workspace {
                id: "100".to_owned(),
                name: workspace_name.clone(),
                agent_status: None,
            }],
            groups: vec![workspace::TerminalGroup {
                id: "200".to_owned(),
                workspace_id: "100".to_owned(),
                name: group_name.clone(),
                selected: true,
                agent_status: None,
            }],
            terminals: vec![workspace::Terminal {
                id: owner.to_string(),
                workspace_id: "100".to_owned(),
                group_id: "200".to_owned(),
                terminal_id: "stable-terminal".to_owned(),
                name: terminal_name.clone(),
                active: true,
                selected: true,
                agent: None,
            }],
        },
        ..Metadata::default()
    };
    metadata.workspaces.insert(100, workspace_name.clone());
    metadata.groups.insert(200, group_name.clone());
    metadata
        .panes
        .insert(owner, remote("pane-alias", "stable-terminal", 100, 200));
    metadata.selected_groups.insert(100, 200);
    metadata.active_group = Some(200);

    let pane = PaneSnapshot {
        window_id: 100,
        pane_id: owner,
        terminal_id: owner,
        window_name: workspace_name,
        active: true,
        selected: true,
        index: 0,
        columns: 80,
        rows: 4,
        pane_name: terminal_name.clone(),
        title: terminal_name,
    };
    SnapshotProjection {
        metadata,
        mapping: HashMap::from([(owner, owner)]),
        selected: Some(owner),
        flat: vec![pane.clone()],
        windows: vec![WindowSnapshot {
            window_id: 100,
            name: pane.window_name.clone(),
            panes: vec![pane],
            selected: true,
            zoomed: false,
        }],
        stale: Vec::new(),
    }
}

fn strict_frame_state(owner: u64) -> SessionState {
    let old = strict_frame_projection(owner, "old");
    SessionState {
        generation: 93_000 + owner,
        operation_epoch: 4,
        viewport: Some((80, 4)),
        snapshot: SessionSnapshot {
            windows: old.windows,
            panes: old.flat,
            selected_pane: old.selected,
        },
        herdr: old.metadata,
        pane_terminals: old.mapping,
        selected_pane: old.selected,
        runtime_operations_ready: true,
        terminal_input_ready: true,
        terminal_visible: true,
        ..SessionState::default()
    }
}

#[test]
fn strict_first_full_frame_barrier_rejects_stale_epoch_before_native_apply() {
    let owner = 7;
    let mut state = strict_frame_state(owner);
    let gate = CommitGate {
        cancelled: false,
        generation: state.generation,
        epoch: 4,
    };
    let frames = FrameState::attached(true);
    assert_eq!(frames.step(1, true, true), Ok(FrameStep::CommitStrict));
    assert_eq!(
        frames.step(1, false, true),
        Err(FlowFailure::HerdrProtocol)
    );
    assert_eq!(strict_frame_allowed(&state, gate, owner), Ok(()));
    let old_snapshot = state.snapshot.clone();
    let old_herdr = state.herdr.snapshot.clone();
    let old_mapping = state.pane_terminals.clone();
    let old_selected = state.selected_pane;

    // A change of runtime after the frame was decoded.
    state.operation_epoch = 5;
    state.runtime_operations_ready = false;
    state.terminal_input_ready = false;
    state.recovery.phase = RecoveryPhase::Stopped;
    assert_eq!(
        strict_frame_allowed(&state, gate, owner),
        Err(FlowFailure::Stale)
    );
    assert_eq!(
        commit_strict_frame(&mut state, gate, owner, strict_frame_projection(owner, "new")),
        Err(FlowFailure::Stale)
    );
    assert_eq!(
        commit_projection(&mut state, gate, strict_frame_projection(owner, "new")),
        Err(FlowFailure::Stale)
    );

    // A refused commit publishes nothing.
    assert_eq!(state.snapshot, old_snapshot);
    assert_eq!(state.herdr.snapshot, old_herdr);
    assert_eq!(state.pane_terminals, old_mapping);
    assert_eq!(state.selected_pane, old_selected);
    assert!(!state.runtime_operations_ready);
    assert!(!state.terminal_input_ready);
    assert_eq!(state.recovery.phase, RecoveryPhase::Stopped);
}

#[test]
fn strict_first_full_frame_commit_publishes_projection_ready_and_fresh_input() {
    let owner = 7;
    let mut state = strict_frame_state(owner);
    let gate = CommitGate {
        cancelled: false,
        generation: state.generation,
        epoch: 4,
    };
    let projection = strict_frame_projection(owner, "new");
    let expected_metadata = projection.metadata.snapshot.clone();
    let expected_flat = projection.flat.clone();
    let expected_windows = projection.windows.clone();
    let expected_mapping = projection.mapping.clone();
    let frames = FrameState::attached(true);
    let step = frames.step(1, true, true).expect("strict-frame step");
    assert_eq!(step, FrameStep::CommitStrict);
    assert_eq!(
        commit_strict_frame(&mut state, gate, owner, projection),
        Ok(Vec::new())
    );
    let frames = frames.after(1, step, false);

    assert_eq!(state.snapshot.panes, expected_flat);
    assert_eq!(state.snapshot.windows, expected_windows);
    assert_eq!(state.pane_terminals, expected_mapping);
    assert_eq!(state.selected_pane, Some(owner));
    assert_eq!(state.herdr.snapshot, expected_metadata);
    assert_eq!(
        frames,
        FrameState {
            seq: Some(1),
            ready: true,
            strict: false,
        }
    );
    // Frames go on behind the committed one, and no second commit follows.
    assert_eq!(frames.step(1, true, true), Err(FlowFailure::HerdrProtocol));
    assert_eq!(frames.step(2, true, true), Ok(FrameStep::Restore));
    assert_eq!(frames.step(2, false, true), Ok(FrameStep::Feed));
    assert_eq!(
        input_call(SemanticInput::Text("fresh".to_owned(), Modifiers::none())),
        Ok(InputCall::SendText("fresh".to_owned()))
    );
}

#[test]
fn a_strict_frame_is_not_committed_to_a_pane_that_left_the_screen() {
    let owner = 7;
    let mut state = strict_frame_state(owner);
    let gate = CommitGate {
        cancelled: false,
        generation: state.generation,
        epoch: 4,
    };
    let old_snapshot = state.snapshot.clone();
    let old_herdr = state.herdr.snapshot.clone();

    state.terminal_visible = false;
    assert_eq!(
        commit_strict_frame(&mut state, gate, owner, strict_frame_projection(owner, "new")),
        Err(FlowFailure::Stale)
    );
    state.terminal_visible = true;
    state.selected_pane = Some(owner + 1);
    assert_eq!(
        commit_strict_frame(&mut state, gate, owner, strict_frame_projection(owner, "new")),
        Err(FlowFailure::Stale)
    );
    assert_eq!(state.selected_pane, Some(owner + 1));
    assert_eq!(state.snapshot, old_snapshot);
    assert_eq!(state.herdr.snapshot, old_herdr);
}

fn herdr_pane(
    pane_id: &str,
    terminal_id: &str,
    name: Option<&str>,
    agent_name: Option<&str>,
    status: wire::AgentStatus,
    focused: bool,
) -> wire::HerdrPane {
    wire::HerdrPane {
        pane_id: pane_id.to_owned(),
        terminal_id: terminal_id.to_owned(),
        name: name.map(str::to_owned),
        focused,
        agent_name: agent_name.map(str::to_owned),
        agent_status: status,
    }
}

fn live_snapshot() -> wire::HerdrSessionSnapshot {
    wire::HerdrSessionSnapshot {
        version: wire::HERDR_VERSION.to_owned(),
        protocol: wire::HERDR_PROTOCOL,
        focused_workspace_id: Some("workspace-main".to_owned()),
        focused_tab_id: Some("tab-live".to_owned()),
        focused_pane_id: Some("pane-agent".to_owned()),
        workspaces: vec![
            wire::HerdrWorkspace {
                workspace_id: "workspace-empty".to_owned(),
                name: "Empty workspace".to_owned(),
                agent_status: wire::AgentStatus::Unknown,
                groups: Vec::new(),
                worktree: None,
            },
            wire::HerdrWorkspace {
                workspace_id: "workspace-main".to_owned(),
                name: "Main workspace".to_owned(),
                agent_status: wire::AgentStatus::Working,
                groups: vec![
                    wire::HerdrGroup {
                        tab_id: "tab-empty".to_owned(),
                        name: "Empty tab".to_owned(),
                        focused: false,
                        agent_status: wire::AgentStatus::Done,
                        panes: Vec::new(),
                    },
                    wire::HerdrGroup {
                        tab_id: "tab-live".to_owned(),
                        name: "Live tab".to_owned(),
                        focused: true,
                        agent_status: wire::AgentStatus::Blocked,
                        panes: vec![
                            herdr_pane(
                                "pane-agentless",
                                "terminal-agentless",
                                None,
                                None,
                                wire::AgentStatus::Unknown,
                                false,
                            ),
                            herdr_pane(
                                "pane-agent",
                                "terminal-agent",
                                Some("Agent pane"),
                                Some("Agent"),
                                wire::AgentStatus::Idle,
                                true,
                            ),
                        ],
                    },
                ],
                worktree: None,
            },
        ],
    }
}

#[test]
fn apply_snapshot_projection_keeps_distinct_workspace_group_and_pane_statuses() {
    let projection = project(Metadata::default(), HashMap::new(), None, live_snapshot());
    let projected = &projection.metadata.snapshot;

    let empty_workspace = projected
        .workspaces
        .iter()
        .find(|workspace| workspace.name == "Empty workspace")
        .expect("empty workspace projection");
    assert_eq!(
        empty_workspace.agent_status,
        Some(workspace::AgentStatus::Unknown)
    );
    let main_workspace = projected
        .workspaces
        .iter()
        .find(|workspace| workspace.name == "Main workspace")
        .expect("main workspace projection");
    assert_eq!(
        main_workspace.agent_status,
        Some(workspace::AgentStatus::Working)
    );

    let empty_tab = projected
        .groups
        .iter()
        .find(|group| group.name == "Empty tab")
        .expect("empty tab projection");
    assert_eq!(empty_tab.agent_status, Some(workspace::AgentStatus::Done));
    let live_tab = projected
        .groups
        .iter()
        .find(|group| group.name == "Live tab")
        .expect("live tab projection");
    assert_eq!(live_tab.agent_status, Some(workspace::AgentStatus::Blocked));

    let agentless = projected
        .terminals
        .iter()
        .find(|terminal| terminal.name == "Terminal 1")
        .expect("agentless pane projection");
    assert!(agentless.agent.is_none());
    assert_eq!(agentless.group_id, live_tab.id);
    let agent = projected
        .terminals
        .iter()
        .find(|terminal| terminal.name == "Agent pane")
        .expect("agent pane projection");
    let agent_status = agent.agent.as_ref().expect("agent metadata");
    assert_eq!(agent_status.name, "Agent");
    assert_eq!(agent_status.status, workspace::AgentStatus::Idle);
    assert_eq!(projection.selected, Some(agent.id.parse().unwrap()));
    assert_eq!(projection.flat.len(), 2);
    assert_eq!(projected.backend, Backend::Herdr);
    assert_eq!(projected.runtime, "default");
}

#[test]
fn a_projection_gives_each_remote_item_one_handle() {
    let projection = project(Metadata::default(), HashMap::new(), None, live_snapshot());
    // Two workspaces, two tabs and two terminals.
    let mut handles: Vec<u64> = projection
        .metadata
        .ids
        .iter()
        .map(|entry| entry.handle)
        .collect();
    handles.sort();
    assert_eq!(
        handles,
        (1_000_000..1_000_006).collect::<Vec<u64>>()
    );
    let panes: Vec<u64> = projection.flat.iter().map(|pane| pane.pane_id).collect();
    assert_eq!(projection.mapping.len(), 2);
    for pane in &panes {
        assert!(projection.mapping[pane] >= 2_000_000);
    }
    assert_eq!(projection.selected, Some(projection.flat[1].pane_id));
    assert_eq!(projection.windows.len(), 2);
    let state = SessionState::default();
    let old_selected = state.selected_pane;
    let projection = settle_projection(projection, &state, false, 0, old_selected, None)
        .ok()
        .expect("a current read");
    assert!(projection.flat[1].selected);
    assert!(!projection.flat[0].selected);
    assert_eq!(projection.windows[0].panes.len(), 0);
    assert_eq!(projection.windows[1].panes, projection.flat);
    assert!(projection.windows[1].selected);

    // A second read of the same snapshot needs no new handle and keeps all.
    let metadata = projection.metadata;
    assert_eq!(Placement::handles_needed(&metadata, &live_snapshot()), 0);
    let before: Vec<u64> = panes.clone();
    let again = project(metadata, projection.mapping, projection.selected, live_snapshot());
    let after: Vec<u64> = again.flat.iter().map(|pane| pane.pane_id).collect();
    assert_eq!(after, before);
    assert!(again.stale.is_empty());
}

#[test]
fn a_closed_remote_terminal_is_stale() {
    let first = project(Metadata::default(), HashMap::new(), None, live_snapshot());
    let gone = first.flat[0].terminal_id;
    let mut snapshot = live_snapshot();
    snapshot.workspaces[1].groups[1].panes.remove(0);
    let second = project(first.metadata, first.mapping, first.selected, snapshot);
    assert_eq!(second.stale, vec![gone]);
    assert_eq!(second.flat.len(), 1);
    assert_eq!(second.selected, Some(second.flat[0].pane_id));
}

#[test]
fn a_linked_worktree_marks_its_parent_workspace() {
    let mut snapshot = live_snapshot();
    snapshot.workspaces[0].worktree = Some(wire::Worktree {
        repo_key: "repo".to_owned(),
        is_linked_worktree: true,
    });
    snapshot.workspaces[1].worktree = Some(wire::Worktree {
        repo_key: "repo".to_owned(),
        is_linked_worktree: false,
    });
    let projection = project(Metadata::default(), HashMap::new(), None, snapshot);
    let parent: u64 = projection.metadata.snapshot.workspaces[1].id.parse().unwrap();
    let linked: u64 = projection.metadata.snapshot.workspaces[0].id.parse().unwrap();
    assert!(projection.metadata.linked_worktree_parents.contains(&parent));
    assert!(!projection.metadata.linked_worktree_parents.contains(&linked));
}

#[test]
fn a_strict_projection_selects_its_terminal_or_fails() {
    let state = SessionState {
        generation: 9,
        ..SessionState::default()
    };
    let first = project(Metadata::default(), HashMap::new(), None, live_snapshot());
    let agentless = first.flat[0].pane_id;
    let settled = settle_projection(first, &state, false, 9, None, Some("terminal-agentless"))
        .ok()
        .expect("the terminal is shown");
    assert_eq!(settled.selected, Some(agentless));
    assert!(settled.flat[0].selected);
    assert!(!settled.flat[1].selected);

    let other = project(Metadata::default(), HashMap::new(), None, live_snapshot());
    assert_eq!(
        settle_projection(other, &state, false, 9, None, Some("terminal-gone")).err(),
        Some(FlowFailure::HerdrSessionMissing)
    );
    let other = project(Metadata::default(), HashMap::new(), None, live_snapshot());
    assert_eq!(
        settle_projection(other, &state, false, 8, None, None).err(),
        Some(FlowFailure::Stale)
    );
}

#[test]
fn a_selection_made_during_a_read_wins() {
    let first = project(Metadata::default(), HashMap::new(), None, live_snapshot());
    let agentless = first.flat[0].pane_id;
    let state = SessionState {
        generation: 9,
        selected_pane: Some(agentless),
        ..SessionState::default()
    };
    let settled = settle_projection(first, &state, false, 9, None, None)
        .ok()
        .expect("a current read");
    assert_eq!(settled.selected, Some(agentless));
}

#[test]
fn natives_that_were_not_committed_are_discarded() {
    let mapping = HashMap::from([(1, 11), (2, 12), (3, 13)]);
    let committed = HashMap::from([(1, 11)]);
    let mut discarded = discarded_natives(&mapping, &committed, 13);
    discarded.sort();
    assert_eq!(discarded, vec![12]);
}

#[test]
fn closing_reads_the_topology_again_before_it_asks() {
    let (flow, action) = HerdrFlow::begin(HerdrProgram::Change { reread: true });
    assert_eq!(action, HerdrAction::Synchronize);
    let (flow, action) = flow.advance(HerdrFact::Succeeded);
    assert_eq!(action, HerdrAction::BuildRequest);
    let (flow, action) = flow.advance(HerdrFact::Built { release: true });
    assert_eq!(action, HerdrAction::Release);
    let (flow, action) = flow.advance(HerdrFact::Succeeded);
    assert_eq!(action, HerdrAction::SendRequest);
    let (flow, action) = flow.advance(HerdrFact::Failed(FlowFailure::HerdrWorkspaceGroup));
    assert_eq!(flow.phase, HerdrPhase::Ended);
    assert_eq!(action, HerdrAction::Fail(FlowFailure::HerdrWorkspaceGroup));
}

#[test]
fn handles_read_as_decimal_numbers() {
    assert_eq!(handle_text(0), "0");
    assert_eq!(handle_text(u64::MAX), "18446744073709551615");
}
