use std::collections::HashMap;

use meeterm_core::input::{KeyCode, Modifiers};
use meeterm_core::ssh::command::ControlCommand;
use meeterm_core::ssh::commit::CommitGate;
use meeterm_core::ssh::flow::FlowFailure;
use meeterm_core::ssh::herdr::command::{plan_herdr_command, HerdrAction, HerdrFact, HerdrFlow};
use meeterm_core::ssh::herdr::exchange::{
    refused, CommandOutput, Exchange, ExchangeAction, ExchangeFact, ExchangeKind, OutputMessage,
};
use meeterm_core::ssh::herdr::handles::{assign_values, find_handle, values_needed};
use meeterm_core::ssh::herdr::input::{
    character_key, input_call, modifiers_prefix, semantic_key, InputCall, InputContext, InputStep,
    SemanticInput,
};
use meeterm_core::ssh::herdr::metadata::{parse_handle, IdEntry, RemotePane};
use meeterm_core::ssh::herdr::records::{RecordBuffer, RecordMessage, RecordStep};
use meeterm_core::ssh::herdr::recovery::{
    is_recovery_local_failure, judge_listing, listing_status, publish_recovery_candidate,
    recovery_candidate, recovery_reason_for_failure, recovery_token, token_with_digest,
    DiscoveredSession, Discovery, Listed, RecoverAction, RecoverFact, Recovery, RecoveryTarget,
    ResolverFailures, StopReason, TokenScope,
};
use meeterm_core::ssh::herdr::request::{
    api_failure, api_request, frame_record, frame_request, next_request, queue_records, request_id, ApiMethod,
    ApiParam, ApiValue,
};
use meeterm_core::ssh::herdr::run::{
    recovery_epoch, starting_epoch, HerdrRun, HerdrRunAction, HerdrRunFact,
};
use meeterm_core::ssh::herdr::select::{select_created, select_group, select_pane_payload};
use meeterm_core::ssh::herdr::session::{
    check_status, command_status, created_terminal, herdr_turn, is_event, is_session_snapshot,
    is_terminal_closed, pane_aliases, probe_failure, resize_step, subscriptions, sync_round,
    HerdrTurn, ResizeStep, RoundStep,
};
use meeterm_core::ssh::herdr::terminal::{
    activation_target, admit_frame, closed_failure, control_arguments, frame_shown,
    release_reply, release_step, ActivateAction, ActivateFact, Activation, FrameState,
    FrameStep, ReleaseStep, ShownStep,
};
use meeterm_core::ssh::herdr::wire;
use meeterm_core::ssh::state::{ConnectionProfile, RuntimeBinding, SessionState};
use meeterm_core::tmux::PaneSnapshot;
use meeterm_core::workspace;
use meeterm_core::workspace::{RecoveryPhase, RuntimeSectionState};

fn status(schema: &str, protocol: u32, session: &str) -> Vec<u8> {
    format!(
        "{{\"server\":{{\"running\":true,\"version\":\"0.9.0\",\"protocol\":{protocol},\
         \"socket\":\"/run/herdr.sock\",\"session\":\"{session}\"}},\
         \"client\":{{\"protocol\":22,\"session\":\"{session}\"}}{schema}}}"
    )
    .into_bytes()
}

#[test]
fn a_status_report_is_held_to_version_protocol_schema_and_session() {
    assert_eq!(
        check_status(&status("", 22, "main"), Some("main")),
        Ok("/run/herdr.sock".to_owned())
    );
    assert_eq!(
        check_status(&status(",\"schema\":1", 22, "main"), Some("main")),
        Ok("/run/herdr.sock".to_owned())
    );
    assert_eq!(
        check_status(&status(",\"schema\":2", 22, "main"), Some("main")),
        Err(FlowFailure::HerdrIncompatible)
    );
    assert_eq!(
        check_status(&status("", 23, "main"), Some("main")),
        Err(FlowFailure::HerdrIncompatible)
    );
    assert_eq!(
        check_status(&status("", 22, "other"), Some("main")),
        Err(FlowFailure::HerdrIncompatible)
    );
    assert_eq!(
        check_status(b"{\"server\":{\"running\":false}}", None),
        Err(FlowFailure::HerdrSessionMissing)
    );
    assert_eq!(
        check_status(b"not json", None),
        Err(FlowFailure::HerdrProtocol)
    );
}

#[test]
fn command_and_probe_failures_are_told_apart() {
    assert_eq!(command_status(Some(0)), Ok(()));
    assert_eq!(command_status(Some(127)), Err(FlowFailure::HerdrMissing));
    assert_eq!(command_status(None), Err(FlowFailure::HerdrOperation));
    assert_eq!(
        probe_failure(FlowFailure::HerdrOperation),
        FlowFailure::HerdrSessionMissing
    );
    assert_eq!(
        probe_failure(FlowFailure::HerdrMissing),
        FlowFailure::HerdrMissing
    );
}

#[test]
fn records_are_classified_by_their_members() {
    assert!(is_event(b"{\"event\":\"tab.created\"}"));
    assert!(!is_event(b"{\"id\":\"meeterm-1\"}"));
    assert!(is_terminal_closed(b"{\"type\":\"terminal.closed\"}"));
    assert!(!is_terminal_closed(b"{\"type\":\"terminal.frame\"}"));
    assert!(is_session_snapshot(b"{\"type\":\"session_snapshot\"}"));
    assert_eq!(
        created_terminal(b"{\"root_pane\":{\"terminal_id\":\"t9\"}}", false),
        Some("t9".to_owned())
    );
    assert_eq!(
        created_terminal(b"{\"pane\":{\"terminal_id\":\"t8\"}}", true),
        Some("t8".to_owned())
    );
    assert_eq!(
        created_terminal(b"{\"pane\":{\"terminal_id\":\"t8\"}}", false),
        None
    );
}

#[test]
fn each_pane_is_subscribed_to_after_the_topology() {
    let all = subscriptions(&vec!["p1".to_owned()]);
    assert_eq!(all.len(), 17);
    assert_eq!(all[0].event, "workspace.created");
    assert_eq!(all[0].pane, None);
    assert_eq!(all[16].event, "pane.agent_status_changed");
    assert_eq!(all[16].pane, Some("p1".to_owned()));
}

fn one_pane_snapshot() -> wire::HerdrSessionSnapshot {
    wire::HerdrSessionSnapshot {
        version: "0.9.0".to_owned(),
        protocol: 22,
        focused_workspace_id: None,
        focused_tab_id: None,
        focused_pane_id: None,
        workspaces: vec![wire::HerdrWorkspace {
            workspace_id: "w".to_owned(),
            name: "W".to_owned(),
            agent_status: wire::AgentStatus::Unknown,
            groups: vec![wire::HerdrGroup {
                tab_id: "t".to_owned(),
                name: "T".to_owned(),
                focused: true,
                agent_status: wire::AgentStatus::Unknown,
                panes: vec![wire::HerdrPane {
                    pane_id: "p1".to_owned(),
                    terminal_id: "term".to_owned(),
                    name: None,
                    focused: true,
                    agent_name: None,
                    agent_status: wire::AgentStatus::Unknown,
                }],
            }],
            worktree: None,
        }],
    }
}

#[test]
fn a_read_is_applied_once_its_panes_are_subscribed() {
    let snapshot = one_pane_snapshot();
    assert_eq!(
        sync_round(0, &snapshot, &Vec::new()),
        RoundStep::Resubscribe
    );
    assert_eq!(
        sync_round(1, &snapshot, &vec!["p1".to_owned()]),
        RoundStep::Apply
    );
    assert_eq!(
        sync_round(8, &snapshot, &vec!["p1".to_owned()]),
        RoundStep::Fail(FlowFailure::Transport)
    );
    let mut newer = one_pane_snapshot();
    newer.protocol = 23;
    assert_eq!(
        sync_round(0, &newer, &Vec::new()),
        RoundStep::Fail(FlowFailure::HerdrIncompatible)
    );
}

#[test]
fn a_pane_that_is_shown_twice_is_subscribed_once() {
    let mut snapshot = one_pane_snapshot();
    let again = one_pane_snapshot().workspaces.remove(0);
    snapshot.workspaces.push(again);
    assert_eq!(pane_aliases(&snapshot.workspaces), vec!["p1"]);
    let once = subscriptions(&pane_aliases(&one_pane_snapshot().workspaces)).len();
    assert_eq!(
        subscriptions(&pane_aliases(&snapshot.workspaces)).len(),
        once
    );
    assert_eq!(
        sync_round(0, &snapshot, &vec!["p1".to_owned()]),
        RoundStep::Apply
    );
}

#[test]
fn a_turn_leaves_on_cancellation_or_recovery() {
    assert_eq!(herdr_turn(false, false, false), HerdrTurn::Wait);
    assert!(matches!(
        herdr_turn(true, false, false),
        HerdrTurn::Leave(_)
    ));
    assert!(matches!(
        herdr_turn(false, false, true),
        HerdrTurn::Leave(_)
    ));
    assert_eq!(
        resize_step(Some((80, 24)), true, true),
        ResizeStep::Send {
            columns: 80,
            rows: 24
        }
    );
    assert_eq!(resize_step(None, true, true), ResizeStep::StopWatching);
    assert_eq!(resize_step(Some((80, 24)), false, true), ResizeStep::Ignore);
}

fn state_with_pane() -> SessionState {
    let mut state = SessionState {
        generation: 3,
        operation_epoch: 5,
        terminal_visible: true,
        ..SessionState::default()
    };
    state.herdr.workspaces.insert(100, "remote-w".to_owned());
    state.herdr.groups.insert(1, "remote-t".to_owned());
    state.herdr.snapshot.groups.push(workspace::TerminalGroup {
        id: "1".to_owned(),
        workspace_id: "100".to_owned(),
        name: "T".to_owned(),
        selected: true,
        agent_status: None,
    });
    state.herdr.panes.insert(
        10,
        RemotePane {
            pane_id: "remote-p".to_owned(),
            terminal_id: "term-10".to_owned(),
            workspace: 100,
            group: 1,
        },
    );
    state.pane_terminals.insert(10, 110);
    state.herdr.selected_groups.insert(100, 1);
    state.snapshot.panes.push(PaneSnapshot {
        window_id: 100,
        pane_id: 10,
        terminal_id: 110,
        window_name: "W".to_owned(),
        pane_name: "P".to_owned(),
        title: "P".to_owned(),
        active: true,
        selected: false,
        index: 0,
        columns: 80,
        rows: 24,
    });
    state
}

fn text(name: &'static str, value: &str) -> ApiParam {
    ApiParam {
        name,
        value: ApiValue::Text(value.to_owned()),
    }
}

fn flag(name: &'static str, value: bool) -> ApiParam {
    ApiParam {
        name,
        value: ApiValue::Flag(value),
    }
}

#[test]
fn requests_name_the_remote_items() {
    let mut state = state_with_pane();
    let request = api_request(
        &ControlCommand::RenameGroup {
            group_id: 1,
            name: "new".to_owned(),
        },
        &state,
    )
    .expect("a request");
    assert_eq!(request.method, ApiMethod::TabRename);
    assert_eq!(request.method.name(), "tab.rename");
    assert_eq!(
        request.params,
        vec![text("tab_id", "remote-t"), text("label", "new")]
    );

    let request = api_request(&ControlCommand::CloseWorkspace { window_id: 100 }, &state)
        .expect("a request");
    assert_eq!(
        request.params,
        vec![text("workspace_id", "remote-w"), flag("close_group", false)]
    );

    let request =
        api_request(&ControlCommand::ClosePane { pane_id: 10 }, &state).expect("a request");
    assert_eq!(request.params, vec![text("pane_id", "remote-p")]);
    assert!(request.method.releases_terminal());

    let request =
        api_request(&ControlCommand::CreatePane { window_id: 100 }, &state).expect("a request");
    assert_eq!(
        request.params,
        vec![
            text("target_pane_id", "remote-p"),
            text("direction", "right"),
            flag("focus", false)
        ]
    );

    assert_eq!(
        api_request(&ControlCommand::ClosePane { pane_id: 99 }, &state).err(),
        Some(FlowFailure::HerdrOperation)
    );
    state.herdr.linked_worktree_parents.insert(100);
    assert_eq!(
        api_request(&ControlCommand::CloseGroup { group_id: 1 }, &state).err(),
        Some(FlowFailure::HerdrWorkspaceGroup)
    );
    assert_eq!(
        api_request(&ControlCommand::RefreshTerminal, &state).err(),
        Some(FlowFailure::HerdrOperation)
    );
}

#[test]
fn api_records_are_numbered_framed_and_bounded() {
    assert_eq!(next_request(0), Ok(1));
    assert_eq!(next_request(u64::MAX), Err(FlowFailure::HerdrProtocol));
    assert_eq!(request_id(12), "meeterm-12");
    assert_eq!(frame_record(b"{}".to_vec()), Ok(b"{}\n".to_vec()));
    assert_eq!(frame_request(b"{}".to_vec()), Ok(b"{}\n".to_vec()));
    assert!(frame_record(vec![b' '; 4_194_304]).is_ok());
    assert_eq!(
        frame_request(vec![b' '; 4_194_304]),
        Err(FlowFailure::HerdrProtocol)
    );
    assert_eq!(
        frame_record(vec![b' '; 4_194_305]),
        Err(FlowFailure::HerdrProtocol)
    );
    assert_eq!(queue_records(200, 56), Ok(()));
    assert_eq!(queue_records(200, 57), Err(FlowFailure::HerdrProtocol));
    assert_eq!(
        api_failure("confirmation_required"),
        FlowFailure::HerdrWorkspaceGroup
    );
    assert_eq!(
        api_failure("method_not_found"),
        FlowFailure::HerdrUnsupported
    );
    assert_eq!(api_failure("boom"), FlowFailure::HerdrOperation);
}

#[test]
fn selections_keep_their_remote_target() {
    let mut state = state_with_pane();
    assert_eq!(select_pane_payload(&mut state, 5, 100, 10), Ok(()));
    assert_eq!(state.selected_pane, Some(10));
    assert_eq!(state.herdr.active_group, Some(1));
    assert_eq!(
        select_pane_payload(&mut state, 4, 100, 10),
        Err(FlowFailure::Stale)
    );
    assert!(select_pane_payload(&mut state, 5, 200, 10).is_err());
    assert_eq!(select_group(&mut state, 1), Ok(()));
    assert!(select_group(&mut state, 9).is_err());
    assert!(select_created(&mut state, "term-10"));
    assert!(!select_created(&mut state, "term-gone"));
}

#[test]
fn keys_have_semantic_names() {
    let held = Modifiers {
        shift: true,
        alt: true,
        ctrl: true,
    };
    assert_eq!(modifiers_prefix(held), "ctrl+alt+shift+");
    assert_eq!(
        semantic_key(KeyCode::F5, Modifiers::shift()),
        Some("shift+f5".to_owned())
    );
    assert_eq!(
        semantic_key(KeyCode::Interrupt, Modifiers::none()),
        Some("ctrl+c".to_owned())
    );
    assert_eq!(semantic_key(KeyCode::Home, Modifiers::none()), None);
    assert_eq!(
        character_key('+', Modifiers::ctrl()),
        Some("ctrl+plus".to_owned())
    );
    // The committed character already has its case.
    assert_eq!(character_key('A', held), Some("ctrl+alt+A".to_owned()));
    assert_eq!(character_key('\u{7}', Modifiers::ctrl()), None);
}

#[test]
fn inputs_become_calls() {
    assert_eq!(input_call(SemanticInput::Scroll(0)), Ok(InputCall::Nothing));
    assert_eq!(
        input_call(SemanticInput::Scroll(-70_000)),
        Ok(InputCall::Scroll {
            up: false,
            lines: 65_535
        })
    );
    assert_eq!(
        input_call(SemanticInput::Scroll(i32::MIN)),
        Ok(InputCall::Scroll {
            up: false,
            lines: 65_535
        })
    );
    assert_eq!(
        input_call(SemanticInput::Paste("a\nb".to_owned())),
        Ok(InputCall::SendInput("a\nb".to_owned()))
    );
    assert_eq!(
        input_call(SemanticInput::Text("ab".to_owned(), Modifiers::ctrl())),
        Ok(InputCall::SendKeys(vec![
            "ctrl+a".to_owned(),
            "ctrl+b".to_owned()
        ]))
    );
    assert_eq!(
        input_call(SemanticInput::Key(KeyCode::Home, Modifiers::none())),
        Ok(InputCall::SendText("\u{1b}[H".to_owned()))
    );
}

#[test]
fn input_is_dropped_unless_its_terminal_faces_the_user() {
    let open = InputContext {
        cancelled: false,
        controller_ready: true,
        input_ready: true,
        selected: Some(10),
        controller: Some(10),
        visible: true,
        foreground: true,
    };
    assert_eq!(open.arrived(true), InputStep::ScrollStream);
    assert_eq!(open.arrived(false), InputStep::ResetView);
    assert_eq!(open.view_reset(), InputStep::Send);
    let other = InputContext {
        controller: Some(11),
        ..open
    };
    assert_eq!(other.arrived(false), InputStep::Drop);
    let hidden = InputContext {
        visible: false,
        ..open
    };
    assert_eq!(hidden.view_reset(), InputStep::Drop);
}

#[test]
fn an_activation_opens_starts_and_waits_for_a_frame() {
    let mut state = state_with_pane();
    state.selected_pane = Some(10);
    let target = activation_target(&state, None, Some(10)).expect("a target");
    assert_eq!(target.terminal, Some("term-10".to_owned()));
    assert_eq!(target.native, Some(110));
    assert_eq!(
        activation_target(&state, None, Some(11)).err(),
        Some(FlowFailure::Stale)
    );
    let (flow, action) = Activation::begin(true, &target, None);
    assert_eq!(action, ActivateAction::Release);
    let (flow, action) = flow.advance(ActivateFact::Released {
        epoch_current: true,
        foreground: true,
    });
    assert_eq!(action, ActivateAction::OpenChannel);
    let (flow, action) = flow.advance(ActivateFact::Opened {
        epoch_current: true,
    });
    assert_eq!(action, ActivateAction::StartControl);
    let (flow, action) = flow.advance(ActivateFact::Started {
        epoch_current: true,
    });
    assert_eq!(action, ActivateAction::Attach);
    let (flow, action) = flow.advance(ActivateFact::Attached);
    assert_eq!(action, ActivateAction::AwaitFrame);
    assert_eq!(flow.advance(ActivateFact::Shown).1, ActivateAction::Done);

    // The attached terminal is resumed.
    assert_eq!(
        Activation::begin(true, &target, Some(10)).1,
        ActivateAction::Resume
    );
    assert_eq!(
        control_arguments("term-10", 80, 24),
        vec!["terminal", "session", "control", "term-10", "--cols", "80", "--rows", "24"]
    );
}

#[test]
fn the_first_frame_is_complete_and_later_ones_are_in_order() {
    let frames = FrameState::attached(false);
    assert_eq!(
        frames.step(1, false, false),
        Err(FlowFailure::HerdrProtocol)
    );
    assert_eq!(frames.step(1, true, false), Ok(FrameStep::Restore));
    let shown = frames.after(1, FrameStep::Restore, true);
    assert_eq!(
        shown,
        FrameState {
            seq: Some(1),
            ready: true,
            strict: false,
        }
    );
    assert_eq!(shown.step(2, false, false), Ok(FrameStep::Feed));
    assert_eq!(
        shown
            .after(2, FrameStep::Feed, false)
            .step(2, false, false),
        Err(FlowFailure::HerdrProtocol)
    );
    assert!(!frames.after(1, FrameStep::Restore, false).ready);
    assert_eq!(
        FrameState::attached(true).step(1, true, false),
        Err(FlowFailure::HerdrProtocol)
    );
    let mut state = state_with_pane();
    state.selected_pane = Some(10);
    let gate = CommitGate {
        cancelled: false,
        generation: 3,
        epoch: 5,
    };
    assert_eq!(admit_frame(&state, gate, 10, false), Ok(true));
    assert_eq!(admit_frame(&state, gate, 11, false), Ok(false));
    state.operation_epoch = 6;
    assert_eq!(
        admit_frame(&state, gate, 10, false),
        Err(FlowFailure::Stale)
    );
    assert_eq!(frame_shown(false, true), ShownStep::Publish);
    assert_eq!(frame_shown(false, false), ShownStep::LeaveClosed);
    assert_eq!(frame_shown(true, false), ShownStep::Resume);
}

#[test]
fn a_release_waits_for_its_answer() {
    assert_eq!(release_step(false, true, false), ReleaseStep::Nothing);
    assert_eq!(release_step(true, false, false), ReleaseStep::CloseOnly);
    assert_eq!(release_step(true, false, true), ReleaseStep::Ask);
    assert_eq!(release_reply(Ok(false)), None);
    assert_eq!(release_reply(Ok(true)), Some(Ok(())));
    assert_eq!(release_reply(Err(FlowFailure::RemoteClosed)), Some(Ok(())));
    assert_eq!(
        release_reply(Err(FlowFailure::Transport)),
        Some(Err(FlowFailure::Transport))
    );
    assert_eq!(
        closed_failure(Some("control was taken over by another client")),
        FlowFailure::HerdrController
    );
    assert_eq!(closed_failure(None), FlowFailure::RemoteClosed);
}

#[test]
fn listings_and_resolvers_report_what_is_missing() {
    assert_eq!(listing_status(Some(0), b""), Ok(()));
    assert_eq!(
        listing_status(Some(1), b"\xffPermission denied"),
        Err(FlowFailure::HerdrDiscoveryPermission)
    );
    assert_eq!(
        judge_listing(Some(1), "boom"),
        Err(FlowFailure::HerdrDiscoveryMalformed)
    );
    assert_eq!(
        judge_listing(Some(127), ""),
        Err(FlowFailure::HerdrDiscoveryMissing)
    );
    let failures = ResolverFailures::of(true);
    assert_eq!(failures.resolver_status(Some(0)), Ok(()));
    assert_eq!(
        failures.resolver_status(Some(127)),
        Err(FlowFailure::HerdrDiscoveryMissing)
    );
    assert_eq!(
        failures.schema_status(Some(1)),
        Err(FlowFailure::HerdrDiscoveryIncompatible)
    );
    assert_eq!(failures.accept_executable("/bin/herdr", None), Ok(()));
    assert_eq!(
        ResolverFailures::of(false).accept_executable("/bin/herdr", Some("/opt/herdr")),
        Err(FlowFailure::HerdrIncompatible)
    );
}

fn session(name: &str, running: bool, executable: &str) -> DiscoveredSession {
    DiscoveredSession {
        name: name.to_owned(),
        default: false,
        running,
        executable: executable.to_owned(),
    }
}

#[test]
fn a_recovery_offers_only_its_own_running_session() {
    let discovery = Discovery {
        sessions: vec![
            session("main", false, "/bin/herdr"),
            session("main", true, "/bin/herdr"),
            session("old", true, "/opt/herdr"),
        ],
        executable: "/bin/herdr".to_owned(),
    };
    assert_eq!(recovery_candidate(&discovery, Some("main")), Ok(1));
    assert_eq!(
        recovery_candidate(&discovery, Some("old")),
        Err(FlowFailure::HerdrIncompatible)
    );
    assert_eq!(
        recovery_candidate(&discovery, Some("gone")),
        Err(FlowFailure::HerdrSessionMissing)
    );

    let mut state = state_with_pane();
    state.runtime_discovery.discovery_revision = 8;
    let gate = CommitGate {
        cancelled: false,
        generation: 3,
        epoch: 5,
    };
    let profile = ConnectionProfile {
        runtime: Some("main".to_owned()),
        herdr_executable: Some("/bin/herdr".to_owned()),
        ..ConnectionProfile::default()
    };
    assert_eq!(
        publish_recovery_candidate(&mut state, gate, &profile, &discovery.sessions[1]),
        Ok(9)
    );
    assert_eq!(state.profile, Some(profile));
    assert_eq!(state.runtime_candidates.len(), 1);
    assert_eq!(state.runtime_candidates[0].id, "recovery-3-herdr-9");
    assert_eq!(
        state.runtime_candidates[0].binding,
        RuntimeBinding::Herdr {
            name: "main".to_owned(),
            default: false,
            executable: "/bin/herdr".to_owned()
        }
    );
    assert_eq!(
        state.runtime_discovery.tmux.state,
        RuntimeSectionState::Empty
    );
    let stale = CommitGate { epoch: 4, ..gate };
    let other = ConnectionProfile::default();
    assert_eq!(
        publish_recovery_candidate(&mut state, stale, &other, &discovery.sessions[1]),
        Err(FlowFailure::Stale)
    );
    assert_ne!(state.profile, Some(other));
}

#[test]
fn a_recovery_token_names_its_scope_and_target() {
    let scope = TokenScope {
        generation: 3,
        epoch: 5,
        revision: 9,
        serial: 1,
    };
    assert_eq!(
        token_with_digest(scope, 0xab),
        "herdr-recovery-3-5-9-00000000000000ab-1"
    );
    let first = recovery_token(scope, &RecoveryTarget::Terminal("a".to_owned())).expect("a token");
    let second = recovery_token(scope, &RecoveryTarget::Terminal("b".to_owned())).expect("a token");
    assert!(first.starts_with("herdr-recovery-3-5-9-"));
    assert_ne!(first, second);
    assert_eq!(recovery_token(scope, &RecoveryTarget::Missing), None);
}

#[test]
fn a_recovery_runs_only_after_its_confirmation() {
    let target = RecoveryTarget::Terminal("term-10".to_owned());
    let (flow, action) = Recovery::begin(&target);
    assert_eq!(action, RecoverAction::ReadEpoch);
    let (flow, action) = flow.advance(RecoverFact::Epoch {
        epoch: 5,
        current: true,
    });
    assert_eq!(action, RecoverAction::Discover { epoch: 5 });
    let (flow, action) = flow.advance(RecoverFact::Discovered {
        listed: Listed::Session,
        current: true,
    });
    assert_eq!(action, RecoverAction::Offer { epoch: 5 });
    let (flow, action) = flow.advance(RecoverFact::Offered { epoch: 5 });
    assert_eq!(action, RecoverAction::Await);
    // A confirmation of another epoch is passed over.
    let (flow, action) = flow.advance(RecoverFact::Confirm {
        epoch: 4,
        current: false,
    });
    assert_eq!(action, RecoverAction::Await);
    let (flow, action) = flow.advance(RecoverFact::Confirm {
        epoch: 5,
        current: true,
    });
    assert_eq!(action, RecoverAction::CheckToken);
    let (outdated, action) = flow.advance(RecoverFact::Token {
        taken: false,
        resynchronizing: true,
    });
    assert_eq!(
        action,
        RecoverAction::Stop(StopReason::Outdated, FlowFailure::HerdrProtocol)
    );
    assert_eq!(StopReason::Outdated.text(), "recovery_stale");
    assert_eq!(outdated.epoch, 5);
    let (flow, action) = flow.advance(RecoverFact::Token {
        taken: true,
        resynchronizing: true,
    });
    assert_eq!(action, RecoverAction::Discover { epoch: 5 });
    let (flow, action) = flow.advance(RecoverFact::Discovered {
        listed: Listed::Session,
        current: true,
    });
    assert_eq!(action, RecoverAction::Run { epoch: 5 });
    assert_eq!(flow.advance(RecoverFact::Ran).1, RecoverAction::Done);

    let (_, action) = Recovery::begin(&RecoveryTarget::Missing);
    assert_eq!(
        action,
        RecoverAction::Stop(
            StopReason::TerminalMissing,
            FlowFailure::HerdrSessionMissing
        )
    );
    assert!(is_recovery_local_failure(FlowFailure::HerdrMissing));
    assert!(!is_recovery_local_failure(FlowFailure::Transport));
    assert_eq!(
        recovery_reason_for_failure(FlowFailure::HerdrController),
        "controller_conflict"
    );
}

#[test]
fn hiding_only_releases() {
    let program = plan_herdr_command(&ControlCommand::SetTerminalVisible { visible: false });
    let (flow, action) = HerdrFlow::begin(program);
    assert_eq!(action, HerdrAction::Release);
    assert_eq!(flow.advance(HerdrFact::Succeeded).1, HerdrAction::Done);
}

#[test]
fn handles_are_found_and_values_are_kept() {
    let ids = vec![IdEntry {
        kind: b'p',
        remote: "t".to_owned(),
        handle: 7,
    }];
    assert_eq!(find_handle(&ids, b'p', "t"), Some(7));
    assert_eq!(find_handle(&ids, b'w', "t"), None);
    assert_eq!(parse_handle("0012"), Some(12));
    assert_eq!(parse_handle("x"), None);
    let mut map = HashMap::from([(1, 11)]);
    let keys = vec![1, 2, 2];
    assert_eq!(values_needed(&map, &keys), 1);
    assign_values(&mut map, &keys, &vec![12]);
    assert_eq!(map, HashMap::from([(1, 11), (2, 12)]));
}

#[test]
fn an_exchange_stops_where_its_epoch_ends() {
    let current = ExchangeFact::Done {
        epoch_current: true,
    };
    let stale = ExchangeFact::Done {
        epoch_current: false,
    };
    let (x, action) = Exchange::begin(ExchangeKind::Request, true);
    assert_eq!(action, ExchangeAction::Open);
    assert_eq!(
        x.advance(stale).1,
        ExchangeAction::CloseThenFail(FlowFailure::Stale)
    );
    let (x, action) = x.advance(current);
    assert_eq!(action, ExchangeAction::Send);
    let (x, action) = x.advance(stale);
    assert_eq!(action, ExchangeAction::Await);
    assert_eq!(x.advance(current).1, ExchangeAction::Deliver { close: true });
    assert_eq!(
        x.advance(stale).1,
        ExchangeAction::CloseThenFail(FlowFailure::Stale)
    );
    assert_eq!(
        Exchange::begin(ExchangeKind::Command, false).1,
        ExchangeAction::Fail(FlowFailure::Stale)
    );
    assert_eq!(
        refused(ExchangeKind::Subscription, "boom"),
        FlowFailure::HerdrUnsupported
    );
    assert_eq!(
        refused(ExchangeKind::Request, "boom"),
        FlowFailure::HerdrOperation
    );
}

#[test]
fn the_output_of_a_command_is_bounded() {
    let mut output = CommandOutput::new();
    assert_eq!(output.take(OutputMessage::Data(b"ab".to_vec())), Ok(()));
    assert_eq!(output.take(OutputMessage::Data(b"c".to_vec())), Ok(()));
    assert_eq!(
        output.take(OutputMessage::Data(vec![0; 4_194_304])),
        Err(FlowFailure::HerdrProtocol)
    );
    assert_eq!(
        output.take(OutputMessage::Failure),
        Err(FlowFailure::Channel)
    );
    assert_eq!(output.take(OutputMessage::ExitStatus(0)), Ok(()));
    assert_eq!(output.take(OutputMessage::Closed), Ok(()));
    assert!(output.closed);
    assert_eq!(output.finish(), Ok(b"abc".to_vec()));
    assert_eq!(
        CommandOutput::new().finish(),
        Err(FlowFailure::HerdrOperation)
    );
}

#[test]
fn records_arrive_in_any_pieces() {
    let mut whole = RecordBuffer::new();
    let all = whole.push(b"{\"a\":1}\n\n{\"b\":2}\n{\"c\"", 0);
    let mut pieces = RecordBuffer::new();
    let mut got: Vec<Vec<u8>> = Vec::new();
    for piece in [&b"{\"a\""[..], b":1}\n\n{\"b", b"\":2}\n{\"c\""] {
        got.extend(pieces.push(piece, got.len()).expect("records"));
    }
    assert_eq!(Ok(got), all);
    assert_eq!(pieces.finish(), FlowFailure::HerdrProtocol);
    assert_eq!(
        pieces.step(RecordMessage::Closed),
        RecordStep::Fail(FlowFailure::HerdrProtocol)
    );
    assert_eq!(
        RecordBuffer::new().step(RecordMessage::Closed),
        RecordStep::Fail(FlowFailure::RemoteClosed)
    );
    assert_eq!(
        RecordBuffer::new().step(RecordMessage::Diagnostics),
        RecordStep::Ignore
    );
    assert_eq!(
        RecordBuffer::new().push(b"1\n2\n", 255),
        Err(FlowFailure::HerdrProtocol)
    );
}

#[test]
fn a_herdr_controller_starts_waits_and_leaves() {
    let current = HerdrRunFact::Succeeded {
        epoch_current: true,
    };
    let (run, action) = HerdrRun::begin(false);
    assert_eq!(action, HerdrRunAction::ResolveExecutable);
    let (run, action) = run.advance(current);
    assert_eq!(action, HerdrRunAction::ProbeStatus);
    assert_eq!(
        run.advance(HerdrRunFact::Succeeded {
            epoch_current: false
        })
        .1,
        HerdrRunAction::Fail(FlowFailure::Stale)
    );
    let (run, action) = run.advance(current);
    assert_eq!(action, HerdrRunAction::Subscribe);
    let (run, action) = run.advance(current);
    assert_eq!(action, HerdrRunAction::Synchronize);
    let (run, action) = run.advance(current);
    assert_eq!(action, HerdrRunAction::Activate);
    let (run, action) = run.advance(HerdrRunFact::Activated { attached: false });
    assert_eq!(action, HerdrRunAction::MarkReady);
    let (run, action) = run.advance(current);
    assert_eq!(action, HerdrRunAction::Wait);
    let (reading, action) = run.advance(HerdrRunFact::Record { event: true });
    assert_eq!(action, HerdrRunAction::Synchronize);
    assert_eq!(reading.advance(current).1, HerdrRunAction::Activate);
    assert_eq!(
        run.advance(HerdrRunFact::Record { event: false }).1,
        HerdrRunAction::Fail(FlowFailure::HerdrProtocol)
    );
    let (leaving, action) = run.advance(HerdrRunFact::Leave(FlowFailure::Transport));
    assert_eq!(action, HerdrRunAction::Release);
    assert_eq!(
        leaving.advance(HerdrRunFact::Failed(FlowFailure::Channel)).1,
        HerdrRunAction::Fail(FlowFailure::Transport)
    );

    let mut state = state_with_pane();
    assert_eq!(starting_epoch(&state, 3, None), Ok(5));
    assert_eq!(starting_epoch(&state, 3, Some(4)), Err(FlowFailure::Stale));
    assert_eq!(starting_epoch(&state, 2, None), Err(FlowFailure::Stale));
    assert_eq!(recovery_epoch(&state, 5), None);
    state.recovery.phase = RecoveryPhase::Resynchronizing;
    assert_eq!(recovery_epoch(&state, 5), Some(5));
}
