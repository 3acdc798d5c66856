use std::collections::{HashMap, HashSet};

use meeterm_core::diagnostics::{is_herdr_permission_error, is_tmux_permission_error};
use meeterm_core::ssh::answer::{refresh_target, AnswerStep};
use meeterm_core::ssh::capture::capture_screen;
use meeterm_core::ssh::command::{Admission, ControlCommand};
use meeterm_core::ssh::controller::{
    channel_message, close_request, close_step, exec_reply, is_final_window, next_turn, pane_event,
    plan_command, plan_startup, startup_event, ChannelMessage, CloseStep, CommandAction,
    CommandFact, CommandFlow, ControllerLoopExit, ExecReply, Mutation, PaneAction, PaneContext,
    PaneEvent, Program, Startup, StartupStep, Turn,
};
use meeterm_core::ssh::flow::{FlowFailure, ZoomCleanupOutcome};
use meeterm_core::ssh::plan::plan_sync;
use meeterm_core::ssh::query::{
    expected_epoch, query_marker, query_request, Dispatch, Reply, ReplyStep, StreamState,
};
use meeterm_core::ssh::run::{RunAction, RunFact, RunFlow};
use meeterm_core::ssh::runtime::{
    confirm_creation, create_runtime, discover, judge_creation, judge_discovery, resolve_runtime,
    verify_attached_session, verify_selected_runtime, RemoteOutput,
};
use meeterm_core::ssh::commit::CommitGate;
use meeterm_core::ssh::selection::PendingZoomCleanup;
use meeterm_core::ssh::state::SessionState;
use meeterm_core::ssh::sync::{
    assign_terminals, flat_snapshot, needed_captures, needed_routes, needed_terminals,
    read_listing, retire_panes, stale_panes, SyncAction, SyncEvent, SyncFlow, SyncPhase,
};
use meeterm_core::tmux::{
    CommandBlock, Decoder, Event, PaneInfo, PaneSnapshot, SessionIdentity, SessionSnapshot,
    WindowInfo, WindowSnapshot,
};

fn output(exit_status: Option<u32>, stdout: &[u8], stderr: &[u8]) -> RemoteOutput {
    RemoteOutput {
        exit_status,
        stdout: stdout.to_vec(),
        stderr: stderr.to_vec(),
    }
}

fn identity(id: &str, name: &str) -> SessionIdentity {
    SessionIdentity {
        session_id: id.to_owned(),
        name: name.to_owned(),
        server_pid: 42,
        server_start_time: 1_700_000_000,
    }
}

fn block(lines: &[&[u8]], error: bool) -> CommandBlock {
    CommandBlock {
        number: 1,
        lines: lines.iter().map(|line| line.to_vec()).collect(),
        error,
    }
}

fn info(window: u64, pane: u64) -> PaneInfo {
    PaneInfo {
        window_id: window,
        pane_id: pane,
        index: 0,
        active: true,
        columns: 80,
        rows: 24,
        pane_name: format!("pane-{pane}"),
        title: format!("pane-{pane}"),
        zoomed: false,
        window_active: true,
    }
}

fn shown_pane(window: u64, pane: u64) -> PaneSnapshot {
    PaneSnapshot {
        window_id: window,
        pane_id: pane,
        terminal_id: pane + 100,
        window_name: format!("window-{window}"),
        pane_name: format!("pane-{pane}"),
        title: format!("pane-{pane}"),
        active: true,
        selected: false,
        index: 0,
        columns: 80,
        rows: 24,
    }
}

fn shown(windows: &[(u64, &[u64])]) -> SessionSnapshot {
    let windows: Vec<WindowSnapshot> = windows
        .iter()
        .map(|(window, panes)| WindowSnapshot {
            window_id: *window,
            name: format!("window-{window}"),
            panes: panes.iter().map(|pane| shown_pane(*window, *pane)).collect(),
            selected: false,
            zoomed: false,
        })
        .collect();
    let panes = windows
        .iter()
        .flat_map(|window| window.panes.clone())
        .collect();
    SessionSnapshot {
        windows,
        panes,
        selected_pane: None,
    }
}

#[test]
fn permission_diagnostics_are_found_in_any_letter_case_and_beside_broken_bytes() {
    assert!(is_tmux_permission_error(b"\xff error: Permission Denied\n"));
    assert!(is_tmux_permission_error(b"cannot connect to server"));
    assert!(!is_tmux_permission_error(b"operation not permitted"));
    assert!(is_herdr_permission_error(b"OPERATION NOT PERMITTED"));
    assert!(!is_herdr_permission_error(b"cannot connect"));
}

#[test]
fn discovery_classifies_each_answer() {
    let found = discover(&output(Some(0), b"$7|daily|42|1700000000\n$8|ops|42|1700000000\n", b""))
        .expect("two sessions");
    assert_eq!(found.len(), 2);
    assert_eq!(found[1].name, "ops");
    assert_eq!(
        discover(&output(Some(1), b"", b"no server running on /tmp/x\n")),
        Ok(Vec::new())
    );
    assert_eq!(
        discover(&output(Some(127), b"", b"tmux: not found\n")),
        Err(FlowFailure::TmuxDiscoveryMissing)
    );
    assert_eq!(
        discover(&output(Some(1), b"", b"permission denied\n")),
        Err(FlowFailure::TmuxDiscoveryPermission)
    );
    assert_eq!(
        discover(&output(Some(1), b"", b"\xff\n")),
        Err(FlowFailure::TmuxDiscoveryMalformed)
    );
    assert_eq!(
        discover(&output(Some(0), b"broken\n", b"")),
        Err(FlowFailure::TmuxDiscoveryMalformed)
    );
    assert_eq!(
        judge_discovery(None, b"$7|daily|42|1700000000\n", ""),
        Err(FlowFailure::TmuxDiscoveryMalformed)
    );
}

#[test]
fn creation_returns_its_own_session_or_says_why_not() {
    let made = create_runtime(&output(Some(0), b"$9|desk|42|1700000000\n", b""), "desk")
        .expect("the created session");
    assert_eq!(made.session_id, "$9");
    assert_eq!(
        create_runtime(
            &output(Some(1), b"", b"duplicate session: desk\n"),
            "desk"
        ),
        Err(FlowFailure::TmuxRuntimeCollision)
    );
    assert_eq!(
        judge_creation(Some(0), b"$9|other|42|1700000000\n", "", "desk"),
        Err(FlowFailure::TmuxRuntimeUnknown)
    );
    assert_eq!(
        judge_creation(None, b"", "", "desk"),
        Err(FlowFailure::TmuxRuntimeUnknown)
    );

    assert_eq!(
        confirm_creation(made.clone(), Ok(vec![identity("$9", "desk")])),
        Ok(made.clone())
    );
    assert_eq!(
        confirm_creation(made.clone(), Ok(Vec::new())),
        Err(FlowFailure::TmuxRuntimeUnknown)
    );
    assert_eq!(
        confirm_creation(made, Err(FlowFailure::Stale)),
        Err(FlowFailure::Stale)
    );
}

#[test]
fn a_selected_runtime_is_verified_by_its_identity() {
    let wanted = identity("$7", "daily");
    assert_eq!(
        verify_selected_runtime(&Ok(vec![identity("$7", "renamed")]), &wanted),
        Ok(())
    );
    let mut restarted = identity("$7", "daily");
    restarted.server_start_time += 1;
    assert_eq!(
        verify_selected_runtime(&Ok(vec![restarted]), &wanted),
        Err(FlowFailure::TmuxRuntimeMissing)
    );
    assert_eq!(
        verify_selected_runtime(&Err(FlowFailure::Stale), &wanted),
        Err(FlowFailure::Stale)
    );
    let sessions = vec![identity("$7", "daily"), identity("$8", "ops")];
    assert_eq!(
        resolve_runtime(&sessions, "ops").expect("by name").session_id,
        "$8"
    );
    assert_eq!(
        resolve_runtime(&sessions, "gone"),
        Err(FlowFailure::TmuxRuntimeMissing)
    );

    let epoch = vec![block(&[b"$7|42|1700000000"], false)];
    assert_eq!(verify_attached_session(&Ok(epoch), &wanted), Ok(()));
    let other = vec![block(&[b"$7|43|1700000000"], false)];
    assert_eq!(
        verify_attached_session(&Ok(other), &wanted),
        Err(FlowFailure::TmuxRuntimeMissing)
    );
}

#[test]
fn a_reply_ends_at_its_marker() {
    let marker = query_marker(3, 5);
    assert_eq!(marker, "MEETERM_DONE_3_5");
    assert_eq!(
        query_request("list-windows", &marker),
        b"list-windows ; display-message -p 'MEETERM_DONE_3_5'\n"
    );
    let reply = Reply::new(&marker);
    let (reply, step) = reply.accept(Event::Command(block(&[b"@1"], false)));
    assert!(matches!(step, ReplyStep::More));
    let output = Event::Output {
        pane_id: 4,
        bytes: b"x".to_vec(),
    };
    let (reply, step) = reply.accept(output.clone());
    assert!(matches!(step, ReplyStep::Other(event) if event == output));
    let (reply, step) = reply.accept(Event::Command(block(&[b"MEETERM_DONE_3_5"], false)));
    assert!(matches!(step, ReplyStep::Complete));
    assert_eq!(reply.into_blocks(), vec![block(&[b"@1"], false)]);

    let (_, step) = Reply::new(&marker).accept(Event::Command(block(&[b"bad"], true)));
    assert!(matches!(step, ReplyStep::Failed(FlowFailure::Tmux)));

    assert_eq!(expected_epoch(Some(9), true, 7, 8), 9);
    assert_eq!(expected_epoch(None, true, 7, 8), 7);
    assert_eq!(expected_epoch(None, false, 7, 8), 8);
}

#[test]
fn output_goes_to_its_pane_and_notifications_mark_the_topology() {
    let mut stream = StreamState::new();
    let output = Event::Output {
        pane_id: 4,
        bytes: b"hello".to_vec(),
    };
    assert!(matches!(
        stream.dispatch(output.clone(), true, Some(104)),
        Ok(Dispatch::Feed { native: 104, bytes }) if bytes == b"hello"
    ));
    assert!(matches!(
        stream.dispatch(output.clone(), true, None),
        Ok(Dispatch::Nothing)
    ));
    assert!(matches!(
        stream.dispatch(output.clone(), false, Some(104)),
        Err(FlowFailure::Stale)
    ));

    // While a pane is captured its output waits.
    stream.capturing = Some(4);
    stream.capture_complete = true;
    assert!(stream.dispatch(output, true, Some(104)).is_ok());
    assert_eq!(stream.capture_output, b"hello");

    assert!(!stream.dirty);
    let added = Event::Notification {
        name: "window-add".to_owned(),
        arguments: vec![b"@3".to_vec()],
    };
    assert!(stream.dispatch(added, true, None).is_ok());
    assert!(stream.dirty);
    let exit = Event::Notification {
        name: "exit".to_owned(),
        arguments: Vec::new(),
    };
    assert_eq!(
        stream.dispatch(exit, true, None).err(),
        Some(FlowFailure::RemoteClosed)
    );
    assert_eq!(
        stream
            .dispatch(Event::Command(block(&[b"no"], true)), true, None)
            .err(),
        Some(FlowFailure::Tmux)
    );
}

#[test]
fn a_capture_becomes_a_screen_with_its_modes() {
    let blocks = vec![
        block(&[b"one", b"two"], false),
        block(&[b"80,24,3,1,0,1,0,0,1,0,0,1"], false),
    ];
    let screen = capture_screen(&blocks).ok().expect("a screen");
    assert_eq!((screen.columns, screen.rows), (80, 24));
    assert_eq!(
        screen.bytes,
        b"one\r\ntwo\x1b[4l\x1b[?6l\x1b[?7h\x1b[2;4H\x1b[?25h\x1b[?1l\x1b[?2004h\x1b>"
    );
    // The cursor is off the screen.
    let blocks = vec![
        block(&[b"one"], false),
        block(&[b"80,24,80,1,0,1,0,0,1,0,0,1"], false),
    ];
    assert_eq!(
        capture_screen(&blocks).err(),
        Some(FlowFailure::TmuxProtocol)
    );
    assert_eq!(
        capture_screen(&Vec::new()).err(),
        Some(FlowFailure::TmuxProtocol)
    );
}

#[test]
fn a_controller_starts_from_an_identity_or_a_name() {
    assert_eq!(
        plan_startup(true, true, false, None),
        Ok(Startup::VerifySelected)
    );
    assert_eq!(
        plan_startup(false, true, false, None),
        Ok(Startup::ResolveName)
    );
    assert_eq!(
        plan_startup(false, false, false, None),
        Err(FlowFailure::TmuxRuntimeMissing)
    );
    assert_eq!(
        plan_startup(true, true, true, None),
        Err(FlowFailure::TmuxRuntimeMissing)
    );

    let attached = Event::Command(block(&[], false));
    let refused = Event::Command(block(&[], true));
    assert_eq!(startup_event(&attached, true), StartupStep::Attached);
    assert_eq!(
        startup_event(&refused, true),
        StartupStep::Fail(FlowFailure::TmuxRuntimeMissing)
    );
    assert_eq!(
        startup_event(&refused, false),
        StartupStep::Fail(FlowFailure::Tmux)
    );
}

#[test]
fn channel_messages_feed_the_decoder() {
    let mut decoder = Decoder::new();
    assert!(matches!(
        exec_reply(&mut decoder, ChannelMessage::Success),
        Ok(ExecReply::Accepted)
    ));
    assert!(exec_reply(&mut decoder, ChannelMessage::Failure).is_err());
    let events = channel_message(
        &mut decoder,
        ChannelMessage::Data(b"%output %4 hi\n%begin 1 2 0\n".to_vec()),
    )
    .expect("one event and an open block");
    assert_eq!(
        events,
        vec![Event::Output {
            pane_id: 4,
            bytes: b"hi".to_vec()
        }]
    );
    // The stream ends inside a block.
    assert_eq!(
        channel_message(&mut decoder, ChannelMessage::Closed),
        Err(FlowFailure::TmuxProtocol)
    );
    assert_eq!(
        channel_message(&mut Decoder::new(), ChannelMessage::Closed),
        Err(FlowFailure::RemoteClosed)
    );
}

#[test]
fn waiting_events_come_before_an_exit() {
    assert_eq!(
        next_turn(true, Some(ControllerLoopExit::Cancellation), true),
        Turn::Drain
    );
    assert_eq!(
        next_turn(false, Some(ControllerLoopExit::Cancellation), true),
        Turn::Leave(FlowFailure::Stale)
    );
    assert_eq!(
        next_turn(false, Some(ControllerLoopExit::Recovery), false),
        Turn::DetachAndLeave(FlowFailure::Transport)
    );
    assert_eq!(next_turn(false, None, true), Turn::Synchronize);
    assert_eq!(next_turn(false, None, false), Turn::Wait);
}

#[test]
fn requests_are_admitted_by_epoch_and_readiness() {
    let close = ControlCommand::CloseWorkspace { window_id: 1 };
    assert_eq!(close.admission(true, true), Admission::Run);
    assert_eq!(close.admission(false, true), Admission::StaleOperation);
    assert_eq!(close.admission(true, false), Admission::NotReady);
    let hide = ControlCommand::SetTerminalVisible { visible: false };
    assert_eq!(hide.admission(true, false), Admission::Run);
}

#[test]
fn a_change_is_guarded_sent_and_read_back() {
    let snapshot = shown(&[(1, &[10, 11])]);
    let program = plan_command(&ControlCommand::ClosePane { pane_id: 11 }, &snapshot);
    let mutation = Mutation::ClosePane {
        window: 1,
        pane: 11,
        last: false,
    };
    assert_eq!(program, Ok(Program::Mutate(mutation)));
    assert_eq!(
        plan_command(&ControlCommand::ClosePane { pane_id: 99 }, &snapshot),
        Err(FlowFailure::Stale)
    );
    assert_eq!(
        plan_command(&ControlCommand::SelectGroup { group_id: 1 }, &snapshot),
        Err(FlowFailure::TmuxProtocol)
    );
    let (flow, action) = CommandFlow::begin(Program::Mutate(mutation));
    assert_eq!(action, CommandAction::ReadTopology);
    let (flow, action) = flow.advance(CommandFact::Safe {
        final_window: false,
    });
    assert_eq!(action, CommandAction::Send);
    let (flow, action) = flow.advance(CommandFact::Succeeded);
    assert_eq!(action, CommandAction::Synchronize);
    let (_, action) = flow.advance(CommandFact::Succeeded);
    assert_eq!(action, CommandAction::Done);
}

#[test]
fn closing_the_last_pane_ends_the_session() {
    let snapshot = shown(&[(1, &[10])]);
    let Ok(Program::Mutate(mutation)) =
        plan_command(&ControlCommand::ClosePane { pane_id: 10 }, &snapshot)
    else {
        panic!("a change");
    };
    let (flow, _) = CommandFlow::begin(Program::Mutate(mutation));
    let (flow, action) = flow.advance(CommandFact::Safe {
        final_window: true,
    });
    assert_eq!(action, CommandAction::SendLast);
    let (_, action) = flow.advance(CommandFact::Succeeded);
    assert_eq!(action, CommandAction::CancelAndFail(FlowFailure::Stale));
    assert!(is_final_window(&snapshot, 1));
    assert!(!is_final_window(&shown(&[(1, &[10]), (2, &[20])]), 1));
}

#[test]
fn a_created_workspace_is_found_by_what_is_new() {
    let before = shown(&[(1, &[10])]);
    let now = shown(&[(1, &[10]), (2, &[20])]);
    assert_eq!(
        Mutation::CreateWorkspace.created(&before, &now),
        Some((2, 20))
    );
    assert_eq!(Mutation::CreateWorkspace.created(&now, &now), None);
    let split = shown(&[(1, &[10, 11])]);
    assert_eq!(
        Mutation::CreatePane { window: 1 }.created(&before, &split),
        Some((1, 11))
    );
    assert_eq!(
        Mutation::RenameWorkspace { window: 1 }.created(&before, &now),
        None
    );
}

#[test]
fn changes_of_a_linked_window_are_refused() {
    let alone = vec![block(&[b"$7\tdaily\t@1\t1"], false)];
    let linked = vec![block(&[b"$7\tdaily\t@1\t2"], false)];
    let close = Mutation::CloseWorkspace { window: 1 };
    assert_eq!(close.is_safe("$7", &alone), Ok(()));
    assert_eq!(
        close.is_safe("$7", &linked),
        Err(FlowFailure::TmuxTopologyUnsafe)
    );
    assert_eq!(
        Mutation::CloseWorkspace { window: 2 }.is_safe("$7", &alone),
        Err(FlowFailure::TmuxTopologyUnsafe)
    );
    let text = close.render("$7", "").expect("a command");
    assert!(text.contains("kill-window"));
    assert!(text.contains("@1"));
    assert_eq!(
        Mutation::RenameWorkspace { window: 1 }.render("$7", "a\nb"),
        Err(FlowFailure::TmuxProtocol)
    );
}

#[test]
fn input_reaches_only_a_ready_and_routed_pane() {
    let context = PaneContext {
        input_ready: true,
        routed: true,
        selected: Some(4),
        viewport: (80, 24),
    };
    let typed = PaneEvent::Input {
        pane: 4,
        bytes: b"ls".to_vec(),
    };
    assert!(matches!(
        pane_event(&typed, context, "$7"),
        Ok(PaneAction::Send(command)) if command.contains("%4")
    ));
    let closed = PaneContext {
        input_ready: false,
        ..context
    };
    assert!(matches!(
        pane_event(&typed, closed, "$7"),
        Ok(PaneAction::Nothing)
    ));
    let resize = PaneEvent::Resize {
        pane: 4,
        columns: 100,
        rows: 30,
    };
    assert!(matches!(
        pane_event(&resize, context, "$7"),
        Ok(PaneAction::Resize {
            columns: 100,
            rows: 30
        })
    ));
    let same = PaneEvent::Resize {
        pane: 4,
        columns: 80,
        rows: 24,
    };
    assert!(matches!(
        pane_event(&same, context, "$7"),
        Ok(PaneAction::Nothing)
    ));
}

#[test]
fn a_closing_session_may_end_the_stream() {
    assert_eq!(close_request("kill-session"), b"kill-session\n");
    let mut stream = StreamState::new();
    assert!(matches!(
        close_step(&mut stream, Err(FlowFailure::RemoteClosed), true, None),
        Ok(CloseStep::Closed)
    ));
    assert!(matches!(
        close_step(&mut stream, Err(FlowFailure::Transport), true, None),
        Err(FlowFailure::Transport)
    ));
    let refused = Event::Command(block(&[], true));
    assert!(matches!(
        close_step(&mut stream, Ok(refused), true, None),
        Err(FlowFailure::Tmux)
    ));
}

#[test]
fn a_listing_needs_windows_and_panes_that_agree() {
    let windows = vec![block(&[b"@4\twork"], false)];
    let panes = vec![block(&[b"@4\t%8\t2\t0\t80\t24\ttitle\t1\t0"], false)];
    let (w, p) = read_listing(&windows, &panes).ok().expect("a listing");
    assert_eq!(w[0].name, "work");
    assert_eq!(p[0].pane_id, 8);
    let broken = vec![block(&[b"@4\t%x"], false)];
    assert!(read_listing(&windows, &broken).is_err());
}

#[test]
fn new_panes_get_terminals_captures_and_routes() {
    let panes = vec![info(1, 10), info(1, 11)];
    let mut mapping = HashMap::from([(10, 110)]);
    assert_eq!(needed_terminals(&panes, &mapping, false), vec![(80, 24)]);
    assign_terminals(&panes, &mut mapping, false, 1, &vec![111]);
    assert_eq!(mapping, HashMap::from([(10, 110), (11, 111)]));

    // The first pane of an empty connection takes the owner.
    let mut mapping = HashMap::new();
    assert_eq!(needed_terminals(&panes, &mapping, true), vec![(80, 24)]);
    assign_terminals(&panes, &mut mapping, true, 1, &vec![111]);
    assert_eq!(mapping.get(&10), Some(&1));
    assert_eq!(mapping.get(&11), Some(&111));

    let routed = HashSet::from([10]);
    assert_eq!(
        needed_captures(&panes, &routed, false, false, &vec![shown_pane(1, 10)]),
        vec![11]
    );
    assert_eq!(needed_routes(&panes, &routed), vec![1]);

    let windows = vec![WindowInfo {
        window_id: 1,
        name: "work".to_owned(),
    }];
    let flat = flat_snapshot(&windows, &panes, &mapping, 11);
    assert_eq!(flat[1].window_name, "work");
    assert!(flat[1].selected);
    assert!(!flat[0].selected);
    assert_eq!(flat[0].terminal_id, 1);
}

#[test]
fn panes_that_left_are_retired() {
    let mut mapping = HashMap::from([(10, 110), (11, 111)]);
    let stale = stale_panes(&mapping, &vec![info(1, 10)]);
    assert_eq!(stale, vec![11]);
    assert_eq!(retire_panes(&mut mapping, &stale), vec![111]);
    assert_eq!(mapping, HashMap::from([(10, 110)]));
}

#[test]
fn a_strict_recovery_stages_and_commits_once() {
    let current = SyncEvent::Succeeded {
        epoch_current: true,
    };
    let (flow, action) = SyncFlow::begin(true, true, true, false, false, true);
    assert_eq!(action, SyncAction::ListWindows);
    let (flow, action) = flow.advance(current);
    assert_eq!(action, SyncAction::ListPanes);
    let (flow, action) = flow.advance(current);
    assert_eq!(action, SyncAction::Plan);
    let (flow, action) = flow.advance(SyncEvent::Planned { captures: 1 });
    assert_eq!(action, SyncAction::ResizeClient);
    let (flow, action) = flow.advance(current);
    assert_eq!(action, SyncAction::ProvideTerminals);
    let (flow, action) = flow.advance(current);
    assert_eq!(action, SyncAction::Capture(0));
    let (flow, action) = flow.advance(current);
    assert_eq!(action, SyncAction::Select { publish: false });
    let (flow, action) = flow.advance(current);
    assert_eq!(action, SyncAction::Staged);
    assert_eq!(flow.phase, SyncPhase::Ended);

    // The final read commits after the zoom is settled.
    let committing = SyncFlow {
        initial: false,
        strict: true,
        strict_final: true,
        was_ready: false,
        no_cleanup: false,
        phase: SyncPhase::Rebinding,
        captures: 0,
        captured: 0,
        failure: None,
    };
    let (flow, action) = committing.advance(SyncEvent::Rebound { unneeded: true });
    assert_eq!(action, SyncAction::ReleaseUnneeded);
    assert_eq!(
        flow.advance(SyncEvent::Released(ZoomCleanupOutcome::UnconfirmedOrFailed))
            .1,
        SyncAction::Fail(FlowFailure::TmuxRuntimeMissing)
    );
    let (flow, action) =
        flow.advance(SyncEvent::Released(ZoomCleanupOutcome::RestoredConfirmed));
    assert_eq!(action, SyncAction::CommitStrict);
    assert_eq!(flow.advance(current).1, SyncAction::Done);
    // A commit that finds the runtime gone restores the zoom first.
    let (flow, action) = flow.advance(SyncEvent::Failed(FlowFailure::TmuxRuntimeMissing));
    assert_eq!(action, SyncAction::RestoreThenFail);
    assert_eq!(
        flow.advance(SyncEvent::Failed(FlowFailure::Transport)).1,
        SyncAction::Fail(FlowFailure::TmuxRuntimeMissing)
    );
}

#[test]
fn a_synchronization_of_another_epoch_does_not_begin() {
    let (flow, action) = SyncFlow::begin(false, false, false, true, false, false);
    assert_eq!(flow.phase, SyncPhase::Ended);
    assert_eq!(action, SyncAction::Fail(FlowFailure::Stale));
}

#[test]
fn output_beside_a_capture_is_kept_once() {
    let mut stream = StreamState::new();
    let output = |bytes: &[u8]| Event::Output {
        pane_id: 4,
        bytes: bytes.to_vec(),
    };
    let marker = query_marker(1, 1);
    stream.begin_capture(4);
    let reply = Reply::new(&marker);
    // Before the screen came its output is part of the screen.
    let (reply, step) = stream.answer(reply, output(b"early"), true, Some(104));
    assert!(matches!(step, Ok(AnswerStep::More)));
    let screen = Event::Command(block(&[b"one"], false));
    let (reply, step) = stream.answer(reply, screen, true, None);
    assert!(matches!(step, Ok(AnswerStep::More)));
    let (reply, step) = stream.answer(reply, output(b"late "), true, Some(104));
    assert!(matches!(step, Ok(AnswerStep::More)));
    let other = Event::Output {
        pane_id: 5,
        bytes: b"other".to_vec(),
    };
    let (reply, step) = stream.answer(reply, other, true, Some(105));
    assert!(matches!(step, Ok(AnswerStep::Feed { native: 105, .. })));
    let modes = Event::Command(block(&[b"80,24,3,1,0,1,0,0,1,0,0,1"], false));
    let (reply, _) = stream.answer(reply, modes, true, None);
    let (reply, _) = stream.answer(reply, output(b"later"), true, Some(104));
    let done = Event::Command(block(&[marker.as_bytes()], false));
    let (reply, step) = stream.answer(reply, done, true, None);
    assert!(matches!(step, Ok(AnswerStep::Complete)));
    let blocks = reply.into_blocks();
    assert_eq!(
        stream.finish_capture(None, &blocks),
        Err(FlowFailure::Stale)
    );
    let staged = stream.finish_capture(Some(104), &blocks).expect("a capture");
    assert_eq!(staged.native, 104);
    assert_eq!(staged.trailing_output, b"late later");
    assert!(stream.capturing.is_none());
    assert!(stream.capture_output.is_empty());
    assert_eq!(refresh_target(Some(4), true), Some(4));
    assert_eq!(refresh_target(Some(4), false), None);
}

#[test]
fn a_controller_proves_its_session_and_cleans_up() {
    let (mut flow, action) = RunFlow::begin(Startup::VerifySelected);
    assert_eq!(action, RunAction::Prepare(Startup::VerifySelected));
    for expected in [
        RunAction::OpenChannel,
        RunAction::Execute,
        RunAction::AwaitAcceptance,
        RunAction::AwaitAttach,
        RunAction::VerifyAttached,
        RunAction::InheritZoom,
        RunAction::Synchronize,
        RunAction::Turn,
        RunAction::Turn,
    ] {
        let (next, action) = flow.advance(RunFact::Succeeded);
        assert_eq!(action, expected);
        flow = next;
    }
    let (flow, action) = flow.advance(RunFact::Failed(FlowFailure::RemoteClosed));
    assert_eq!(action, RunAction::CleanUp);
    assert_eq!(
        flow.advance(RunFact::Failed(FlowFailure::Transport)).1,
        RunAction::Fail(FlowFailure::RemoteClosed)
    );
    // Without a channel there is nothing to clean up.
    let (flow, _) = RunFlow::begin(Startup::ResolveName);
    assert_eq!(
        flow.advance(RunFact::Failed(FlowFailure::TmuxRuntimeMissing)).1,
        RunAction::Fail(FlowFailure::TmuxRuntimeMissing)
    );
}

fn two_pane_listing() -> (Vec<CommandBlock>, Vec<CommandBlock>) {
    (
        vec![block(&[b"@1\twork"], false)],
        vec![block(
            &[
                b"@1\t%10\t0\t1\t80\t24\tfirst\t0\t1",
                b"@1\t%11\t1\t0\t90\t30\tsecond\t0\t1",
            ],
            false,
        )],
    )
}

fn shared_state() -> SessionState {
    SessionState {
        generation: 3,
        operation_epoch: 5,
        selected_pane: Some(11),
        meeterm_zoomed_window: Some(1),
        pane_terminals: HashMap::from([(10, 110), (12, 112)]),
        snapshot: shown(&[(1, &[10, 12])]),
        ..SessionState::default()
    }
}

#[test]
fn a_plan_follows_from_the_listing_and_the_shared_state() {
    let (windows, panes) = two_pane_listing();
    let state = shared_state();
    let (flow, _) = SyncFlow::begin(false, false, false, true, true, true);
    let routed = HashSet::from([10, 12]);
    let own = HashMap::from([(10, 7)]);
    let mut plan = plan_sync(flow, true, &windows, &panes, &state, &own, &routed)
        .ok()
        .expect("a plan");
    assert_eq!(plan.selected, 11);
    assert_eq!(plan.observation, None);
    assert_eq!(plan.mapping, HashMap::from([(10, 110), (12, 112)]));
    assert_eq!(plan.terminals, vec![(90, 30)]);
    assert_eq!(plan.routes, vec![1]);
    assert_eq!(plan.captures, vec![11]);
    assert_eq!(plan.stale, vec![12]);

    plan.provide(1, &vec![211]);
    assert_eq!(plan.kept(), HashMap::from([(10, 110), (11, 211)]));
    let gate = CommitGate {
        cancelled: false,
        generation: 3,
        epoch: 5,
    };
    let mut committed = shared_state();
    assert_eq!(plan.commit(&mut committed, gate, true), Ok(()));
    assert_eq!(
        committed.pane_terminals,
        HashMap::from([(10, 110), (11, 211)])
    );
    assert_eq!(committed.selected_pane, Some(11));
    assert_eq!(committed.snapshot.panes.len(), 2);
    assert_eq!(committed.snapshot.panes[1].terminal_id, 211);
    assert_eq!(plan.retire(), vec![112]);
    assert_eq!(plan.mapping, HashMap::from([(10, 110), (11, 211)]));
    assert!(plan.stale.is_empty());

    let outdated = CommitGate { epoch: 4, ..gate };
    let mut kept = shared_state();
    assert_eq!(
        plan.commit(&mut kept, outdated, true),
        Err(FlowFailure::Stale)
    );
    assert_eq!(kept.pane_terminals, shared_state().pane_terminals);
}

#[test]
fn a_strict_plan_keeps_its_own_terminals_and_its_pane() {
    let (windows, panes) = two_pane_listing();
    let mut state = shared_state();
    let own = HashMap::from([(10, 7), (11, 8)]);
    let routed = HashSet::from([10, 11]);
    // The final readback captures every pane and routes none.
    let (last, _) = SyncFlow::begin(false, true, true, false, false, true);
    let plan = plan_sync(last, true, &windows, &panes, &state, &own, &routed)
        .ok()
        .expect("a plan");
    assert_eq!(plan.mapping, own);
    assert!(plan.terminals.is_empty());
    assert!(plan.routes.is_empty());
    assert_eq!(plan.captures, vec![10, 11]);
    assert!(plan.stale.is_empty());
    let zoom = PendingZoomCleanup {
        window: 1,
        pane: 11,
        hooks: None,
    };
    assert!(!plan.unneeded(None));
    assert!(!plan.unneeded(Some(zoom)));

    // The first pass begins with what is shared, and observes the selection.
    let (first, _) = SyncFlow::begin(true, true, false, false, false, true);
    let plan = plan_sync(first, false, &windows, &panes, &state, &own, &routed)
        .ok()
        .expect("a plan");
    assert_eq!(plan.mapping, state.pane_terminals);
    let observation = plan.observation.expect("an observation");
    assert_eq!(observation.pane_id, 11);
    assert!(observation.previous_owned_same_window);

    // Alone in its window, the pane needs no zoom.
    let alone = vec![block(&[b"@1\t%11\t0\t1\t80\t24\tonly\t0\t1"], false)];
    let plan = plan_sync(last, true, &windows, &alone, &state, &own, &routed)
        .ok()
        .expect("a plan");
    assert!(plan.unneeded(Some(zoom)));
    assert_eq!(plan.stale, vec![10]);
    assert_eq!(plan.kept(), HashMap::from([(11, 8)]));

    // Another pane never stands in for the one that left.
    state.selected_pane = Some(99);
    assert_eq!(
        plan_sync(last, true, &windows, &panes, &state, &own, &routed).err(),
        Some(FlowFailure::TmuxRuntimeMissing)
    );
    let broken = vec![block(&[b"@1\t%x"], false)];
    assert_eq!(
        plan_sync(last, true, &windows, &broken, &state, &own, &routed).err(),
        Some(FlowFailure::TmuxProtocol)
    );
}

#[test]
fn the_first_pane_of_an_empty_connection_takes_the_owner() {
    let (windows, panes) = two_pane_listing();
    let state = SessionState::default();
    let none = HashMap::new();
    let (flow, _) = SyncFlow::begin(true, false, false, false, true, true);
    let mut plan = plan_sync(flow, false, &windows, &panes, &state, &none, &HashSet::new())
        .ok()
        .expect("a plan");
    assert_eq!(plan.selected, 10);
    assert_eq!(plan.terminals, vec![(90, 30)]);
    assert_eq!(plan.routes, vec![0, 1]);
    plan.provide(1, &vec![2]);
    assert_eq!(plan.kept(), HashMap::from([(10, 1), (11, 2)]));
}
