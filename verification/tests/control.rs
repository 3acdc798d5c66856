use std::collections::HashMap;

use meeterm_core::ssh::cleanup::{
    has_cleanup_intent, release_record_hooks_command, settle_cleanup, CleanupAction,
    CleanupCommand, CleanupEnd, CleanupReply, ZoomActor, ZoomCleanup, ZoomRecord,
};
use meeterm_core::ssh::commit::{apply_strict_commit, commit_topology, strict_commit_allowed, CommitGate};
use meeterm_core::ssh::controller::{
    controller_loop_cleanup_needed, controller_loop_exit, final_cleanup, ControllerLoopExit,
    FinalCleanup,
};
use meeterm_core::ssh::flow::{FlowFailure, ZoomCleanupOutcome};
use meeterm_core::ssh::query::{cleanup_query_marker, query_request, Reply, ReplyStep};
use meeterm_core::ssh::selection::{
    classify_zoom_cleanup_readback, fresh_selection_observation, pending_zoom_cleanup_after_send,
    pending_zoom_cleanup_before_send, publish_selection_state, publish_strict_zoom_ownership,
    select_zoom_cleanup_target, selected_pane_for_sync, selection_is_zoomed,
    strict_final_readback_required, strict_zoom_candidate_matches, strict_zoom_commit_decision,
    zoom_cleanup_hook_allocation, PendingZoomCleanup,
};
use meeterm_core::ssh::state::SessionState;
use meeterm_core::ssh::sync::{
    ReadyAction, ReadyBatch, SyncAction, SyncEvent, SyncFlow, SyncPhase,
};
use meeterm_core::ssh::topology::{
    apply_committed_topology, apply_topology_state, topology_is_safe, topology_session_is_safe,
};
use meeterm_core::tmux::{
    CommandBlock, Decoder, Event, PaneInfo, PaneSnapshot, WindowInfo, WindowSnapshot, WindowTopology,
    ZoomRecoveryHookAllocation, ZoomRecoveryHookState,
};

fn pane(id: u64, active: bool, window_active: bool) -> PaneInfo {
    PaneInfo {
        window_id: 1,
        pane_id: id,
        index: 0,
        active,
        columns: 80,
        rows: 24,
        pane_name: format!("pane-{id}"),
        title: format!("pane-{id}"),
        zoomed: false,
        window_active,
    }
}

fn zoomed_pane(id: u64, active: bool, window_active: bool) -> PaneInfo {
    let mut pane = pane(id, active, window_active);
    pane.zoomed = true;
    pane
}

#[test]
fn topology_safety_ignores_unlinked_nonselected_session() {
    let topologies = vec![
        WindowTopology {
            session_id: "$1".to_owned(),
            session_name: "selected".to_owned(),
            window_id: 7,
            linked_sessions: 1,
        },
        WindowTopology {
            session_id: "$2".to_owned(),
            session_name: "other".to_owned(),
            window_id: 8,
            linked_sessions: 1,
        },
    ];
    assert!(topology_is_safe(&topologies, "$1", 7));
    assert!(!topology_is_safe(&topologies, "$1", 8));
}

#[test]
fn topology_safety_rejects_linked_selected_window_and_missing_target() {
    let linked = [WindowTopology {
        session_id: "$1".to_owned(),
        session_name: "selected".to_owned(),
        window_id: 7,
        linked_sessions: 2,
    }];
    assert!(!topology_is_safe(&linked, "$1", 7));
    assert!(!topology_is_safe(&linked, "$1", 9));
}

#[test]
fn topology_safety_rejects_shared_session_for_new_workspace() {
    let linked = [
        WindowTopology {
            session_id: "$1".to_owned(),
            session_name: "selected".to_owned(),
            window_id: 7,
            linked_sessions: 2,
        },
        WindowTopology {
            session_id: "$1".to_owned(),
            session_name: "selected".to_owned(),
            window_id: 8,
            linked_sessions: 2,
        },
    ];
    assert!(!topology_session_is_safe(&linked, "$1"));
    assert!(!topology_session_is_safe(
        &[WindowTopology {
            session_id: "$2".to_owned(),
            session_name: "other".to_owned(),
            window_id: 7,
            linked_sessions: 1,
        }],
        "$1"
    ));
}

#[test]
fn closed_zoom_target_keeps_actor_hook_cleanup_authority() {
    let hooks = ZoomRecoveryHookAllocation { index: 1_013 };
    let target = PendingZoomCleanup {
        window: 1,
        pane: 17,
        hooks: Some(hooks),
    };

    // Once the owned window disappears, shared layout ownership can be
    // gone before the actor's finalizer runs. The actor-local allocation
    // must still select the hook-only cleanup path.
    assert_eq!(zoom_cleanup_hook_allocation(None, Some(hooks)), Some(hooks));
    assert_eq!(
        zoom_cleanup_hook_allocation(Some(target), None),
        Some(hooks)
    );
}

#[test]
fn zoom_cleanup_readback_is_proven_at_owned_window_scope() {
    let still_zoomed = [zoomed_pane(18, true, true)];
    assert_eq!(
        classify_zoom_cleanup_readback(true, Some(&still_zoomed), 1, true),
        ZoomCleanupOutcome::UnconfirmedOrFailed
    );

    let mut window_gone_pane = pane(18, true, true);
    window_gone_pane.window_id = 2;
    assert_eq!(
        classify_zoom_cleanup_readback(true, Some(&[window_gone_pane]), 1, true),
        ZoomCleanupOutcome::NotNeeded
    );

    let surviving_unzoomed = [pane(18, true, true)];
    assert_eq!(
        classify_zoom_cleanup_readback(true, Some(&surviving_unzoomed), 1, true),
        ZoomCleanupOutcome::RestoredConfirmed
    );
}

#[test]
fn initial_selection_uses_fresh_zoom_with_empty_shared_snapshot() {
    let target = zoomed_pane(17, true, true);
    let observation = fresh_selection_observation(&target, std::slice::from_ref(&target), None);

    // The shared snapshot is still empty during the initial selection,
    // but the same synchronization pass already proved that the window
    // was zoomed by the desktop.
    assert!(selection_is_zoomed(Some(observation), 1, 17, false, false));
    let mut state = SessionState::default();
    publish_selection_state(&mut state, 1, 17, true);
    assert!(!state.meeterm_zoomed);
    assert_eq!(state.meeterm_zoomed_pane, None);
}

#[test]
fn initial_selection_commit_defers_zoom_ownership_validation() {
    let initial_readback = pane(17, true, true);
    let flat = PaneSnapshot {
        window_id: initial_readback.window_id,
        pane_id: initial_readback.pane_id,
        terminal_id: 99,
        window_name: "window".to_owned(),
        active: initial_readback.active,
        selected: true,
        index: initial_readback.index,
        columns: initial_readback.columns,
        rows: initial_readback.rows,
        pane_name: initial_readback.pane_name.clone(),
        title: initial_readback.title.clone(),
    };
    let mut mapping = HashMap::new();
    mapping.insert(initial_readback.pane_id, flat.terminal_id);
    let windows = [WindowInfo {
        window_id: initial_readback.window_id,
        name: "window".to_owned(),
    }];
    let mut state = SessionState {
        meeterm_zoomed: true,
        meeterm_zoomed_window: Some(initial_readback.window_id),
        meeterm_zoomed_pane: Some(initial_readback.pane_id),
        ..SessionState::default()
    };

    // This is the topology read taken before the initial selection's
    // remote zoom mutation. It must not erase the ownership published by
    // that mutation before the dirty post-selection readback arrives.
    apply_committed_topology(
        &mut state,
        &mapping,
        &windows,
        std::slice::from_ref(&initial_readback),
        std::slice::from_ref(&flat),
        initial_readback.pane_id,
        true,
    );
    assert!(state.meeterm_zoomed);
    assert_eq!(
        state.meeterm_zoomed_window,
        Some(initial_readback.window_id)
    );
    assert_eq!(state.meeterm_zoomed_pane, Some(initial_readback.pane_id));

    // A later authoritative readback still performs the normal ownership
    // validation and drops the owner if the remote zoom did not stick.
    apply_committed_topology(
        &mut state,
        &mapping,
        &windows,
        std::slice::from_ref(&initial_readback),
        std::slice::from_ref(&flat),
        initial_readback.pane_id,
        false,
    );
    assert!(!state.meeterm_zoomed);
    assert_eq!(state.meeterm_zoomed_window, None);
    assert_eq!(state.meeterm_zoomed_pane, None);
}

#[test]
fn strict_initial_selection_only_reuses_proven_same_window_ownership() {
    let target = zoomed_pane(17, true, true);
    let previous = pane(23, false, false);
    let panes = vec![target.clone(), previous.clone()];
    let same_window = fresh_selection_observation(&target, &panes, Some(previous.window_id));

    // A retained owner in the same freshly read window is the one
    // permitted exception: restore then re-zoom may retain ownership.
    assert!(same_window.previous_owned_same_window);
    assert!(!selection_is_zoomed(Some(same_window), 1, 17, false, false));
    let mut state = SessionState::default();
    publish_selection_state(&mut state, 1, 17, false);
    assert!(state.meeterm_zoomed);
    assert_eq!(state.meeterm_zoomed_pane, Some(17));

    // A missing prior pane does not erase window ownership: the fresh
    // target still belongs to the same authoritative window.
    let missing = fresh_selection_observation(&target, std::slice::from_ref(&target), Some(1));
    assert!(missing.previous_owned_same_window);
    assert!(!selection_is_zoomed(Some(missing), 1, 17, false, false));

    let mut other_window = previous;
    other_window.window_id = 2;
    let other_window_panes = vec![target.clone(), other_window];
    let other_window_observation =
        fresh_selection_observation(&target, &other_window_panes, Some(2));
    assert!(!other_window_observation.previous_owned_same_window);
    assert!(selection_is_zoomed(
        Some(other_window_observation),
        1,
        17,
        false,
        false
    ));
}

#[test]
fn routine_selection_keeps_preexisting_desktop_zoom_unowned_for_cleanup() {
    let mut state = SessionState::default();
    state.snapshot.windows.push(WindowSnapshot {
        window_id: 1,
        name: "desktop".to_owned(),
        panes: Vec::new(),
        selected: true,
        zoomed: true,
    });
    let shared_zoomed = state.snapshot.windows[0].zoomed;
    let zoomed = selection_is_zoomed(None, 1, 23, shared_zoomed, false);

    // A later pane selection uses the committed snapshot and must not
    // manufacture a cleanup target for a desktop-owned zoom.
    assert!(zoomed);
    publish_selection_state(&mut state, 1, 23, zoomed);
    assert!(!state.meeterm_zoomed);
    assert_eq!(state.meeterm_zoomed_pane, None);
    assert_eq!(select_zoom_cleanup_target(None, None), None);
}

#[test]
fn topology_keeps_zoom_ownership_on_the_window_when_pane_changes() {
    let mut state = SessionState {
        meeterm_zoomed: true,
        meeterm_zoomed_window: Some(1),
        meeterm_zoomed_pane: Some(17),
        ..SessionState::default()
    };
    let replacement = zoomed_pane(23, true, true);
    let flat = PaneSnapshot {
        window_id: replacement.window_id,
        pane_id: replacement.pane_id,
        terminal_id: 99,
        window_name: "window".to_owned(),
        active: replacement.active,
        selected: true,
        index: replacement.index,
        columns: replacement.columns,
        rows: replacement.rows,
        pane_name: replacement.pane_name.clone(),
        title: replacement.title.clone(),
    };
    let mut mapping = HashMap::new();
    mapping.insert(replacement.pane_id, flat.terminal_id);
    apply_topology_state(
        &mut state,
        &mapping,
        &[WindowInfo {
            window_id: 1,
            name: "window".to_owned(),
        }],
        std::slice::from_ref(&replacement),
        std::slice::from_ref(&flat),
        replacement.pane_id,
    );
    assert!(state.meeterm_zoomed);
    assert_eq!(state.meeterm_zoomed_window, Some(1));
    assert_eq!(state.meeterm_zoomed_pane, Some(23));
}

#[test]
fn topology_drops_zoom_ownership_only_when_the_owned_window_is_gone() {
    let mut state = SessionState {
        meeterm_zoomed: true,
        meeterm_zoomed_window: Some(1),
        meeterm_zoomed_pane: Some(17),
        ..SessionState::default()
    };
    let replacement = pane(23, true, true);
    let flat = PaneSnapshot {
        window_id: replacement.window_id,
        pane_id: replacement.pane_id,
        terminal_id: 99,
        window_name: "other".to_owned(),
        active: replacement.active,
        selected: true,
        index: replacement.index,
        columns: replacement.columns,
        rows: replacement.rows,
        pane_name: replacement.pane_name.clone(),
        title: replacement.title.clone(),
    };
    let mut mapping = HashMap::new();
    mapping.insert(replacement.pane_id, flat.terminal_id);
    apply_topology_state(
        &mut state,
        &mapping,
        &[WindowInfo {
            window_id: 2,
            name: "other".to_owned(),
        }],
        std::slice::from_ref(&replacement),
        std::slice::from_ref(&flat),
        replacement.pane_id,
    );
    assert!(!state.meeterm_zoomed);
    assert_eq!(state.meeterm_zoomed_window, None);
    assert_eq!(state.meeterm_zoomed_pane, None);
}

#[test]
fn fresh_zoom_readback_cannot_claim_against_stale_shared_snapshot() {
    let target = zoomed_pane(17, true, true);
    let observation = fresh_selection_observation(&target, std::slice::from_ref(&target), None);

    // Every contradictory stale shared combination is ignored while the
    // fresh observation is present. In particular, shared `zoomed=false`
    // must not turn a fresh desktop zoom into meeterm ownership.
    for (shared_zoomed, shared_previous_same_window) in
        [(false, false), (false, true), (true, false)]
    {
        assert!(selection_is_zoomed(
            Some(observation),
            1,
            17,
            shared_zoomed,
            shared_previous_same_window
        ));
    }
    let mut state = SessionState::default();
    publish_selection_state(&mut state, 1, 17, true);
    assert!(!state.meeterm_zoomed);
}

#[test]
fn strict_recovery_never_falls_back_to_another_tmux_pane() {
    let panes = vec![pane(17, true, true), pane(23, false, false)];
    assert!(matches!(
        selected_pane_for_sync(&panes, Some(23), true),
        Ok(23)
    ));
    assert!(matches!(
        selected_pane_for_sync(&panes, Some(99), true),
        Err(FlowFailure::TmuxRuntimeMissing)
    ));
    assert!(matches!(
        selected_pane_for_sync(&panes, Some(99), false),
        Ok(17)
    ));
}

#[test]
fn zoom_cleanup_ownership_requires_writer_acceptance_and_prefers_pending_target() {
    let allocation = ZoomRecoveryHookAllocation { index: 1_003 };
    let previous = PendingZoomCleanup {
        window: 1,
        pane: 17,
        hooks: Some(allocation),
    };
    let target = PendingZoomCleanup {
        window: 1,
        pane: 23,
        hooks: Some(allocation),
    };

    // The remote mutation may be applied while data_bytes is still
    // pending and before an explicit disconnect reaches the actor. The
    // pre-send intent is therefore already sufficient for finalization.
    let before_writer_completion = pending_zoom_cleanup_before_send(None, Some(target));
    assert_eq!(before_writer_completion, Some(target));
    assert_eq!(
        pending_zoom_cleanup_after_send(before_writer_completion, Some(target), false,),
        Some(target)
    );

    // A previously owned pane is replaced by the newest mutation intent,
    // while no intent remains when the target was pre-zoomed by desktop.
    assert_eq!(
        pending_zoom_cleanup_before_send(Some(previous), Some(target)),
        Some(target)
    );
    assert_eq!(pending_zoom_cleanup_before_send(None, None), None);

    // If a caller had not recorded a pre-send intent, the post-send
    // helper remains conservative: rejection does not invent ownership,
    // and a previous owned-pane unzoom remains the safe fallback.
    assert_eq!(
        pending_zoom_cleanup_after_send(Some(previous), Some(target), false),
        Some(previous)
    );
    // Once the new zoom bytes are accepted, the target is retained even
    // if its response/epoch publication later returns Stale.
    assert_eq!(
        pending_zoom_cleanup_after_send(Some(previous), Some(target), true),
        Some(target)
    );
    // A pre-existing desktop zoom supplies no intent and is never claimed,
    // even if its ordinary query is accepted.
    assert_eq!(pending_zoom_cleanup_after_send(None, None, true), None);
    assert_eq!(
        select_zoom_cleanup_target(Some(target), Some(previous)),
        Some(target)
    );
}

#[test]
fn strict_recovery_stages_until_the_final_dirty_readback() {
    assert!(!strict_final_readback_required(true, true, true));
    assert!(strict_final_readback_required(true, true, false));
    assert!(!strict_final_readback_required(false, true, false));
    assert!(!strict_final_readback_required(true, false, false));
}

#[test]
fn recovered_meeterm_zoom_ownership_survives_same_pane_selection() {
    let mut state = SessionState::default();
    let candidate = PendingZoomCleanup {
        window: 1,
        pane: 17,
        hooks: Some(ZoomRecoveryHookAllocation { index: 1_011 }),
    };
    let final_panes = [zoomed_pane(17, true, true)];
    publish_strict_zoom_ownership(&mut state, Some(candidate), &final_panes, 17);
    assert_eq!(state.meeterm_zoomed_pane, Some(17));

    // A same-pane reselect restores the owned layout and applies the
    // meeterm zoom again before its normal publish block. That block must
    // retain shared ownership rather than treating the zoom as desktop
    // owned.
    let previous = state.meeterm_zoomed_pane;
    assert_eq!(previous, Some(17));
    publish_selection_state(&mut state, 1, 17, false);
    assert!(state.meeterm_zoomed);
    assert_eq!(state.meeterm_zoomed_pane, previous);
}

#[test]
fn strict_publish_rejects_same_pane_after_move_and_keeps_hook_intent() {
    let mut state = SessionState::default();
    let hooks = ZoomRecoveryHookAllocation { index: 1_014 };
    let candidate = PendingZoomCleanup {
        window: 1,
        pane: 17,
        hooks: Some(hooks),
    };
    let mut final_pane = zoomed_pane(17, true, true);
    final_pane.window_id = 2;

    assert!(!strict_zoom_candidate_matches(
        candidate,
        std::slice::from_ref(&final_pane),
        17
    ));
    publish_strict_zoom_ownership(
        &mut state,
        Some(candidate),
        std::slice::from_ref(&final_pane),
        17,
    );
    assert!(!state.meeterm_zoomed);
    assert_eq!(state.meeterm_zoomed_window, None);
    assert_eq!(
        zoom_cleanup_hook_allocation(None, candidate.hooks),
        Some(hooks)
    );
}

#[test]
fn strict_zoom_commit_decision_rejects_window_mismatch_and_accepts_one_pane_unneeded() {
    let candidate = PendingZoomCleanup {
        window: 1,
        pane: 17,
        hooks: Some(ZoomRecoveryHookAllocation { index: 1_015 }),
    };
    let mut moved = zoomed_pane(17, true, true);
    moved.window_id = 2;
    assert!(matches!(
        strict_zoom_commit_decision(Some(candidate), std::slice::from_ref(&moved), 17),
        Err(FlowFailure::TmuxRuntimeMissing)
    ));

    let unzoomed_multi = [pane(17, true, true), pane(23, false, false)];
    assert!(matches!(
        strict_zoom_commit_decision(Some(candidate), &unzoomed_multi, 17),
        Err(FlowFailure::TmuxRuntimeMissing)
    ));

    let unzoomed_one = [pane(17, true, true)];
    assert!(matches!(
        strict_zoom_commit_decision(Some(candidate), &unzoomed_one, 17),
        Ok(None)
    ));
    assert!(matches!(
        strict_zoom_commit_decision(Some(candidate), &[zoomed_pane(17, true, true)], 17),
        Ok(Some(value)) if value == candidate
    ));
    assert!(matches!(
        strict_zoom_commit_decision(None, &[zoomed_pane(17, true, true)], 17),
        Ok(None)
    ));
}

#[test]
fn replaced_zoom_hook_release_never_builds_a_remove_command() {
    let allocation = ZoomRecoveryHookAllocation { index: 1_027 };
    assert!(matches!(
        release_record_hooks_command(
            ZoomRecoveryHookState::Replaced,
            "meeterm",
            allocation,
        ),
        Err(FlowFailure::TmuxRuntimeMissing)
    ));
    assert!(matches!(
        release_record_hooks_command(
            ZoomRecoveryHookState::Absent,
            "meeterm",
            allocation,
        ),
        Ok(None)
    ));
    let remove = match release_record_hooks_command(
        ZoomRecoveryHookState::Owned,
        "meeterm",
        allocation,
    ) {
        Ok(Some(remove)) => remove,
        Ok(None) | Err(_) => panic!("owned hook must produce a remove command"),
    };
    assert!(remove.contains("set-hook -u"));
}

#[test]
fn strict_recovery_keeps_preexisting_desktop_zoom_unowned() {
    let mut state = SessionState::default();
    let final_panes = [zoomed_pane(17, true, true)];

    // Fresh/manual and recovery paths pass no candidate when the final
    // readback observes a zoom that was already present on the desktop.
    publish_strict_zoom_ownership(&mut state, None, &final_panes, 17);
    assert!(!state.meeterm_zoomed);
    assert_eq!(state.meeterm_zoomed_pane, None);
}

/// A remote end that answers each request with the next scripted reply.
struct ScriptedTransport {
    responses: Vec<Vec<Vec<Vec<u8>>>>,
    sent: Vec<Vec<u8>>,
}

fn framed(blocks: &[Vec<Vec<u8>>], marker: &[u8]) -> Vec<u8> {
    let mut bytes = Vec::new();
    for block in blocks {
        bytes.extend_from_slice(b"%begin 0 0 0\n");
        for line in block {
            bytes.extend_from_slice(line);
            bytes.push(b'\n');
        }
        bytes.extend_from_slice(b"%end 0 0 0\n");
    }
    bytes.extend_from_slice(b"%begin 0 0 0\n");
    bytes.extend_from_slice(marker);
    bytes.extend_from_slice(b"\n%end 0 0 0\n");
    bytes
}

impl ScriptedTransport {
    fn query(&mut self, command: &str, generation: u64, number: u64) -> CleanupReply {
        let marker = cleanup_query_marker(generation, number);
        self.sent.push(query_request(command, &marker));
        if self.responses.is_empty() {
            return CleanupReply::Failed(FlowFailure::Transport);
        }
        let response = self.responses.remove(0);
        let mut decoder = Decoder::new();
        let events: Vec<Event> = decoder
            .feed(&framed(&response, marker.as_bytes()))
            .expect("scripted reply");
        let mut reply = Reply::new(&marker);
        for event in events {
            let (next, step) = reply.accept(event);
            reply = next;
            match step {
                ReplyStep::Complete => return CleanupReply::Blocks(reply.into_blocks()),
                ReplyStep::Failed(failure) => return CleanupReply::Failed(failure),
                ReplyStep::More | ReplyStep::Other(_) => {}
            }
        }
        CleanupReply::Failed(FlowFailure::Transport)
    }
}

/// Runs the restore of a saved record to its end.  Gives what it ended with,
/// whether the record is still there, and what was sent.
fn run_cleanup(
    record: ZoomRecord,
    responses: Vec<Vec<Vec<Vec<u8>>>>,
) -> (CleanupEnd, bool, Vec<Vec<u8>>) {
    let mut transport = ScriptedTransport {
        responses,
        sent: Vec::new(),
    };
    let mut kept = true;
    let mut number = 0;
    let actor = ZoomActor {
        zoom_hooks: None,
        pending_cleanup: None,
        pending_ownership: None,
    };
    let (mut cleanup, mut actor, mut action) =
        ZoomCleanup::begin_restore(Ok(Some(record)), actor, None, None);
    loop {
        let reply = match action {
            CleanupAction::Done(end) => return (end, kept, transport.sent),
            CleanupAction::ClearRecord => {
                kept = false;
                CleanupReply::Cleared(true)
            }
            CleanupAction::Query(command) => {
                number += 1;
                let command = command.render("$0").expect("cleanup command");
                transport.query(&command, 77_030, number)
            }
        };
        let (next, next_actor, next_action) = cleanup.resume(actor, "$0", &reply);
        cleanup = next;
        actor = next_actor;
        action = next_action;
    }
}

fn topology_reply(window: u64, pane_id: u64, zoomed: bool) -> Vec<Vec<Vec<u8>>> {
    vec![vec![format!(
        "@{window}\t%{pane_id}\t0\t1\t80\t24\tpane-{pane_id}\t{}\t1",
        u8::from(zoomed)
    )
    .into_bytes()]]
}

fn owned_hook_reply(allocation: ZoomRecoveryHookAllocation, window: u64) -> Vec<Vec<Vec<u8>>> {
    let body = format!(
        "if-shell -F -t \"=$0:@{window}\" \"#{{window_zoomed_flag}}\" \"resize-pane -Z -t =$0:@{window}\" ; set-hook -u -t \"=$0:\" client-detached[{}] ; set-hook -u -t \"=$0:\" client-session-changed[{}]",
        allocation.index, allocation.index
    );
    vec![vec![
        format!("client-detached[{}] {body}", allocation.index).into_bytes(),
        format!("client-session-changed[{}] {body}", allocation.index).into_bytes(),
    ]]
}

fn contains(request: &[u8], needle: &[u8]) -> bool {
    request.windows(needle.len()).any(|window| window == needle)
}

#[test]
fn restore_zoom_replays_real_cleanup_transcript_and_fails_closed_on_replaced_hooks() {
    let hooks = ZoomRecoveryHookAllocation { index: 1_030 };
    let responses = vec![
        topology_reply(1, 17, false),
        topology_reply(1, 17, false),
        vec![vec![
            format!("client-detached[{}] third-party-body", hooks.index).into_bytes(),
            format!("client-session-changed[{}] third-party-body", hooks.index).into_bytes(),
        ]],
    ];
    let record = ZoomRecord { window: 1, pane: 17, hooks };
    let (end, kept, sent) = run_cleanup(record, responses);
    assert_eq!(end.outcome, ZoomCleanupOutcome::UnconfirmedOrFailed);
    assert!(sent.iter().any(|request| request.starts_with(b"show-hooks")));
    assert!(!sent.iter().any(|request| contains(request, b"set-hook -u")));
    assert!(kept);
}

#[test]
fn restore_zoom_replays_real_cleanup_transcript_and_fails_closed_on_classifier_error() {
    let hooks = ZoomRecoveryHookAllocation { index: 1_031 };
    let responses = vec![
        topology_reply(1, 17, false),
        topology_reply(1, 17, false),
        vec![vec![
            format!("client-detached[{} broken", hooks.index).into_bytes(),
        ]],
    ];
    let record = ZoomRecord { window: 1, pane: 17, hooks };
    let (end, kept, sent) = run_cleanup(record, responses);
    assert_eq!(end.outcome, ZoomCleanupOutcome::UnconfirmedOrFailed);
    assert!(sent.iter().any(|request| request.starts_with(b"show-hooks")));
    assert!(!sent.iter().any(|request| contains(request, b"set-hook -u")));
    assert!(kept);
}

#[test]
fn restore_zoom_replays_owned_and_absent_cleanup_transcripts() {
    for (index, hook_response, expected_removal) in [(1_032, true, true), (1_033, false, false)] {
        let hooks = ZoomRecoveryHookAllocation { index };
        let mut responses = vec![topology_reply(1, 17, false), topology_reply(1, 17, false)];
        responses.push(if hook_response {
            owned_hook_reply(hooks, 1)
        } else {
            Vec::new()
        });
        if expected_removal {
            responses.push(Vec::new());
            responses.push(Vec::new());
        }
        let record = ZoomRecord { window: 1, pane: 17, hooks };
        let (end, kept, sent) = run_cleanup(record, responses);
        assert_eq!(end.outcome, ZoomCleanupOutcome::NotNeeded);
        let removals = sent
            .iter()
            .filter(|request| contains(request, b"set-hook -u"))
            .count();
        assert_eq!(removals, usize::from(expected_removal));
        if expected_removal {
            let removal = sent
                .iter()
                .find(|request| contains(request, b"set-hook -u"))
                .expect("owned cleanup removal request");
            assert!(contains(removal, format!("client-detached[{index}] ").as_bytes()));
            assert!(contains(
                removal,
                format!("client-session-changed[{index}] ").as_bytes()
            ));
        }
        assert!(!kept);
    }
}

/// The flags that a connection publishes to its controller.
struct Lifecycle {
    cancelled: bool,
    explicit: bool,
    recovering: bool,
    generation: u64,
    state_generation: u64,
}

impl Lifecycle {
    fn new(generation: u64) -> Self {
        Lifecycle {
            cancelled: false,
            explicit: false,
            recovering: false,
            generation,
            state_generation: generation,
        }
    }

    fn invalidate_explicitly(&mut self) {
        self.explicit = true;
        self.recovering = true;
    }

    fn exit(&self) -> Option<ControllerLoopExit> {
        controller_loop_exit(self.cancelled, self.recovering, self.explicit, self.cancelled)
    }

    fn cleanup_needed(&self, remote_session_closed: bool) -> bool {
        controller_loop_cleanup_needed(
            self.explicit,
            self.cancelled,
            remote_session_closed,
            self.generation == self.state_generation,
        )
    }
}

#[test]
fn explicit_cancellation_wins_before_recovery_exit_even_before_cancel_wake() {
    let mut shared = Lifecycle::new(77_006);
    // An explicit end publishes the stopped phase before the cancellation.
    shared.invalidate_explicitly();
    assert!(!shared.cancelled);
    assert_eq!(shared.exit(), Some(ControllerLoopExit::Cancellation));
    assert!(shared.cleanup_needed(false));

    shared.cancelled = true;
    assert_eq!(shared.exit(), Some(ControllerLoopExit::Cancellation));
    assert!(!shared.cleanup_needed(false));
    shared.state_generation += 1;
    assert!(!shared.cleanup_needed(false));
}

#[test]
fn explicit_cleanup_finalizes_after_inner_operation_escape() {
    let mut shared = Lifecycle::new(77_008);
    shared.invalidate_explicitly();
    let inner_result: Result<(), FlowFailure> = Err(FlowFailure::Stale);
    assert!(matches!(inner_result, Err(FlowFailure::Stale)));
    assert!(shared.cleanup_needed(false));
    assert!(!shared.cleanup_needed(true));
}

#[test]
fn explicit_cleanup_is_blocked_after_generation_replacement_or_force_cancel() {
    let mut shared = Lifecycle::new(77_009);
    shared.invalidate_explicitly();
    assert!(shared.cleanup_needed(false));
    shared.state_generation += 1;
    assert!(!shared.cleanup_needed(false));
    shared.cancelled = true;
    assert!(!shared.cleanup_needed(false));
}

#[test]
fn recovery_exit_remains_transport_owned_without_explicit_cancellation() {
    let mut shared = Lifecycle::new(77_007);
    shared.recovering = true;
    assert!(!shared.cancelled);
    assert_eq!(shared.exit(), Some(ControllerLoopExit::Recovery));
}

#[test]
fn an_intended_cleanup_without_a_stream_is_not_reported_as_unneeded() {
    assert_eq!(final_cleanup(true, true, true), FinalCleanup::Restore);
    assert_eq!(
        final_cleanup(false, true, true),
        FinalCleanup::Record(ZoomCleanupOutcome::UnconfirmedOrFailed)
    );
    assert_eq!(
        final_cleanup(false, true, false),
        FinalCleanup::Record(ZoomCleanupOutcome::NotNeeded)
    );
    assert_eq!(
        final_cleanup(false, false, true),
        FinalCleanup::Record(ZoomCleanupOutcome::NotNeeded)
    );
}

fn open_gate(state: &SessionState) -> CommitGate {
    CommitGate {
        cancelled: false,
        generation: state.generation,
        epoch: state.operation_epoch,
    }
}

fn shown(pane: &PaneInfo) -> PaneSnapshot {
    PaneSnapshot {
        window_id: pane.window_id,
        pane_id: pane.pane_id,
        terminal_id: 99,
        window_name: "window".to_owned(),
        active: pane.active,
        selected: true,
        index: pane.index,
        columns: pane.columns,
        rows: pane.rows,
        pane_name: pane.pane_name.clone(),
        title: pane.title.clone(),
    }
}

#[test]
fn strict_recovery_ready_commit_publishes_meeterm_zoom_ownership() {
    let mut state = SessionState {
        generation: 77_010,
        operation_epoch: 2,
        ..SessionState::default()
    };
    let candidate = PendingZoomCleanup {
        window: 1,
        pane: 17,
        hooks: Some(ZoomRecoveryHookAllocation { index: 1_010 }),
    };
    let final_panes = [zoomed_pane(17, true, true)];
    let gate = open_gate(&state);
    let allowed = strict_commit_allowed(&state, gate, Some(candidate), &final_panes, 17)
        .expect("allowed commit");
    assert_eq!(allowed, Some(candidate));
    let mapping = HashMap::from([(17, 99)]);
    let windows = [WindowInfo {
        window_id: 1,
        name: "window".to_owned(),
    }];
    let flat = [shown(&final_panes[0])];
    apply_strict_commit(&mut state, &mapping, &windows, &final_panes, &flat, 17, allowed);
    assert!(state.meeterm_zoomed);
    assert_eq!(state.meeterm_zoomed_window, Some(1));
    assert_eq!(state.meeterm_zoomed_pane, Some(17));
    assert_eq!(state.snapshot.selected_pane, Some(17));
    assert!(state.snapshot.windows[0].zoomed);
}

#[test]
fn strict_zoom_mismatch_is_rejected_before_ready_commit_and_retains_record() {
    let state = SessionState {
        generation: 77_015,
        operation_epoch: 2,
        ..SessionState::default()
    };
    let candidate = PendingZoomCleanup {
        window: 1,
        pane: 17,
        hooks: Some(ZoomRecoveryHookAllocation { index: 1_016 }),
    };
    let mut moved = zoomed_pane(17, true, true);
    moved.window_id = 2;
    let gate = open_gate(&state);
    assert_eq!(
        strict_commit_allowed(&state, gate, Some(candidate), &[moved], 17),
        Err(FlowFailure::TmuxRuntimeMissing)
    );
}

#[test]
fn stale_strict_commit_keeps_actor_intent_without_shared_zoom_ownership() {
    let mut state = SessionState {
        generation: 77_012,
        operation_epoch: 2,
        ..SessionState::default()
    };
    let candidate = PendingZoomCleanup {
        window: 1,
        pane: 17,
        hooks: Some(ZoomRecoveryHookAllocation { index: 1_012 }),
    };
    let actor_intent = pending_zoom_cleanup_before_send(None, Some(candidate));
    let gate = open_gate(&state);
    // An explicit end starts another epoch.
    state.operation_epoch += 1;
    let final_panes = [zoomed_pane(17, true, true)];
    assert_eq!(
        strict_commit_allowed(&state, gate, actor_intent, &final_panes, 17),
        Err(FlowFailure::Stale)
    );
    assert!(!state.meeterm_zoomed);
    assert_eq!(state.meeterm_zoomed_pane, None);
    assert_eq!(actor_intent, Some(candidate));
    assert!(controller_loop_cleanup_needed(true, false, false, true));
}

#[test]
fn a_topology_of_another_epoch_or_generation_is_not_committed() {
    let panes = [pane(17, true, true)];
    let windows = [WindowInfo {
        window_id: 1,
        name: "window".to_owned(),
    }];
    let flat = [shown(&panes[0])];
    let mapping = HashMap::from([(17, 99)]);
    let mut state = SessionState {
        generation: 5,
        operation_epoch: 7,
        ..SessionState::default()
    };
    for gate in [
        CommitGate { cancelled: true, generation: 5, epoch: 7 },
        CommitGate { cancelled: false, generation: 6, epoch: 7 },
        CommitGate { cancelled: false, generation: 5, epoch: 8 },
    ] {
        assert_eq!(
            commit_topology(&mut state, gate, &mapping, &windows, &panes, &flat, 17, false),
            Err(FlowFailure::Stale)
        );
        assert_eq!(state.selected_pane, None);
        assert!(state.snapshot.panes.is_empty());
    }
    let gate = open_gate(&state);
    assert_eq!(
        commit_topology(&mut state, gate, &mapping, &windows, &panes, &flat, 17, false),
        Ok(())
    );
    assert_eq!(state.selected_pane, Some(17));
    assert_eq!(state.pane_terminals.get(&17), Some(&99));
}

/// Marks a batch of transports, of which some are revoked.  Gives whether the
/// batch was marked, and the transports that are marked afterwards.
fn mark_batch(ids: &[u64], revoked: &[u64]) -> (bool, Vec<u64>) {
    let mut marked: Vec<u64> = Vec::new();
    let mut batch = ReadyBatch { total: ids.len(), marked: 0 };
    loop {
        let mut action = batch.proceed(true);
        if let ReadyAction::Mark(at) = action {
            let accepted = !revoked.contains(&ids[at]);
            if accepted {
                marked.push(ids[at]);
            }
            match batch.answered(accepted) {
                Ok(next) => {
                    batch = next;
                    continue;
                }
                Err(give_up) => action = give_up,
            }
        }
        match action {
            ReadyAction::Done => return (true, marked),
            ReadyAction::RollBack(count) => {
                for id in &ids[..count] {
                    marked.retain(|kept| kept != id);
                }
                return (false, marked);
            }
            ReadyAction::Mark(_) => unreachable!(),
        }
    }
}

#[test]
fn a_revoked_pane_rolls_back_partial_ready_marks() {
    assert_eq!(mark_batch(&[1, 2], &[2]), (false, vec![]));
    assert_eq!(mark_batch(&[1, 2], &[]), (true, vec![1, 2]));
}

#[test]
fn routine_sync_marks_a_new_pane_without_disturbing_existing_input() {
    // A connection that was ready before marks only what it has newly routed.
    let flow = SyncFlow {
        initial: false,
        strict: false,
        strict_final: false,
        was_ready: true,
        no_cleanup: true,
        phase: SyncPhase::Committing,
        captures: 1,
        captured: 1,
        failure: None,
    };
    let committed = SyncEvent::Succeeded {
        epoch_current: true,
    };
    assert_eq!(flow.advance(committed).1, SyncAction::MarkNew);
    let created = 3;
    assert_eq!(mark_batch(&[created], &[]), (true, vec![created]));
}

#[test]
fn strict_final_epoch_abort_keeps_native_term_before_commit() {
    let mut state = SessionState {
        generation: 77_003,
        operation_epoch: 2,
        ..SessionState::default()
    };
    let gate = open_gate(&state);
    let final_panes = [pane(17, true, true)];
    assert_eq!(
        strict_commit_allowed(&state, gate, None, &final_panes, 17),
        Ok(None)
    );
    // A recovery begins after the final capture was prepared.
    state.operation_epoch += 1;
    assert_eq!(
        strict_commit_allowed(&state, gate, None, &final_panes, 17),
        Err(FlowFailure::Stale)
    );
    assert!(state.snapshot.panes.is_empty());
}

#[test]
fn every_remembered_zoom_asks_for_a_cleanup() {
    let hooks = ZoomRecoveryHookAllocation { index: 1000 };
    let zoom = PendingZoomCleanup {
        window: 1,
        pane: 2,
        hooks: Some(hooks),
    };
    let record = ZoomRecord {
        window: 1,
        pane: 2,
        hooks,
    };
    let nothing = ZoomActor {
        zoom_hooks: None,
        pending_cleanup: None,
        pending_ownership: None,
    };
    assert!(!has_cleanup_intent(nothing, None, None));
    assert!(has_cleanup_intent(nothing, Some(zoom), None));
    assert!(has_cleanup_intent(nothing, None, Some(record)));
    for actor in [
        ZoomActor {
            zoom_hooks: Some(hooks),
            ..nothing
        },
        ZoomActor {
            pending_cleanup: Some(zoom),
            ..nothing
        },
        ZoomActor {
            pending_ownership: Some(zoom),
            ..nothing
        },
    ] {
        assert!(has_cleanup_intent(actor, None, None));
    }
}

#[test]
fn the_end_of_a_cleanup_decides_which_zoom_is_owned() {
    let zoom = PendingZoomCleanup {
        window: 4,
        pane: 9,
        hooks: None,
    };
    let end = CleanupEnd {
        outcome: ZoomCleanupOutcome::NotNeeded,
        failure: None,
        clear_owned: false,
        clear_pending: false,
        record_failure: false,
        claim: true,
    };
    let owned = |state: &SessionState| {
        (
            state.meeterm_zoomed,
            state.meeterm_zoomed_window,
            state.meeterm_zoomed_pane,
        )
    };
    let mut state = SessionState {
        generation: 3,
        ..SessionState::default()
    };
    settle_cleanup(&mut state, end, Some(zoom), 2);
    assert_eq!(owned(&state), (false, None, None));
    settle_cleanup(&mut state, end, Some(zoom), 3);
    assert_eq!(owned(&state), (true, Some(4), Some(9)));
    let kept = CleanupEnd {
        claim: false,
        ..end
    };
    settle_cleanup(&mut state, kept, None, 3);
    assert_eq!(owned(&state), (true, Some(4), Some(9)));
    let cleared = CleanupEnd {
        clear_owned: true,
        ..kept
    };
    settle_cleanup(&mut state, cleared, None, 3);
    assert_eq!(owned(&state), (false, None, None));
}

#[test]
fn a_restore_that_cannot_be_written_keeps_the_owned_zoom() {
    // The session itself can be targeted; one of its windows is too long.
    let session = "a".repeat(4_094);
    let zoom = PendingZoomCleanup {
        window: 1,
        pane: 17,
        hooks: None,
    };
    let nothing = ZoomActor {
        zoom_hooks: None,
        pending_cleanup: None,
        pending_ownership: None,
    };
    let (cleanup, actor, action) =
        ZoomCleanup::begin_restore(Ok(None), nothing, Some(zoom), Some(1));
    let CleanupAction::Query(command) = action else {
        panic!("the topology is read first");
    };
    assert!(command.render(&session).is_ok());
    let blocks = vec![CommandBlock {
        number: 1,
        lines: topology_reply(1, 17, true).remove(0),
        error: false,
    }];
    let (cleanup, actor, action) =
        cleanup.resume(actor, &session, &CleanupReply::Blocks(blocks));
    let CleanupAction::Query(command) = action else {
        panic!("the window is restored next");
    };
    assert_eq!(command, CleanupCommand::RestoreWindow(1));
    assert!(command.render(&session).is_err());
    let end = |reply: &CleanupReply| match cleanup.resume(actor, &session, reply).2 {
        CleanupAction::Done(end) => end,
        _ => panic!("the cleanup ends"),
    };
    let unsent = end(&CleanupReply::NotRendered);
    assert_eq!(unsent.outcome, ZoomCleanupOutcome::UnconfirmedOrFailed);
    assert!(!unsent.clear_owned);
    assert!(!unsent.record_failure);
    // A restore that was sent and failed gives the zoom up.
    let failed = end(&CleanupReply::Failed(FlowFailure::Transport));
    assert_eq!(failed.outcome, ZoomCleanupOutcome::UnconfirmedOrFailed);
    assert!(failed.clear_owned);
}
