//! What requests, selections and recoveries of a Herdr runtime come to.

use vstd::prelude::*;
use vstd::string::*;

use crate::input::Modifiers;
use crate::ssh::command::ControlCommand;
use crate::ssh::flow::FlowFailure;
use crate::ssh::herdr::input;
use crate::ssh::herdr::input::InputContext;
use crate::ssh::herdr::metadata;
use crate::ssh::herdr::metadata::Metadata;
use crate::ssh::herdr::project::SnapshotProjection;
use crate::ssh::herdr::recovery;
use crate::ssh::herdr::recovery::{
    DiscoveredSession, Listed, RecoverAction, RecoverFact, RecoverPhase, Recovery, StopReason,
    TokenScope,
};
use crate::ssh::herdr::request;
use crate::ssh::herdr::request::{ApiRequestView, ApiValueView};
use crate::ssh::herdr::select;
use crate::ssh::herdr::session;
use crate::ssh::herdr::session::StatusReport;
use crate::ssh::herdr::settle;
use crate::ssh::herdr::terminal;
use crate::ssh::herdr::terminal::{ActivateAction, ActivateFact, ActivationTarget};
use crate::ssh::state::SessionState;
use crate::text;
use crate::tmux::snapshot::PaneSnapshotView;
use crate::workspace;
use crate::workspace::TerminalView;

verus! {

/// The request calls this method and tells this text under this name.
pub open spec fn tells(
    r: Result<ApiRequestView, FlowFailure>,
    method: Seq<char>,
    name: Seq<char>,
    value: Seq<char>,
) -> bool {
    &&& r is Ok
    &&& request::method_text(r->Ok_0.method) == method
    &&& exists|i: int|
        0 <= i < r->Ok_0.params.len() && (#[trigger] r->Ok_0.params[i]).name == name
            && r->Ok_0.params[i].value == ApiValueView::Text(value)
}

/// No request takes the desktop's focus, and none closes more than it names.
pub proof fn law_requests_leave_the_focus_alone(command: ControlCommand, m: Metadata, i: int)
    requires
        request::request_for(command, m) is Ok,
        0 <= i < request::request_for(command, m)->Ok_0.params.len(),
    ensures
        request::request_for(command, m)->Ok_0.params[i].value matches ApiValueView::Flag(on)
            ==> !on,
{
}

/// A request on a workspace names that workspace, and its label where it has
/// one; an unknown workspace is refused.
pub proof fn law_workspace_requests_name_their_workspace(
    m: Metadata,
    window_id: u64,
    name: String,
)
    ensures
        m.workspaces@.contains_key(window_id) ==> {
            let id = m.workspaces@[window_id]@;
            let close = request::request_for(
                (ControlCommand::CloseWorkspace { window_id }),
                m,
            );
            let rename = request::request_for(
                (ControlCommand::RenameWorkspace { window_id, name }),
                m,
            );
            let create = request::request_for(
                (ControlCommand::CreateGroup { window_id, name }),
                m,
            );
            &&& tells(close, "workspace.close"@, "workspace_id"@, id)
            &&& tells(rename, "workspace.rename"@, "workspace_id"@, id)
            &&& tells(rename, "workspace.rename"@, "label"@, name@)
            &&& tells(create, "tab.create"@, "workspace_id"@, id)
            &&& tells(create, "tab.create"@, "label"@, name@)
        },
        !m.workspaces@.contains_key(window_id) ==> {
            &&& request::request_for((ControlCommand::CloseWorkspace { window_id }), m) == Err::<
                ApiRequestView,
                FlowFailure,
            >(FlowFailure::HerdrOperation)
            &&& request::request_for((ControlCommand::RenameWorkspace { window_id, name }), m)
                == Err::<ApiRequestView, FlowFailure>(FlowFailure::HerdrOperation)
            &&& request::request_for((ControlCommand::CreateGroup { window_id, name }), m)
                == Err::<ApiRequestView, FlowFailure>(FlowFailure::HerdrOperation)
        },
        tells(
            request::request_for((ControlCommand::CreateWorkspace { name }), m),
            "workspace.create"@,
            "label"@,
            name@,
        ),
{
    let made = request::request_for((ControlCommand::CreateWorkspace { name }), m)->Ok_0;
    assert(made.params[0].name == "label"@);
    if m.workspaces@.contains_key(window_id) {
        let close = request::request_for((ControlCommand::CloseWorkspace { window_id }), m)->Ok_0;
        let rename = request::request_for(
            (ControlCommand::RenameWorkspace { window_id, name }),
            m,
        )->Ok_0;
        let create = request::request_for(
            (ControlCommand::CreateGroup { window_id, name }),
            m,
        )->Ok_0;
        assert(close.params[0].name == "workspace_id"@);
        assert(rename.params[0].name == "workspace_id"@);
        assert(rename.params[1].name == "label"@);
        assert(create.params[0].name == "workspace_id"@);
        assert(create.params[1].name == "label"@);
    }
}

/// A request on a tab or a pane names it; an unknown one is refused.
pub proof fn law_tab_and_pane_requests_name_their_target(
    m: Metadata,
    group_id: u64,
    pane_id: u64,
    name: String,
)
    ensures
        m.groups@.contains_key(group_id) ==> {
            let rename = request::request_for(
                (ControlCommand::RenameGroup { group_id, name }),
                m,
            );
            &&& tells(rename, "tab.rename"@, "tab_id"@, m.groups@[group_id]@)
            &&& tells(rename, "tab.rename"@, "label"@, name@)
        },
        m.panes@.contains_key(pane_id) ==> {
            let rename = request::request_for((ControlCommand::RenamePane { pane_id, name }), m);
            &&& tells(rename, "pane.rename"@, "pane_id"@, m.panes@[pane_id].pane_id@)
            &&& tells(rename, "pane.rename"@, "label"@, name@)
        },
        m.panes@.contains_key(pane_id) && !m.linked_worktree_parents@.contains(
            m.panes@[pane_id].workspace,
        ) ==> tells(
            request::request_for((ControlCommand::ClosePane { pane_id }), m),
            "pane.close"@,
            "pane_id"@,
            m.panes@[pane_id].pane_id@,
        ),
        !m.groups@.contains_key(group_id) ==> request::request_for(
            (ControlCommand::RenameGroup { group_id, name }),
            m,
        ) is Err && request::request_for((ControlCommand::CloseGroup { group_id }), m) is Err,
        !m.panes@.contains_key(pane_id) ==> request::request_for(
            (ControlCommand::RenamePane { pane_id, name }),
            m,
        ) is Err && request::request_for((ControlCommand::ClosePane { pane_id }), m) is Err,
{
    if m.groups@.contains_key(group_id) {
        let rename = request::request_for((ControlCommand::RenameGroup { group_id, name }), m)->Ok_0;
        assert(rename.params[0].name == "tab_id"@);
        assert(rename.params[1].name == "label"@);
    }
    if m.panes@.contains_key(pane_id) {
        let rename = request::request_for((ControlCommand::RenamePane { pane_id, name }), m)->Ok_0;
        assert(rename.params[0].name == "pane_id"@);
        assert(rename.params[1].name == "label"@);
        if !m.linked_worktree_parents@.contains(m.panes@[pane_id].workspace) {
            let close = request::request_for((ControlCommand::ClosePane { pane_id }), m)->Ok_0;
            assert(close.params[0].name == "pane_id"@);
        }
    }
}

/// What could close a whole worktree group is refused: no pane and no tab of
/// such a workspace is closed.
pub proof fn law_worktree_groups_are_not_closed(
    m: Metadata,
    group_id: u64,
    pane_id: u64,
    parent: u64,
)
    requires
        m.linked_worktree_parents@.contains(parent),
    ensures
        m.panes@.contains_key(pane_id) && m.panes@[pane_id].workspace == parent
            ==> request::request_for((ControlCommand::ClosePane { pane_id }), m) == Err::<
            ApiRequestView,
            FlowFailure,
        >(FlowFailure::HerdrWorkspaceGroup),
        metadata::workspace_of_group(workspace::group_views(m.snapshot.groups@), group_id) == Some(
            parent,
        ) ==> request::request_for((ControlCommand::CloseGroup { group_id }), m) == Err::<
            ApiRequestView,
            FlowFailure,
        >(FlowFailure::HerdrWorkspaceGroup),
{
}

/// A shown tab of another workspace is closed under its own name.
pub proof fn law_a_tab_is_closed_by_its_name(m: Metadata, group_id: u64, parent: u64)
    requires
        metadata::workspace_of_group(workspace::group_views(m.snapshot.groups@), group_id) == Some(
            parent,
        ),
        !m.linked_worktree_parents@.contains(parent),
        m.groups@.contains_key(group_id),
    ensures
        tells(
            request::request_for((ControlCommand::CloseGroup { group_id }), m),
            "tab.close"@,
            "tab_id"@,
            m.groups@[group_id]@,
        ),
{
    let close = request::request_for((ControlCommand::CloseGroup { group_id }), m)->Ok_0;
    assert(close.params[0].name == "tab_id"@);
}

/// Of the panes of a committed projection exactly the selected one is marked,
/// and nothing else of a pane changes.
pub proof fn law_the_selected_pane_alone_is_marked(
    panes: Seq<PaneSnapshotView>,
    selected: Option<u64>,
    i: int,
)
    requires
        0 <= i < panes.len(),
    ensures
        settle::marked(panes, selected).len() == panes.len(),
        settle::marked(panes, selected)[i].selected <==> selected == Some(panes[i].pane_id),
        settle::marked(panes, selected)[i].pane_id == panes[i].pane_id,
        settle::marked(panes, selected)[i].window_id == panes[i].window_id,
        settle::marked(panes, selected)[i].terminal_id == panes[i].terminal_id,
        settle::marked(panes, selected)[i].title == panes[i].title,
{
}

/// A tab that was chosen while a snapshot was read stays chosen as long as it
/// exists; where it is gone, or nothing was chosen, the snapshot decides.
pub proof fn law_a_newer_tab_choice_stays(
    projected: Map<u64, u64>,
    newer: Map<u64, u64>,
    groups: Map<u64, String>,
    workspace: u64,
)
    ensures
        newer.contains_key(workspace) && groups.contains_key(newer[workspace]) ==> {
            &&& settle::merged_groups(projected, newer, groups).contains_key(workspace)
            &&& settle::merged_groups(projected, newer, groups)[workspace] == newer[workspace]
        },
        !(newer.contains_key(workspace) && groups.contains_key(newer[workspace])) ==> {
            &&& settle::merged_groups(projected, newer, groups).contains_key(workspace)
                == projected.contains_key(workspace)
            &&& projected.contains_key(workspace) ==> settle::merged_groups(
                projected,
                newer,
                groups,
            )[workspace] == projected[workspace]
        },
{
    let kept = newer.restrict(
        newer.dom().filter(|w: u64| groups.contains_key(newer[w])),
    );
    assert(kept.contains_key(workspace) <==> newer.contains_key(workspace) && groups.contains_key(
        newer[workspace],
    ));
}

/// A pane that was selected while a snapshot was read stays selected as long as
/// it exists; no other pane steps in for it.
pub proof fn law_a_newer_selection_stays(
    projection: SnapshotProjection,
    state: SessionState,
    old_selected: Option<u64>,
)
    ensures
        state.selected_pane == old_selected ==> settle::kept_selection(
            projection,
            state,
            old_selected,
        ) == projection.selected,
        state.selected_pane != old_selected ==> (settle::kept_selection(
            projection,
            state,
            old_selected,
        ) == state.selected_pane || settle::kept_selection(projection, state, old_selected)
            is None),
        state.selected_pane != old_selected ==> (state.selected_pane matches Some(pane)
            ==> (projection.metadata.panes@.contains_key(pane) ==> settle::kept_selection(
            projection,
            state,
            old_selected,
        ) == Some(pane))),
{
}

/// A group shows its active terminal, else its first, and never one of another
/// group.
pub proof fn law_a_group_shows_its_own_terminal(
    terminals: Seq<TerminalView>,
    group: Seq<char>,
    active: bool,
)
    ensures
        match select::first_terminal(terminals, group, active) {
            Some(t) => t.group_id == group && (active ==> t.active) && terminals.contains(t),
            None => forall|i: int|
                0 <= i < terminals.len() ==> !((#[trigger] terminals[i]).group_id == group && (
                terminals[i].active || !active)),
        },
    decreases terminals.len(),
{
    if terminals.len() > 0 {
        let rest = terminals.drop_first();
        law_a_group_shows_its_own_terminal(rest, group, active);
        match select::first_terminal(terminals, group, active) {
            Some(t) => {
                if terminals[0].group_id == group && (terminals[0].active || !active) {
                    assert(terminals[0] == t);
                } else {
                    let i = choose|i: int| 0 <= i < rest.len() && rest[i] == t;
                    assert(terminals[i + 1] == t);
                }
            },
            None => {
                assert forall|i: int| 0 <= i < terminals.len() implies !((
                #[trigger] terminals[i]).group_id == group && (terminals[i].active
                    || !active)) by {
                    if i > 0 {
                        assert(rest[i - 1] == terminals[i]);
                    }
                }
            },
        }
    }
}

/// The release that is spoken with, and no other, is accepted, of the very
/// session that was asked for; its socket is an absolute path.
pub proof fn law_only_the_right_session_is_accepted(report: StatusReport, runtime: Option<&str>)
    ensures
        session::status_verdict(report, runtime) matches Ok(path) ==> {
            &&& report.running
            &&& report.version is Some && report.version->0@ == "0.9.0"@
            &&& report.server_protocol == Some(22u64)
            &&& report.client_protocol == Some(22u64)
            &&& report.schema_reported ==> report.schema == Some(1u64)
            &&& report.socket is Some && path == report.socket->0@
            &&& text::utf8(path).len() > 0 && text::utf8(path)[0] == 0x2f
            &&& runtime is None ==> report.server_session is None && report.client_session is None
            &&& runtime matches Some(name) ==> (if name@ == "default"@ {
                report.server_session is None && report.client_session is None
            } else {
                report.server_session is Some && report.server_session->0@ == name@
                    && report.client_session is Some && report.client_session->0@ == name@
            })
        },
        !report.running ==> session::status_verdict(report, runtime) == Err::<
            Seq<char>,
            FlowFailure,
        >(FlowFailure::HerdrSessionMissing),
{
    reveal_strlit("/");
    text::lemma_utf8_ascii("/"@);
    if session::status_verdict(report, runtime) is Ok {
        let path = report.socket->0@;
        assert(text::utf8("/"@)[0] == 0x2f);
        assert(text::utf8("/"@).len() == 1);
        assert(text::utf8(path)[0] == text::utf8("/"@)[0]);
    }
}

/// Every pane's agent is watched, and the topology with it, whatever panes
/// there are.
pub proof fn law_every_pane_is_watched(panes: Seq<String>, i: int)
    requires
        0 <= i < panes.len(),
    ensures
        exists|k: int|
            0 <= k < session::subscriptions_for(panes).len() && (
            #[trigger] session::subscriptions_for(panes)[k]).pane == Some(panes[i]@)
                && session::subscriptions_for(panes)[k].event == "pane.agent_status_changed"@,
        forall|k: int|
            0 <= k < session::subscriptions_for(panes).len() - panes.len() ==> (
            #[trigger] session::subscriptions_for(panes)[k]).pane is None,
        session::subscriptions_for(panes).len() == panes.len() + 16,
{
    let all = session::subscriptions_for(panes);
    assert(session::topology_events().len() == 16);
    assert(all[16 + i].pane == Some(panes[i]@));
}

/// A terminal that is on screen, in front and known is attached in order: the
/// other one is released, a channel opened, the control started, the native
/// terminal bound, and the first display awaited.  A session that is hidden
/// only releases, and one that is attached already only resumes.
pub proof fn law_a_terminal_is_attached_in_order(
    target: ActivationTarget,
    controller: Option<u64>,
)
    requires
        target.selected is Some,
        target.terminal is Some,
        target.native is Some,
    ensures
        ({
            let begun = terminal::activation_begun(true, target, controller);
            let opened = terminal::activation_advanced(
                begun.0,
                (ActivateFact::Released { epoch_current: true, foreground: true }),
            );
            let started = terminal::activation_advanced(
                opened.0,
                (ActivateFact::Opened { epoch_current: true }),
            );
            let bound = terminal::activation_advanced(
                started.0,
                (ActivateFact::Started { epoch_current: true }),
            );
            let shown = terminal::activation_advanced(bound.0, ActivateFact::Attached);
            &&& !target.visible ==> begun.1 == ActivateAction::Release && opened.1
                == ActivateAction::Done
            &&& target.visible && controller == target.selected ==> begun.1
                == ActivateAction::Resume
            &&& target.visible && controller != target.selected ==> {
                &&& begun.1 == ActivateAction::Release
                &&& opened.1 == ActivateAction::OpenChannel
                &&& started.1 == ActivateAction::StartControl
                &&& bound.1 == ActivateAction::Attach
                &&& shown.1 == ActivateAction::AwaitFrame
                &&& terminal::activation_advanced(shown.0, ActivateFact::Shown).1
                    == ActivateAction::Done
            }
        }),
{
}

/// Without a complete target nothing is opened: the session is only marked
/// ready.
pub proof fn law_nothing_is_attached_without_a_target(
    target: ActivationTarget,
    controller: Option<u64>,
)
    requires
        target.visible,
        target.selected is None || target.terminal is None || target.native is None,
        controller is None,
    ensures
        ({
            let begun = terminal::activation_begun(true, target, controller);
            terminal::activation_advanced(
                begun.0,
                (ActivateFact::Released { epoch_current: true, foreground: true }),
            ).1 == ActivateAction::MarkReady
        }),
{
}

/// Input goes out only to the pane that the user faces: the controller's pane is
/// the selected one, on screen, in front, ready and open for input.
pub proof fn law_input_reaches_the_pane_in_front(c: InputContext)
    ensures
        input::open_for_input(c) <==> {
            &&& c.controller_ready
            &&& c.input_ready
            &&& c.visible
            &&& c.foreground
            &&& c.controller is Some
            &&& c.selected is Some
            &&& c.controller->0 == c.selected->0
        },
{
}

/// Modifiers stand in front of a key in one order: control, alt, shift.
pub proof fn law_modifiers_are_named_in_order(m: Modifiers)
    ensures
        input::prefix(m) == (match (m.ctrl, m.alt, m.shift) {
            (false, false, false) => ""@,
            (true, false, false) => "ctrl+"@,
            (false, true, false) => "alt+"@,
            (false, false, true) => "shift+"@,
            (true, true, false) => "ctrl+alt+"@,
            (true, false, true) => "ctrl+shift+"@,
            (false, true, true) => "alt+shift+"@,
            (true, true, true) => "ctrl+alt+shift+"@,
        }),
{
    reveal_strlit("");
    reveal_strlit("ctrl+");
    reveal_strlit("alt+");
    reveal_strlit("shift+");
    reveal_strlit("ctrl+alt+");
    reveal_strlit("ctrl+shift+");
    reveal_strlit("alt+shift+");
    reveal_strlit("ctrl+alt+shift+");
    match (m.ctrl, m.alt, m.shift) {
        (false, false, false) => {
            assert(input::prefix(m) =~= ""@);
        },
        (true, false, false) => {
            assert(input::prefix(m) =~= "ctrl+"@);
        },
        (false, true, false) => {
            assert(input::prefix(m) =~= "alt+"@);
        },
        (false, false, true) => {
            assert(input::prefix(m) =~= "shift+"@);
        },
        (true, true, false) => {
            assert(input::prefix(m) =~= "ctrl+alt+"@);
        },
        (true, false, true) => {
            assert(input::prefix(m) =~= "ctrl+shift+"@);
        },
        (false, true, true) => {
            assert(input::prefix(m) =~= "alt+shift+"@);
        },
        (true, true, true) => {
            assert(input::prefix(m) =~= "ctrl+alt+shift+"@);
        },
    }
}

/// A scroll has as many lines as were asked for, whichever way it goes, up to
/// the most that is sent.
pub proof fn law_a_scroll_keeps_its_length(lines: i32)
    ensures
        0 <= lines <= 65535 ==> input::scroll_lines(lines) == lines,
        -65535 <= lines <= 0 ==> input::scroll_lines(lines) == -lines,
        input::scroll_lines(lines) <= 65535,
        lines > 65535 || lines < -65535 ==> input::scroll_lines(lines) == 65535,
{
}

/// The session of a recovery is one that runs and that the profile means: the
/// named one, or the default one without a name.  Where none is found, none is
/// listed.
pub proof fn law_a_recovery_finds_the_profiles_session(
    sessions: Seq<DiscoveredSession>,
    runtime: Option<&str>,
)
    ensures
        match recovery::fitting(sessions, runtime) {
            Some(at) => {
                &&& 0 <= at < sessions.len()
                &&& sessions[at].running
                &&& runtime matches Some(name) ==> sessions[at].name@ == name@
                &&& runtime is None ==> sessions[at].default
            },
            None => forall|i: int|
                #![trigger sessions[i]]
                0 <= i < sessions.len() && sessions[i].running ==> {
                    &&& runtime matches Some(name) ==> sessions[i].name@ != name@
                    &&& runtime is None ==> !sessions[i].default
                },
        },
    decreases sessions.len(),
{
    if sessions.len() > 0 {
        let front = sessions.drop_last();
        law_a_recovery_finds_the_profiles_session(front, runtime);
        match recovery::fitting(sessions, runtime) {
            Some(at) => {
                if recovery::fitting(front, runtime) is Some {
                    assert(front[at] == sessions[at]);
                }
            },
            None => {
                assert forall|i: int| #![trigger sessions[i]]
                    0 <= i < sessions.len() && sessions[i].running implies {
                    &&& runtime matches Some(name) ==> sessions[i].name@ != name@
                    &&& runtime is None ==> !sessions[i].default
                } by {
                    if i < front.len() {
                        assert(front[i] == sessions[i]);
                    }
                }
            },
        }
    }
}

/// A recovery goes from its epoch to the discovery, the offer, the confirmation,
/// a second discovery and the run, all in the confirmed epoch.
pub proof fn law_a_recovery_is_confirmed_between_two_discoveries(
    r: Recovery,
    epoch: u64,
    confirmed: u64,
)
    requires
        r.phase == RecoverPhase::Starting,
    ensures
        ({
            let a = recovery::recovered(r, (RecoverFact::Epoch { epoch, current: true }));
            let b = recovery::recovered(
                a.0,
                (RecoverFact::Discovered { listed: Listed::Session, current: true }),
            );
            let c = recovery::recovered(b.0, (RecoverFact::Offered { epoch }));
            let d = recovery::recovered(
                c.0,
                (RecoverFact::Confirm { epoch: confirmed, current: true }),
            );
            let e = recovery::recovered(
                d.0,
                (RecoverFact::Token { taken: true, resynchronizing: true }),
            );
            let f = recovery::recovered(
                e.0,
                (RecoverFact::Discovered { listed: Listed::Session, current: true }),
            );
            &&& a.1 == (RecoverAction::Discover { epoch })
            &&& b.1 == (RecoverAction::Offer { epoch })
            &&& c.1 == RecoverAction::Await
            &&& d.1 == RecoverAction::CheckToken
            &&& e.1 == (RecoverAction::Discover { epoch: confirmed })
            &&& f.1 == (RecoverAction::Run { epoch: confirmed })
            &&& recovery::recovered(f.0, RecoverFact::Ran).1 == RecoverAction::Done
        }),
{
}

/// A confirmation that is not the awaited one stops the recovery, and so does a
/// session that is gone or that another executable lists.
pub proof fn law_a_doubtful_recovery_stops(r: Recovery, taken: bool, resynchronizing: bool)
    ensures
        r.phase == RecoverPhase::Checking && !(taken && resynchronizing) ==> recovery::recovered(
            r,
            (RecoverFact::Token { taken, resynchronizing }),
        ).1 == RecoverAction::Stop(StopReason::Outdated, FlowFailure::HerdrProtocol),
        r.phase == RecoverPhase::Discovering || r.phase == RecoverPhase::Confirming ==> {
            &&& recovery::recovered(
                r,
                (RecoverFact::Discovered { listed: Listed::Missing, current: true }),
            ).1 == RecoverAction::Stop(
                StopReason::SessionMissing,
                FlowFailure::HerdrSessionMissing,
            )
            &&& recovery::recovered(
                r,
                (RecoverFact::Discovered { listed: Listed::OtherExecutable, current: true }),
            ).1 == RecoverAction::Stop(StopReason::Incompatible, FlowFailure::HerdrIncompatible)
        },
        recovery::recovered(r, RecoverFact::Cancelled).1 == RecoverAction::Fail(FlowFailure::Stale),
{
}

/// A revision differs from the one before it, and none is zero.
pub proof fn law_revisions_move_on(revision: u64)
    ensures
        recovery::next_revision(revision) != revision,
        recovery::next_revision(revision) != 0,
{
}

proof fn lemma_decimal_differs(a: nat, b: nat)
    requires
        a != b,
    ensures
        text::decimal(a) != text::decimal(b),
{
    let max = if a < b {
        b
    } else {
        a
    };
    text::law_decimal_reads_back(a, max);
    text::law_decimal_reads_back(b, max);
}

/// Tokens of different serials differ, whatever else is the same.
pub proof fn law_tokens_differ(scope: TokenScope, other: u64, digest: u64)
    requires
        scope.serial != other,
    ensures
        recovery::token_text(scope, digest) != recovery::token_text(
            (TokenScope { serial: other, ..scope }),
            digest,
        ),
{
    let front = "herdr-recovery-"@ + text::decimal(scope.generation as nat) + "-"@ + text::decimal(
        scope.epoch as nat,
    ) + "-"@ + text::decimal(scope.revision as nat) + "-"@ + text::hex_digits(digest as nat, 16)
        + "-"@;
    let a = text::decimal(scope.serial as nat);
    let b = text::decimal(other as nat);
    lemma_decimal_differs(scope.serial as nat, other as nat);
    let x = front + a;
    let y = front + b;
    if x == y {
        assert(x.skip(front.len() as int) =~= a);
        assert(y.skip(front.len() as int) =~= b);
    }
}

/// The command that controls a terminal names it and tells its size, columns
/// before rows.
pub proof fn law_a_controlled_terminal_has_its_size(terminal: Seq<char>, columns: u16, rows: u16)
    ensures
        ({
            let words = terminal::control_words(terminal, columns, rows);
            &&& words.len() == 8
            &&& words.take(3) == seq!["terminal"@, "session"@, "control"@]
            &&& words[3] == terminal
            &&& words[4] == "--cols"@ && words[5] == text::decimal(columns as nat)
            &&& words[6] == "--rows"@ && words[7] == text::decimal(rows as nat)
        }),
{
    assert(terminal::control_words(terminal, columns, rows).take(3) =~= seq![
        "terminal"@,
        "session"@,
        "control"@,
    ]);
}

} // verus!
