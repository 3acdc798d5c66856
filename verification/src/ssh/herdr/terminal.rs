//! The one direct terminal: attaching it, its frames, and giving it back.

use std::collections::HashMap;
use vstd::prelude::*;

use crate::text;
use crate::ssh::commit;
use crate::bytes;
use crate::bytes::contains_bytes;
use crate::ssh::commit::CommitGate;
use crate::ssh::flow::FlowFailure;
use crate::ssh::herdr::metadata::{handle_text, RemotePane};
use crate::ssh::herdr::project::SnapshotProjection;
use crate::ssh::herdr::settle;
use crate::ssh::herdr::settle::apply_projection_state;
use crate::ssh::state::SessionState;
use crate::tmux::snapshot;
use crate::tmux::snapshot::SessionSnapshotView;

verus! {

broadcast use vstd::std_specs::hash::group_hash_axioms;

/// What is to be attached.
#[derive(Debug, PartialEq, Eq)]
pub struct ActivationTarget {
    pub selected: Option<u64>,
    /// The stable terminal of the selected pane, where it is known.
    pub terminal: Option<String>,
    /// The native terminal of the selected pane, where it has one.
    pub native: Option<u64>,
    pub visible: bool,
}

pub open spec fn terminal_of(panes: Map<u64, RemotePane>, selected: Option<u64>) -> Option<String> {
    if selected is Some && panes.contains_key(selected->0) {
        Some(panes[selected->0].terminal_id)
    } else {
        None
    }
}

pub open spec fn native_of(natives: Map<u64, u64>, selected: Option<u64>) -> Option<u64> {
    if selected is Some && natives.contains_key(selected->0) {
        Some(natives[selected->0])
    } else {
        None
    }
}

fn find_terminal_id(panes: &HashMap<u64, RemotePane>, selected: Option<u64>) -> (r: Option<String>)
    ensures
        r == terminal_of(panes@, selected),
{
    match selected {
        Some(pane) => match panes.get(&pane) {
            Some(remote) => Some(remote.terminal_id.clone()),
            None => None,
        },
        None => None,
    }
}

fn find_native(natives: &HashMap<u64, u64>, selected: Option<u64>) -> (r: Option<u64>)
    ensures
        r == native_of(natives@, selected),
{
    match selected {
        Some(pane) => match natives.get(&pane) {
            Some(native) => Some(*native),
            None => None,
        },
        None => None,
    }
}

/// Decides what to attach: the very pane that was asked for, else the
/// selection of a staged recovery, else the selection that is shown.
pub fn activation_target(
    state: &SessionState,
    staged: Option<&SnapshotProjection>,
    requested: Option<u64>,
) -> (r: Result<ActivationTarget, FlowFailure>)
    ensures
        match requested {
            Some(pane) => if state.selected_pane != requested {
                r == Err::<ActivationTarget, FlowFailure>(FlowFailure::Stale)
            } else if !state.herdr.panes@.contains_key(pane)
                || !state.pane_terminals@.contains_key(pane) {
                r == Err::<ActivationTarget, FlowFailure>(FlowFailure::HerdrOperation)
            } else {
                r == Ok::<ActivationTarget, FlowFailure>(
                    ActivationTarget {
                        selected: requested,
                        terminal: terminal_of(state.herdr.panes@, requested),
                        native: native_of(state.pane_terminals@, requested),
                        visible: state.terminal_visible,
                    },
                )
            },
            None => match staged {
                Some(projection) => r == Ok::<ActivationTarget, FlowFailure>(
                    ActivationTarget {
                        selected: projection.selected,
                        terminal: terminal_of(projection.metadata.panes@, projection.selected),
                        native: native_of(projection.mapping@, projection.selected),
                        visible: state.terminal_visible,
                    },
                ),
                None => {
                    let selected = if state.terminal_visible {
                        state.selected_pane
                    } else {
                        None
                    };
                    r == Ok::<ActivationTarget, FlowFailure>(
                        ActivationTarget {
                            selected,
                            terminal: terminal_of(state.herdr.panes@, selected),
                            native: native_of(state.pane_terminals@, selected),
                            visible: state.terminal_visible,
                        },
                    )
                },
            },
        },
{
    match requested {
        Some(pane) => {
            let own = match state.selected_pane {
                Some(selected) => selected == pane,
                None => false,
            };
            if !own {
                return Err(FlowFailure::Stale);
            }
            let terminal = find_terminal_id(&state.herdr.panes, requested);
            let native = find_native(&state.pane_terminals, requested);
            if terminal.is_none() || native.is_none() {
                return Err(FlowFailure::HerdrOperation);
            }
            Ok(
                ActivationTarget {
                    selected: requested,
                    terminal,
                    native,
                    visible: state.terminal_visible,
                },
            )
        },
        None => match staged {
            Some(projection) => Ok(
                ActivationTarget {
                    selected: projection.selected,
                    terminal: find_terminal_id(&projection.metadata.panes, projection.selected),
                    native: find_native(&projection.mapping, projection.selected),
                    visible: state.terminal_visible,
                },
            ),
            None => {
                let selected = if state.terminal_visible {
                    state.selected_pane
                } else {
                    None
                };
                Ok(
                    ActivationTarget {
                        selected,
                        terminal: find_terminal_id(&state.herdr.panes, selected),
                        native: find_native(&state.pane_terminals, selected),
                        visible: state.terminal_visible,
                    },
                )
            },
        },
    }
}

/// The words of the command that controls a terminal directly.
pub open spec fn control_words(terminal: Seq<char>, columns: u16, rows: u16) -> Seq<Seq<char>> {
    seq![
        "terminal"@,
        "session"@,
        "control"@,
        terminal,
        "--cols"@,
        text::decimal(columns as nat),
        "--rows"@,
        text::decimal(rows as nat),
    ]
}

pub fn control_arguments(terminal: &str, columns: u16, rows: u16) -> (r: Vec<String>)
    ensures
        Seq::new(r@.len(), |i: int| r@[i]@) == control_words(terminal@, columns, rows),
{
    let mut out: Vec<String> = Vec::new();
    out.push(String::from_str("terminal"));
    out.push(String::from_str("session"));
    out.push(String::from_str("control"));
    out.push(String::from_str(terminal));
    out.push(String::from_str("--cols"));
    out.push(handle_text(columns as u64));
    out.push(String::from_str("--rows"));
    out.push(handle_text(rows as u64));
    assert(Seq::new(out@.len(), |i: int| out@[i]@) =~= control_words(terminal@, columns, rows));
    out
}

/// What an activation waits for.
#[derive(Clone, Copy, Debug, PartialEq, Eq, Structural)]
pub enum ActivatePhase {
    /// The release of a terminal that is hidden.
    Hiding,
    /// The release of another terminal.
    Releasing,
    /// The readiness of a session without a terminal.
    Marking,
    Opening,
    Starting,
    Attaching,
    /// The first complete display.
    Showing,
    Ended,
}

/// What to do next.
#[derive(Clone, Copy, Debug, PartialEq, Eq, Structural)]
pub enum ActivateAction {
    Release,
    /// The terminal is attached already: only re-arm it in the foreground.
    Resume,
    MarkReady,
    OpenChannel,
    /// Start the control command, without taking over another client.
    StartControl,
    /// Bind the native terminal; input stays closed.
    Attach,
    AwaitFrame,
    Done,
    Fail(FlowFailure),
}

/// What came back.
#[derive(Clone, Copy, Debug, PartialEq, Eq, Structural)]
pub enum ActivateFact {
    Released { epoch_current: bool, foreground: bool },
    Marked(bool),
    Opened { epoch_current: bool },
    Started { epoch_current: bool },
    Attached,
    Shown,
    Failed(FlowFailure),
}

/// An activation under way.
#[derive(Clone, Copy, Debug, PartialEq, Eq, Structural)]
pub struct Activation {
    pub phase: ActivatePhase,
    /// A pane, its stable terminal and its native terminal are known.
    pub complete: bool,
}

pub open spec fn activation_begun(
    epoch_current: bool,
    target: ActivationTarget,
    controller: Option<u64>,
) -> (Activation, ActivateAction) {
    let complete = target.selected is Some && target.terminal is Some && target.native is Some;
    let to = |phase: ActivatePhase, action: ActivateAction|
        (Activation { phase, complete }, action);
    if !epoch_current {
        to(ActivatePhase::Ended, ActivateAction::Fail(FlowFailure::Stale))
    } else if !target.visible {
        to(ActivatePhase::Hiding, ActivateAction::Release)
    } else if controller is Some && controller == target.selected {
        to(ActivatePhase::Ended, ActivateAction::Resume)
    } else {
        to(ActivatePhase::Releasing, ActivateAction::Release)
    }
}

pub open spec fn activation_advanced(a: Activation, fact: ActivateFact) -> (
    Activation,
    ActivateAction,
) {
    let to = |phase: ActivatePhase, action: ActivateAction|
        (Activation { phase, complete: a.complete }, action);
    let stale = to(ActivatePhase::Ended, ActivateAction::Fail(FlowFailure::Stale));
    match (a.phase, fact) {
        (_, ActivateFact::Failed(e)) => to(ActivatePhase::Ended, ActivateAction::Fail(e)),
        (ActivatePhase::Hiding, ActivateFact::Released { .. }) => to(
            ActivatePhase::Ended,
            ActivateAction::Done,
        ),
        (ActivatePhase::Releasing, ActivateFact::Released { epoch_current, foreground }) => {
            if !epoch_current {
                stale
            } else if !a.complete {
                to(ActivatePhase::Marking, ActivateAction::MarkReady)
            } else if !foreground {
                to(ActivatePhase::Ended, ActivateAction::Done)
            } else {
                to(ActivatePhase::Opening, ActivateAction::OpenChannel)
            }
        },
        (ActivatePhase::Marking, ActivateFact::Marked(marked)) => if marked {
            to(ActivatePhase::Ended, ActivateAction::Done)
        } else {
            stale
        },
        (ActivatePhase::Opening, ActivateFact::Opened { epoch_current }) => if epoch_current {
            to(ActivatePhase::Starting, ActivateAction::StartControl)
        } else {
            stale
        },
        (ActivatePhase::Starting, ActivateFact::Started { epoch_current }) => if epoch_current {
            to(ActivatePhase::Attaching, ActivateAction::Attach)
        } else {
            stale
        },
        (ActivatePhase::Attaching, ActivateFact::Attached) => to(
            ActivatePhase::Showing,
            ActivateAction::AwaitFrame,
        ),
        (ActivatePhase::Showing, ActivateFact::Shown) => to(
            ActivatePhase::Ended,
            ActivateAction::Done,
        ),
        _ => to(ActivatePhase::Ended, ActivateAction::Fail(FlowFailure::HerdrProtocol)),
    }
}

fn activation_to(complete: bool, phase: ActivatePhase, action: ActivateAction) -> (r: (
    Activation,
    ActivateAction,
))
    ensures
        r == (Activation { phase, complete }, action),
{
    (Activation { phase, complete }, action)
}

impl Activation {
    pub fn begin(epoch_current: bool, target: &ActivationTarget, controller: Option<u64>) -> (r: (
        Self,
        ActivateAction,
    ))
        ensures
            r == activation_begun(epoch_current, *target, controller),
    {
        let complete = target.selected.is_some() && target.terminal.is_some()
            && target.native.is_some();
        let attached = match (controller, target.selected) {
            (Some(controller), Some(selected)) => controller == selected,
            _ => false,
        };
        if !epoch_current {
            activation_to(
                complete,
                ActivatePhase::Ended,
                ActivateAction::Fail(FlowFailure::Stale),
            )
        } else if !target.visible {
            activation_to(complete, ActivatePhase::Hiding, ActivateAction::Release)
        } else if attached {
            activation_to(complete, ActivatePhase::Ended, ActivateAction::Resume)
        } else {
            activation_to(complete, ActivatePhase::Releasing, ActivateAction::Release)
        }
    }

    pub fn advance(self, fact: ActivateFact) -> (r: (Self, ActivateAction))
        ensures
            r == activation_advanced(self, fact),
    {
        let c = self.complete;
        let stale = activation_to(
            c,
            ActivatePhase::Ended,
            ActivateAction::Fail(FlowFailure::Stale),
        );
        match (self.phase, fact) {
            (_, ActivateFact::Failed(e)) => activation_to(
                c,
                ActivatePhase::Ended,
                ActivateAction::Fail(e),
            ),
            (ActivatePhase::Hiding, ActivateFact::Released { .. }) => activation_to(
                c,
                ActivatePhase::Ended,
                ActivateAction::Done,
            ),
            (ActivatePhase::Releasing, ActivateFact::Released { epoch_current, foreground }) => {
                if !epoch_current {
                    stale
                } else if !c {
                    activation_to(c, ActivatePhase::Marking, ActivateAction::MarkReady)
                } else if !foreground {
                    activation_to(c, ActivatePhase::Ended, ActivateAction::Done)
                } else {
                    activation_to(c, ActivatePhase::Opening, ActivateAction::OpenChannel)
                }
            },
            (ActivatePhase::Marking, ActivateFact::Marked(marked)) => if marked {
                activation_to(c, ActivatePhase::Ended, ActivateAction::Done)
            } else {
                stale
            },
            (ActivatePhase::Opening, ActivateFact::Opened { epoch_current }) => if epoch_current {
                activation_to(c, ActivatePhase::Starting, ActivateAction::StartControl)
            } else {
                stale
            },
            (ActivatePhase::Starting, ActivateFact::Started { epoch_current }) => {
                if epoch_current {
                    activation_to(c, ActivatePhase::Attaching, ActivateAction::Attach)
                } else {
                    stale
                }
            },
            (ActivatePhase::Attaching, ActivateFact::Attached) => activation_to(
                c,
                ActivatePhase::Showing,
                ActivateAction::AwaitFrame,
            ),
            (ActivatePhase::Showing, ActivateFact::Shown) => activation_to(
                c,
                ActivatePhase::Ended,
                ActivateAction::Done,
            ),
            _ => activation_to(
                c,
                ActivatePhase::Ended,
                ActivateAction::Fail(FlowFailure::HerdrProtocol),
            ),
        }
    }
}

/// A terminal is never opened for a hidden session, and nothing is started
/// once the epoch is over.
pub proof fn law_nothing_opens_out_of_turn(a: Activation, fact: ActivateFact)
    ensures
        activation_advanced(a, fact).1 == ActivateAction::OpenChannel ==> a.phase
            == ActivatePhase::Releasing && a.complete && fact == (ActivateFact::Released {
            epoch_current: true,
            foreground: true,
        }),
        activation_advanced(a, fact).1 == ActivateAction::StartControl ==> fact == (
        ActivateFact::Opened { epoch_current: true }),
        activation_advanced(a, fact).1 == ActivateAction::Attach ==> fact == (
        ActivateFact::Started { epoch_current: true }),
{
}

pub open spec fn activation_left(phase: ActivatePhase) -> nat {
    match phase {
        ActivatePhase::Releasing => 5,
        ActivatePhase::Opening => 4,
        ActivatePhase::Starting => 3,
        ActivatePhase::Attaching => 2,
        ActivatePhase::Hiding => 1,
        ActivatePhase::Marking => 1,
        ActivatePhase::Showing => 1,
        ActivatePhase::Ended => 0,
    }
}

/// Every activation ends, whatever comes back.
pub proof fn law_activations_end(a: Activation, fact: ActivateFact)
    requires
        a.phase != ActivatePhase::Ended,
    ensures
        activation_left(activation_advanced(a, fact).0.phase) < activation_left(a.phase),
{
}

/// How a terminal is given back.
#[derive(Clone, Copy, Debug, PartialEq, Eq, Structural)]
pub enum ReleaseStep {
    /// There is none.
    Nothing,
    /// Its epoch is over: only close the stream.
    CloseOnly,
    /// Ask Herdr to release it, and wait for that.
    Ask,
}

/// Decides how to give the terminal back.  An explicit end releases it even
/// though the epoch is over.
pub fn release_step(attached: bool, epoch_current: bool, explicit_end: bool) -> (r: ReleaseStep)
    ensures
        r == (if !attached {
            ReleaseStep::Nothing
        } else if !epoch_current && !explicit_end {
            ReleaseStep::CloseOnly
        } else {
            ReleaseStep::Ask
        }),
{
    if !attached {
        ReleaseStep::Nothing
    } else if !epoch_current && !explicit_end {
        ReleaseStep::CloseOnly
    } else {
        ReleaseStep::Ask
    }
}

/// Reads the stream while a release is awaited: `Some` once it is over.
pub fn release_reply(arrived: Result<bool, FlowFailure>) -> (r: Option<Result<(), FlowFailure>>)
    ensures
        r == (match arrived {
            Ok(closed) => if closed {
                Some(Ok::<(), FlowFailure>(()))
            } else {
                None
            },
            Err(e) => Some(
                if e == FlowFailure::RemoteClosed {
                    Ok(())
                } else {
                    Err(e)
                },
            ),
        }),
{
    match arrived {
        Ok(closed) => if closed {
            Some(Ok(()))
        } else {
            None
        },
        Err(e) => if e == FlowFailure::RemoteClosed {
            Some(Ok(()))
        } else {
            Some(Err(e))
        },
    }
}

/// The state allows a frame of the controller's pane.
pub open spec fn frame_fits(state: SessionState, pane: u64, strict: bool) -> bool {
    (state.terminal_visible || strict) && state.selected_pane == Some(pane)
}

/// Decides whether a record of the terminal's stream counts.  One of an ended
/// epoch is an error; one of a pane that is hidden or no longer selected is
/// dropped.
pub fn admit_frame(state: &SessionState, gate: CommitGate, pane: u64, strict: bool) -> (r: Result<
    bool,
    FlowFailure,
>)
    ensures
        r == (if !commit::current(*state, gate) {
            Err::<bool, FlowFailure>(FlowFailure::Stale)
        } else {
            Ok(frame_fits(*state, pane, strict))
        }),
{
    if !gate.is_open(state) {
        return Err(FlowFailure::Stale);
    }
    let own = match state.selected_pane {
        Some(selected) => selected == pane,
        None => false,
    };
    Ok((state.terminal_visible || strict) && own)
}

/// What the end of the terminal's stream means.
pub open spec fn closing_failure(reason: Option<&str>) -> FlowFailure {
    if reason is Some && (bytes::occurs_in(text::utf8("taken over"@), text::utf8(reason->0@)) || bytes::occurs_in(
        text::utf8("already has an attached client"@),
        text::utf8(reason->0@),
    )) {
        FlowFailure::HerdrController
    } else {
        FlowFailure::RemoteClosed
    }
}

pub fn closed_failure(reason: Option<&str>) -> (r: FlowFailure)
    ensures
        r == closing_failure(reason),
{
    match reason {
        Some(reason) => if contains_bytes(reason.as_bytes(), "taken over".as_bytes())
            || contains_bytes(reason.as_bytes(), "already has an attached client".as_bytes()) {
            FlowFailure::HerdrController
        } else {
            FlowFailure::RemoteClosed
        },
        None => FlowFailure::RemoteClosed,
    }
}

/// How a frame is shown.
#[derive(Clone, Copy, Debug, PartialEq, Eq, Structural)]
pub enum FrameStep {
    /// Restore the display and commit the staged recovery with it.
    CommitStrict,
    /// Replace the display.
    Restore,
    /// Resize, and feed the difference.
    Feed,
}

/// How far the frames of the controller have come.
#[derive(Clone, Copy, Debug, PartialEq, Eq, Structural)]
pub struct FrameState {
    /// The number of the last frame that was shown.
    pub seq: Option<u64>,
    /// The terminal takes input.
    pub ready: bool,
    /// A recovery waits to be committed with its first frame.
    pub strict: bool,
}

/// Orders a frame: its number must be new, and the first one complete.
pub open spec fn frame_order(frame: FrameState, seq: u64, full: bool, staged: bool) -> Result<
    FrameStep,
    FlowFailure,
> {
    if (frame.seq is Some && seq <= frame.seq->0) || (!full && frame.seq is None) {
        Err(FlowFailure::HerdrProtocol)
    } else if frame.strict && !frame.ready {
        if full && staged {
            Ok(FrameStep::CommitStrict)
        } else {
            Err(FlowFailure::HerdrProtocol)
        }
    } else if full {
        Ok(FrameStep::Restore)
    } else {
        Ok(FrameStep::Feed)
    }
}

/// The frames once this one was shown.  A recovery that was committed is ready
/// and over; another terminal becomes ready where it `marked` itself so.
pub open spec fn frame_after(frame: FrameState, seq: u64, step: FrameStep, marked: bool) -> FrameState {
    FrameState {
        seq: Some(seq),
        ready: frame.ready || marked || step == FrameStep::CommitStrict,
        strict: frame.strict && step != FrameStep::CommitStrict,
    }
}

impl FrameState {
    /// A terminal that was attached and has shown nothing yet.
    pub fn attached(strict: bool) -> (r: Self)
        ensures
            r == (FrameState { seq: None, ready: false, strict }),
    {
        FrameState { seq: None, ready: false, strict }
    }

    /// Decides how a frame is shown.
    pub fn step(self, seq: u64, full: bool, staged: bool) -> (r: Result<FrameStep, FlowFailure>)
        ensures
            r == frame_order(self, seq, full, staged),
    {
        let old = match self.seq {
            Some(last) => seq <= last,
            None => !full,
        };
        if old {
            return Err(FlowFailure::HerdrProtocol);
        }
        if self.strict && !self.ready {
            if full && staged {
                Ok(FrameStep::CommitStrict)
            } else {
                Err(FlowFailure::HerdrProtocol)
            }
        } else if full {
            Ok(FrameStep::Restore)
        } else {
            Ok(FrameStep::Feed)
        }
    }

    /// Records a frame that was shown.
    pub fn after(self, seq: u64, step: FrameStep, marked: bool) -> (r: Self)
        ensures
            r == frame_after(self, seq, step, marked),
    {
        let committed = match step {
            FrameStep::CommitStrict => true,
            _ => false,
        };
        FrameState {
            seq: Some(seq),
            ready: self.ready || marked || committed,
            strict: self.strict && !committed,
        }
    }
}

/// A recovery's first frame may be committed: nothing has moved on, and the
/// pane is selected and visible.
pub open spec fn strict_frame_fits(state: SessionState, gate: CommitGate, pane: u64) -> bool {
    commit::current(state, gate) && state.selected_pane == Some(pane) && state.terminal_visible
}

/// Whether a recovery's first frame may still be committed: the pane must be
/// selected and visible at that moment.
pub fn strict_frame_allowed(state: &SessionState, gate: CommitGate, pane: u64) -> (r: Result<
    (),
    FlowFailure,
>)
    ensures
        r == (if strict_frame_fits(*state, gate, pane) {
            Ok::<(), FlowFailure>(())
        } else {
            Err(FlowFailure::Stale)
        }),
{
    let own = match state.selected_pane {
        Some(selected) => selected == pane,
        None => false,
    };
    if gate.is_open(state) && own && state.terminal_visible {
        Ok(())
    } else {
        Err(FlowFailure::Stale)
    }
}

/// Commits a recovery's staged projection with its first frame, unless the
/// state has moved on or the pane is no longer selected and visible: then
/// nothing changes.  Gives the native terminals to retire.
pub fn commit_strict_frame(
    state: &mut SessionState,
    gate: CommitGate,
    pane: u64,
    projection: SnapshotProjection,
) -> (r: Result<Vec<u64>, FlowFailure>)
    ensures
        !strict_frame_fits(*old(state), gate, pane) ==> r == Err::<Vec<u64>, FlowFailure>(
            FlowFailure::Stale,
        ) && *final(state) == *old(state),
        strict_frame_fits(*old(state), gate, pane) ==> {
            &&& r == Ok::<Vec<u64>, FlowFailure>(projection.stale)
            &&& final(state).herdr == projection.metadata
            &&& final(state).pane_terminals == projection.mapping
            &&& final(state).selected_pane == projection.selected
            &&& final(state).snapshot@ == (SessionSnapshotView {
                windows: snapshot::window_views(projection.windows@),
                panes: snapshot::pane_views(projection.flat@),
                selected_pane: projection.selected,
            })
            &&& settle::other_state(*final(state), *old(state))
        },
{
    match strict_frame_allowed(state, gate, pane) {
        Ok(_) => Ok(apply_projection_state(state, projection)),
        Err(e) => Err(e),
    }
}

/// What follows a frame that was shown.
#[derive(Clone, Copy, Debug, PartialEq, Eq, Structural)]
pub enum ShownStep {
    /// The binding was revoked meanwhile: its command attaches it again.
    LeaveClosed,
    /// The first frame opens the terminal: publish that.
    Publish,
    /// Re-arm the terminal, where the app is in the foreground.
    Resume,
}

/// Decides on what follows a frame.  `marked` says that the native terminal
/// accepted its readiness.
pub fn frame_shown(was_ready: bool, marked: bool) -> (r: ShownStep)
    ensures
        r == (if was_ready {
            ShownStep::Resume
        } else if marked {
            ShownStep::Publish
        } else {
            ShownStep::LeaveClosed
        }),
{
    if was_ready {
        ShownStep::Resume
    } else if marked {
        ShownStep::Publish
    } else {
        ShownStep::LeaveClosed
    }
}

/// No difference precedes the first complete frame, frames are shown in the
/// order of their numbers, and a recovery shows nothing before it is committed
/// together with its frame.
pub proof fn law_the_first_frame_is_complete(frame: FrameState, seq: u64, full: bool, staged: bool)
    ensures
        frame.seq is None && frame_order(frame, seq, full, staged) is Ok ==> full,
        frame.strict && !frame.ready && frame_order(frame, seq, full, staged) is Ok
            ==> frame_order(frame, seq, full, staged) == Ok::<FrameStep, FlowFailure>(
            FrameStep::CommitStrict,
        ),
        frame.seq is Some && seq <= frame.seq->0 ==> frame_order(frame, seq, full, staged) is Err,
{
}

/// While a recovery waits for its first frame, one that is not new, not
/// complete or has no staged projection is refused.  The frame that is shown
/// commits the recovery: the controller then has its number, is ready and no
/// longer strict, and no later frame commits the recovery again.
pub proof fn law_a_recovery_is_committed_with_one_frame(
    frame: FrameState,
    seq: u64,
    full: bool,
    staged: bool,
    marked: bool,
    next_seq: u64,
    next_full: bool,
    next_staged: bool,
)
    requires
        frame.strict,
        !frame.ready,
    ensures
        frame_order(frame, seq, full, staged) == (if full && staged && (frame.seq is None || seq
            > frame.seq->0) {
            Ok::<FrameStep, FlowFailure>(FrameStep::CommitStrict)
        } else {
            Err(FlowFailure::HerdrProtocol)
        }),
        ({
            let shown = frame_after(frame, seq, FrameStep::CommitStrict, marked);
            &&& shown == (FrameState { seq: Some(seq), ready: true, strict: false })
            &&& frame_order(shown, next_seq, next_full, next_staged) != Ok::<FrameStep, FlowFailure>(
                FrameStep::CommitStrict,
            )
        }),
{
}

} // verus!
