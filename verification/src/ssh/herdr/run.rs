//! The life of a Herdr controller, from its executable to its last turn.

use vstd::prelude::*;

use crate::ssh::flow::FlowFailure;
use crate::ssh::state::SessionState;
use crate::workspace::RecoveryPhase;

verus! {

/// The epoch that a controller works in.  A recovery names it; otherwise it is
/// the current one.
pub open spec fn working_epoch(state: SessionState, expected: Option<u64>) -> u64 {
    match expected {
        Some(epoch) => epoch,
        None => state.operation_epoch,
    }
}

pub fn starting_epoch(state: &SessionState, generation: u64, expected: Option<u64>) -> (r: Result<
    u64,
    FlowFailure,
>)
    ensures
        r == (if state.generation == generation && state.operation_epoch == working_epoch(
            *state,
            expected,
        ) {
            Ok::<u64, FlowFailure>(state.operation_epoch)
        } else {
            Err(FlowFailure::Stale)
        }),
{
    let epoch: u64 = match expected {
        Some(epoch) => epoch,
        None => state.operation_epoch,
    };
    if state.generation == generation && state.operation_epoch == epoch {
        Ok(epoch)
    } else {
        Err(FlowFailure::Stale)
    }
}

/// The epoch of the recovery that a controller serves, if it serves one.
pub fn recovery_epoch(state: &SessionState, epoch: u64) -> (r: Option<u64>)
    ensures
        r == (if state.recovery.phase == RecoveryPhase::Inactive {
            None
        } else {
            Some(epoch)
        }),
{
    if state.recovery.phase == RecoveryPhase::Inactive {
        None
    } else {
        Some(epoch)
    }
}

#[derive(Clone, Copy, Debug, PartialEq, Eq, Structural)]
pub enum HerdrRunPhase {
    Resolving,
    Probing,
    Subscribing,
    /// The first topology is being read.
    Reading,
    /// The first terminal is being attached.
    Attaching,
    Marking,
    Waiting,
    /// The topology is read again after an event.
    Rereading,
    /// The terminal is attached again.
    Reattaching,
    /// A frame or a request is being handled.
    Handling,
    Releasing,
    Ended,
}

#[derive(Clone, Copy, Debug, PartialEq, Eq, Structural)]
pub enum HerdrRunAction {
    ResolveExecutable,
    ProbeStatus,
    Subscribe,
    Synchronize,
    Activate,
    MarkReady,
    Wait,
    HandleFrame,
    HandleRequest,
    /// Give the terminal back, and fail afterwards however that went.
    Release,
    Fail(FlowFailure),
}

#[derive(Clone, Copy, Debug, PartialEq, Eq, Structural)]
pub enum HerdrRunFact {
    /// A step of the start ended; the epoch was current after it or not.
    Succeeded { epoch_current: bool },
    /// The terminal was attached, or there was none to attach.
    Activated { attached: bool },
    Failed(FlowFailure),
    /// Something asked to look at the terminal again.
    Woken { foreground: bool },
    Frame,
    /// The terminal's stream ended.
    StreamFailed(FlowFailure),
    /// A record of the subscription came; it may be no event.
    Record { event: bool },
    Request,
    /// Nobody can send requests any more, or the connection is to end.
    Leave(FlowFailure),
}

#[derive(Clone, Copy, Debug, PartialEq, Eq, Structural)]
pub struct HerdrRun {
    pub phase: HerdrRunPhase,
    /// The run recovers a terminal: it is ready with its first frame.
    pub strict: bool,
    pub failure: Option<FlowFailure>,
}

pub open spec fn herdr_at(x: HerdrRun, phase: HerdrRunPhase, action: HerdrRunAction) -> (
    HerdrRun,
    HerdrRunAction,
) {
    (HerdrRun { phase, strict: x.strict, failure: None }, action)
}

pub open spec fn herdr_failed(x: HerdrRun, e: FlowFailure) -> (HerdrRun, HerdrRunAction) {
    (
        HerdrRun { phase: HerdrRunPhase::Ended, strict: x.strict, failure: Some(e) },
        HerdrRunAction::Fail(e),
    )
}

pub open spec fn herdr_released(x: HerdrRun, e: FlowFailure) -> (HerdrRun, HerdrRunAction) {
    (
        HerdrRun { phase: HerdrRunPhase::Releasing, strict: x.strict, failure: Some(e) },
        HerdrRunAction::Release,
    )
}

/// A step of the start ended well.
pub open spec fn herdr_started(x: HerdrRun, epoch_current: bool) -> (HerdrRun, HerdrRunAction) {
    match x.phase {
        HerdrRunPhase::Resolving => if epoch_current {
            herdr_at(x, HerdrRunPhase::Probing, HerdrRunAction::ProbeStatus)
        } else {
            herdr_failed(x, FlowFailure::Stale)
        },
        HerdrRunPhase::Probing => if epoch_current {
            herdr_at(x, HerdrRunPhase::Subscribing, HerdrRunAction::Subscribe)
        } else {
            herdr_failed(x, FlowFailure::Stale)
        },
        HerdrRunPhase::Subscribing => herdr_at(
            x,
            HerdrRunPhase::Reading,
            HerdrRunAction::Synchronize,
        ),
        HerdrRunPhase::Reading => herdr_at(x, HerdrRunPhase::Attaching, HerdrRunAction::Activate),
        HerdrRunPhase::Marking => if epoch_current {
            herdr_at(x, HerdrRunPhase::Waiting, HerdrRunAction::Wait)
        } else {
            herdr_failed(x, FlowFailure::Stale)
        },
        HerdrRunPhase::Rereading => herdr_at(
            x,
            HerdrRunPhase::Reattaching,
            HerdrRunAction::Activate,
        ),
        HerdrRunPhase::Handling => herdr_at(x, HerdrRunPhase::Waiting, HerdrRunAction::Wait),
        _ => herdr_failed(x, FlowFailure::HerdrProtocol),
    }
}

pub open spec fn herdr_advanced(x: HerdrRun, fact: HerdrRunFact) -> (HerdrRun, HerdrRunAction) {
    if x.phase == HerdrRunPhase::Releasing {
        herdr_failed(
            x,
            match x.failure {
                Some(e) => e,
                None => FlowFailure::Stale,
            },
        )
    } else {
        match fact {
            HerdrRunFact::Failed(e) => herdr_failed(x, e),
            HerdrRunFact::Succeeded { epoch_current } => herdr_started(x, epoch_current),
            HerdrRunFact::Activated { attached } => if x.phase == HerdrRunPhase::Attaching {
                if !attached && !x.strict {
                    herdr_at(x, HerdrRunPhase::Marking, HerdrRunAction::MarkReady)
                } else {
                    herdr_at(x, HerdrRunPhase::Waiting, HerdrRunAction::Wait)
                }
            } else if x.phase == HerdrRunPhase::Reattaching {
                herdr_at(x, HerdrRunPhase::Waiting, HerdrRunAction::Wait)
            } else {
                herdr_failed(x, FlowFailure::HerdrProtocol)
            },
            _ => if x.phase != HerdrRunPhase::Waiting {
                herdr_failed(x, FlowFailure::HerdrProtocol)
            } else {
                match fact {
                    HerdrRunFact::Woken { foreground } => if foreground {
                        herdr_at(x, HerdrRunPhase::Reattaching, HerdrRunAction::Activate)
                    } else {
                        herdr_at(x, HerdrRunPhase::Waiting, HerdrRunAction::Wait)
                    },
                    HerdrRunFact::Frame => herdr_at(
                        x,
                        HerdrRunPhase::Handling,
                        HerdrRunAction::HandleFrame,
                    ),
                    HerdrRunFact::Request => herdr_at(
                        x,
                        HerdrRunPhase::Handling,
                        HerdrRunAction::HandleRequest,
                    ),
                    HerdrRunFact::Record { event } => if event {
                        herdr_at(x, HerdrRunPhase::Rereading, HerdrRunAction::Synchronize)
                    } else {
                        herdr_failed(x, FlowFailure::HerdrProtocol)
                    },
                    HerdrRunFact::StreamFailed(e) | HerdrRunFact::Leave(e) => herdr_released(x, e),
                    _ => herdr_failed(x, FlowFailure::HerdrProtocol),
                }
            },
        }
    }
}

impl HerdrRun {
    pub fn begin(strict: bool) -> (r: (Self, HerdrRunAction))
        ensures
            r == (
                HerdrRun { phase: HerdrRunPhase::Resolving, strict, failure: None },
                HerdrRunAction::ResolveExecutable,
            ),
    {
        (
            HerdrRun { phase: HerdrRunPhase::Resolving, strict, failure: None },
            HerdrRunAction::ResolveExecutable,
        )
    }

    fn at(self, phase: HerdrRunPhase, action: HerdrRunAction) -> (r: (Self, HerdrRunAction))
        ensures
            r == herdr_at(self, phase, action),
    {
        (HerdrRun { phase, strict: self.strict, failure: None }, action)
    }

    fn fail(self, e: FlowFailure) -> (r: (Self, HerdrRunAction))
        ensures
            r == herdr_failed(self, e),
    {
        (
            HerdrRun { phase: HerdrRunPhase::Ended, strict: self.strict, failure: Some(e) },
            HerdrRunAction::Fail(e),
        )
    }

    fn release(self, e: FlowFailure) -> (r: (Self, HerdrRunAction))
        ensures
            r == herdr_released(self, e),
    {
        (
            HerdrRun { phase: HerdrRunPhase::Releasing, strict: self.strict, failure: Some(e) },
            HerdrRunAction::Release,
        )
    }

    fn started(self, epoch_current: bool) -> (r: (Self, HerdrRunAction))
        ensures
            r == herdr_started(self, epoch_current),
    {
        match self.phase {
            HerdrRunPhase::Resolving => if epoch_current {
                self.at(HerdrRunPhase::Probing, HerdrRunAction::ProbeStatus)
            } else {
                self.fail(FlowFailure::Stale)
            },
            HerdrRunPhase::Probing => if epoch_current {
                self.at(HerdrRunPhase::Subscribing, HerdrRunAction::Subscribe)
            } else {
                self.fail(FlowFailure::Stale)
            },
            HerdrRunPhase::Subscribing => self.at(
                HerdrRunPhase::Reading,
                HerdrRunAction::Synchronize,
            ),
            HerdrRunPhase::Reading => self.at(HerdrRunPhase::Attaching, HerdrRunAction::Activate),
            HerdrRunPhase::Marking => if epoch_current {
                self.at(HerdrRunPhase::Waiting, HerdrRunAction::Wait)
            } else {
                self.fail(FlowFailure::Stale)
            },
            HerdrRunPhase::Rereading => self.at(
                HerdrRunPhase::Reattaching,
                HerdrRunAction::Activate,
            ),
            HerdrRunPhase::Handling => self.at(HerdrRunPhase::Waiting, HerdrRunAction::Wait),
            _ => self.fail(FlowFailure::HerdrProtocol),
        }
    }

    pub fn advance(self, fact: HerdrRunFact) -> (r: (Self, HerdrRunAction))
        ensures
            r == herdr_advanced(self, fact),
    {
        if self.phase == HerdrRunPhase::Releasing {
            let first = match self.failure {
                Some(e) => e,
                None => FlowFailure::Stale,
            };
            return self.fail(first);
        }
        let waiting = self.phase == HerdrRunPhase::Waiting;
        match fact {
            HerdrRunFact::Failed(e) => self.fail(e),
            HerdrRunFact::Succeeded { epoch_current } => self.started(epoch_current),
            HerdrRunFact::Activated { attached } => match self.phase {
                HerdrRunPhase::Attaching => if !attached && !self.strict {
                    self.at(HerdrRunPhase::Marking, HerdrRunAction::MarkReady)
                } else {
                    self.at(HerdrRunPhase::Waiting, HerdrRunAction::Wait)
                },
                HerdrRunPhase::Reattaching => self.at(
                    HerdrRunPhase::Waiting,
                    HerdrRunAction::Wait,
                ),
                _ => self.fail(FlowFailure::HerdrProtocol),
            },
            _ if !waiting => self.fail(FlowFailure::HerdrProtocol),
            HerdrRunFact::Woken { foreground } => if foreground {
                self.at(HerdrRunPhase::Reattaching, HerdrRunAction::Activate)
            } else {
                self.at(HerdrRunPhase::Waiting, HerdrRunAction::Wait)
            },
            HerdrRunFact::Frame => self.at(HerdrRunPhase::Handling, HerdrRunAction::HandleFrame),
            HerdrRunFact::Request => self.at(
                HerdrRunPhase::Handling,
                HerdrRunAction::HandleRequest,
            ),
            HerdrRunFact::Record { event } => if event {
                self.at(HerdrRunPhase::Rereading, HerdrRunAction::Synchronize)
            } else {
                self.fail(FlowFailure::HerdrProtocol)
            },
            HerdrRunFact::StreamFailed(e) => self.release(e),
            HerdrRunFact::Leave(e) => self.release(e),
        }
    }
}

/// A controller that is to leave gives its terminal back first, and fails for
/// the reason that it left for.
pub proof fn law_leaving_releases_first(x: HerdrRun, e: FlowFailure, released: HerdrRunFact)
    requires
        x.phase == HerdrRunPhase::Waiting,
    ensures
        herdr_advanced(x, HerdrRunFact::Leave(e)).1 == HerdrRunAction::Release,
        herdr_advanced(herdr_advanced(x, HerdrRunFact::Leave(e)).0, released).1
            == HerdrRunAction::Fail(e),
{
}

/// A recovery becomes ready by its terminal's first frame alone: it is never
/// marked ready for having no terminal.
pub proof fn law_a_recovery_is_not_marked_ready(x: HerdrRun, fact: HerdrRunFact)
    requires
        x.strict,
    ensures
        herdr_advanced(x, fact).1 != HerdrRunAction::MarkReady,
        herdr_advanced(x, fact).0.strict,
{
}

/// Every event reads the topology again, and attaches the terminal after that.
pub proof fn law_an_event_is_followed_by_a_read(x: HerdrRun, current: bool)
    requires
        x.phase == HerdrRunPhase::Waiting,
    ensures
        ({
            let reading = herdr_advanced(x, HerdrRunFact::Record { event: true });
            &&& reading.1 == HerdrRunAction::Synchronize
            &&& herdr_advanced(reading.0, HerdrRunFact::Succeeded { epoch_current: current }).1
                == HerdrRunAction::Activate
        }),
{
}

} // verus!
