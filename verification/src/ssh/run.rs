//! The life of a tmux controller, from its runtime to its final cleanup.

use vstd::prelude::*;

use crate::ssh::controller::Startup;
use crate::ssh::flow::FlowFailure;

verus! {

/// What a controller's life waits for.
#[derive(Clone, Copy, Debug, PartialEq, Eq, Structural)]
pub enum RunPhase {
    /// The selected runtime is being verified, or a name resolved.
    Preparing,
    Opening,
    Executing,
    /// The remote host has not accepted the command yet.
    Accepting,
    /// tmux has not answered with its first block yet.
    Attaching,
    /// The attached session is being compared with the selected one.
    Proving,
    /// A zoom that an earlier controller left is being taken over.
    Inheriting,
    /// The first topology is being read.
    Reading,
    Turning,
    Cleaning,
    Ended,
}

#[derive(Clone, Copy, Debug, PartialEq, Eq, Structural)]
pub enum RunAction {
    Prepare(Startup),
    OpenChannel,
    Execute,
    AwaitAcceptance,
    AwaitAttach,
    VerifyAttached,
    InheritZoom,
    Synchronize,
    /// Take one turn of the controller's loop.
    Turn,
    /// Restore what this controller changed, and record how that ended.
    CleanUp,
    Fail(FlowFailure),
}

/// How an action ended.
#[derive(Clone, Copy, Debug, PartialEq, Eq, Structural)]
pub enum RunFact {
    Succeeded,
    Failed(FlowFailure),
}

#[derive(Clone, Copy, Debug, PartialEq, Eq, Structural)]
pub struct RunFlow {
    pub phase: RunPhase,
    /// Why the life ends, once it does.
    pub failure: Option<FlowFailure>,
}

pub open spec fn run_at(phase: RunPhase, action: RunAction) -> (RunFlow, RunAction) {
    (RunFlow { phase, failure: None }, action)
}

/// A controller has a channel, so that its end must be cleaned up.
pub open spec fn has_channel(phase: RunPhase) -> bool {
    match phase {
        RunPhase::Preparing | RunPhase::Opening | RunPhase::Ended => false,
        _ => true,
    }
}

pub open spec fn run_ended(f: RunFlow, failure: FlowFailure) -> (RunFlow, RunAction) {
    if f.phase == RunPhase::Cleaning {
        (
            RunFlow { phase: RunPhase::Ended, failure: f.failure },
            RunAction::Fail(
                match f.failure {
                    Some(e) => e,
                    None => failure,
                },
            ),
        )
    } else if has_channel(f.phase) {
        (RunFlow { phase: RunPhase::Cleaning, failure: Some(failure) }, RunAction::CleanUp)
    } else {
        (RunFlow { phase: RunPhase::Ended, failure: Some(failure) }, RunAction::Fail(failure))
    }
}

pub open spec fn run_advanced(f: RunFlow, fact: RunFact) -> (RunFlow, RunAction) {
    match fact {
        RunFact::Failed(e) => run_ended(f, e),
        RunFact::Succeeded => match f.phase {
            RunPhase::Preparing => run_at(RunPhase::Opening, RunAction::OpenChannel),
            RunPhase::Opening => run_at(RunPhase::Executing, RunAction::Execute),
            RunPhase::Executing => run_at(RunPhase::Accepting, RunAction::AwaitAcceptance),
            RunPhase::Accepting => run_at(RunPhase::Attaching, RunAction::AwaitAttach),
            RunPhase::Attaching => run_at(RunPhase::Proving, RunAction::VerifyAttached),
            RunPhase::Proving => run_at(RunPhase::Inheriting, RunAction::InheritZoom),
            RunPhase::Inheriting => run_at(RunPhase::Reading, RunAction::Synchronize),
            RunPhase::Reading | RunPhase::Turning => run_at(RunPhase::Turning, RunAction::Turn),
            RunPhase::Cleaning | RunPhase::Ended => run_ended(f, FlowFailure::Stale),
        },
    }
}

impl RunFlow {
    pub fn begin(startup: Startup) -> (r: (Self, RunAction))
        ensures
            r == run_at(RunPhase::Preparing, RunAction::Prepare(startup)),
    {
        (
            RunFlow { phase: RunPhase::Preparing, failure: None },
            RunAction::Prepare(startup),
        )
    }

    fn end(self, failure: FlowFailure) -> (r: (Self, RunAction))
        ensures
            r == run_ended(self, failure),
    {
        match self.phase {
            RunPhase::Cleaning => {
                let first = match self.failure {
                    Some(e) => e,
                    None => failure,
                };
                (
                    RunFlow { phase: RunPhase::Ended, failure: self.failure },
                    RunAction::Fail(first),
                )
            },
            RunPhase::Preparing | RunPhase::Opening | RunPhase::Ended => (
                RunFlow { phase: RunPhase::Ended, failure: Some(failure) },
                RunAction::Fail(failure),
            ),
            _ => (
                RunFlow { phase: RunPhase::Cleaning, failure: Some(failure) },
                RunAction::CleanUp,
            ),
        }
    }

    pub fn advance(self, fact: RunFact) -> (r: (Self, RunAction))
        ensures
            r == run_advanced(self, fact),
    {
        let (phase, action) = match fact {
            RunFact::Failed(e) => {
                return self.end(e);
            },
            RunFact::Succeeded => match self.phase {
                RunPhase::Preparing => (RunPhase::Opening, RunAction::OpenChannel),
                RunPhase::Opening => (RunPhase::Executing, RunAction::Execute),
                RunPhase::Executing => (RunPhase::Accepting, RunAction::AwaitAcceptance),
                RunPhase::Accepting => (RunPhase::Attaching, RunAction::AwaitAttach),
                RunPhase::Attaching => (RunPhase::Proving, RunAction::VerifyAttached),
                RunPhase::Proving => (RunPhase::Inheriting, RunAction::InheritZoom),
                RunPhase::Inheriting => (RunPhase::Reading, RunAction::Synchronize),
                RunPhase::Reading | RunPhase::Turning => (RunPhase::Turning, RunAction::Turn),
                RunPhase::Cleaning | RunPhase::Ended => {
                    return self.end(FlowFailure::Stale);
                },
            },
        };
        (RunFlow { phase, failure: None }, action)
    }
}

/// The topology is read, and turns are taken, only after the attached session
/// was proved to be the selected one and an earlier zoom was settled.
pub proof fn law_the_session_is_proved_first(f: RunFlow, fact: RunFact)
    ensures
        run_advanced(f, fact).1 == RunAction::Synchronize ==> f.phase == RunPhase::Inheriting
            && fact == RunFact::Succeeded,
        run_advanced(f, fact).1 == RunAction::InheritZoom ==> f.phase == RunPhase::Proving
            && fact == RunFact::Succeeded,
        run_advanced(f, fact).1 == RunAction::Turn ==> (f.phase == RunPhase::Reading || f.phase
            == RunPhase::Turning) && fact == RunFact::Succeeded,
{
}

/// Once there is a channel, a controller cleans up before it fails, and it
/// fails for the reason that ended it, however the cleanup went.
pub proof fn law_an_end_is_cleaned_up(f: RunFlow, e: FlowFailure, cleaned: RunFact)
    requires
        has_channel(f.phase),
        f.phase != RunPhase::Cleaning,
    ensures
        run_advanced(f, RunFact::Failed(e)).1 == RunAction::CleanUp,
        run_advanced(run_advanced(f, RunFact::Failed(e)).0, cleaned).1 == RunAction::Fail(e),
{
}

} // verus!
