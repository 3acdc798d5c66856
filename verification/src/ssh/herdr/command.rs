//! Running a request in the Herdr controller.

use vstd::prelude::*;

use crate::ssh::command;
use crate::ssh::command::ControlCommand;
use crate::ssh::flow::FlowFailure;

verus! {

/// What becomes of a request that was taken from the queue.
#[derive(Clone, Copy, Debug, PartialEq, Eq, Structural)]
pub enum HerdrAdmission {
    Drop,
    /// Run it; `bound` ties its remote work to the request's epoch.
    Run { bound: bool },
}

/// Showing the terminal is let through while a recovery waits for it.
pub open spec fn may_wake(command: ControlCommand, ready: bool, strict: bool) -> bool {
    command::shows(command) && (strict || !ready)
}

/// Decides on a request.  `strict` says that a recovery still waits for its
/// terminal's first frame.
pub fn herdr_admission(
    command: &ControlCommand,
    epoch_current: bool,
    ready: bool,
    strict: bool,
) -> (r: HerdrAdmission)
    ensures
        r == (if !epoch_current || (!command::hides(*command) && !may_wake(*command, ready, strict)
            && !ready) {
            HerdrAdmission::Drop
        } else {
            HerdrAdmission::Run { bound: !command::hides(*command) && !may_wake(*command, ready, strict) }
        }),
{
    let revoke = command.hides_terminal();
    let wake = command.shows_terminal() && (strict || !ready);
    if !epoch_current || (!revoke && !wake && !ready) {
        HerdrAdmission::Drop
    } else {
        HerdrAdmission::Run { bound: !revoke && !wake }
    }
}

/// What a request comes to.
#[derive(Clone, Copy, Debug, PartialEq, Eq, Structural)]
pub enum HerdrProgram {
    Hide,
    Show,
    SelectPane { window: u64, pane: u64 },
    SelectGroup { group: u64 },
    Refresh,
    Promote,
    /// The request belongs to another phase of the lifecycle.
    Ignore,
    /// Change the runtime through the API.  What may close more than it names
    /// reads the membership again first.
    Change { reread: bool },
}

pub open spec fn herdr_program(command: ControlCommand) -> HerdrProgram {
    match command {
        ControlCommand::SetTerminalVisible { visible } => if visible {
            HerdrProgram::Show
        } else {
            HerdrProgram::Hide
        },
        ControlCommand::SelectPane { window_id, pane_id } => HerdrProgram::SelectPane {
            window: window_id,
            pane: pane_id,
        },
        ControlCommand::SelectGroup { group_id } => HerdrProgram::SelectGroup { group: group_id },
        ControlCommand::RefreshTerminal => HerdrProgram::Refresh,
        ControlCommand::PromoteRuntimeBrowse { .. } => HerdrProgram::Promote,
        ControlCommand::RefreshRuntimes => HerdrProgram::Ignore,
        ControlCommand::SelectRuntime { .. } => HerdrProgram::Ignore,
        ControlCommand::CreateRuntime { .. } => HerdrProgram::Ignore,
        ControlCommand::RetryRecovery => HerdrProgram::Ignore,
        ControlCommand::ConfirmRecovery { .. } => HerdrProgram::Ignore,
        ControlCommand::SftpUpload { .. } => HerdrProgram::Ignore,
        ControlCommand::SftpRemove { .. } => HerdrProgram::Ignore,
        ControlCommand::CloseGroup { .. } => HerdrProgram::Change { reread: true },
        ControlCommand::ClosePane { .. } => HerdrProgram::Change { reread: true },
        _ => HerdrProgram::Change { reread: false },
    }
}

/// Reads a request.
pub fn plan_herdr_command(command: &ControlCommand) -> (r: HerdrProgram)
    ensures
        r == herdr_program(*command),
{
    match command {
        ControlCommand::SetTerminalVisible { visible } => if *visible {
            HerdrProgram::Show
        } else {
            HerdrProgram::Hide
        },
        ControlCommand::SelectPane { window_id, pane_id } => HerdrProgram::SelectPane {
            window: *window_id,
            pane: *pane_id,
        },
        ControlCommand::SelectGroup { group_id } => HerdrProgram::SelectGroup { group: *group_id },
        ControlCommand::RefreshTerminal => HerdrProgram::Refresh,
        ControlCommand::PromoteRuntimeBrowse { .. } => HerdrProgram::Promote,
        ControlCommand::RefreshRuntimes
        | ControlCommand::SelectRuntime { .. }
        | ControlCommand::CreateRuntime { .. }
        | ControlCommand::RetryRecovery
        | ControlCommand::ConfirmRecovery { .. }
        | ControlCommand::SftpUpload { .. }
        | ControlCommand::SftpRemove { .. } => HerdrProgram::Ignore,
        ControlCommand::CloseGroup { .. } | ControlCommand::ClosePane { .. } => {
            HerdrProgram::Change { reread: true }
        },
        _ => HerdrProgram::Change { reread: false },
    }
}

/// What a running request waits for.
#[derive(Clone, Copy, Debug, PartialEq, Eq, Structural)]
pub enum HerdrPhase {
    /// The reading of the membership before a change.
    Rereading,
    /// The request for a change.
    Building,
    /// The release of the terminal before a change.
    Freeing,
    /// The answer to a change.
    Requesting,
    /// The reading after a change, or of a refresh.
    Reading,
    /// The selection of what a change made.
    Choosing,
    /// The committed selection of a pane or a group.
    Committing,
    /// The release of the terminal, of anything but a change.
    Releasing,
    Promoting,
    Activating,
    Ended,
}

/// What to do next.
#[derive(Clone, Copy, Debug, PartialEq, Eq, Structural)]
pub enum HerdrAction {
    Release,
    Synchronize,
    BuildRequest,
    SendRequest,
    SelectCreated,
    CommitPane { window: u64, pane: u64 },
    CommitGroup { group: u64 },
    Promote,
    /// Attach the selected pane, or this very one.
    Activate(Option<u64>),
    Done,
    Fail(FlowFailure),
}

/// What came back.
#[derive(Clone, Copy, Debug, PartialEq, Eq, Structural)]
pub enum HerdrFact {
    Succeeded,
    /// The request is built; the terminal is released first, or not.
    Built { release: bool },
    Failed(FlowFailure),
}

/// A request under way.
#[derive(Clone, Copy, Debug, PartialEq, Eq, Structural)]
pub struct HerdrFlow {
    pub program: HerdrProgram,
    pub phase: HerdrPhase,
}

pub open spec fn herdr_begun(program: HerdrProgram) -> (HerdrFlow, HerdrAction) {
    let to = |phase: HerdrPhase, action: HerdrAction| (HerdrFlow { program, phase }, action);
    match program {
        HerdrProgram::Hide => to(HerdrPhase::Releasing, HerdrAction::Release),
        HerdrProgram::Show => to(HerdrPhase::Activating, HerdrAction::Activate(None)),
        HerdrProgram::SelectPane { window, pane } => to(
            HerdrPhase::Committing,
            HerdrAction::CommitPane { window, pane },
        ),
        HerdrProgram::SelectGroup { group } => to(
            HerdrPhase::Committing,
            HerdrAction::CommitGroup { group },
        ),
        HerdrProgram::Refresh => to(HerdrPhase::Releasing, HerdrAction::Release),
        HerdrProgram::Promote => to(HerdrPhase::Promoting, HerdrAction::Promote),
        HerdrProgram::Ignore => to(HerdrPhase::Ended, HerdrAction::Done),
        HerdrProgram::Change { reread } => if reread {
            to(HerdrPhase::Rereading, HerdrAction::Synchronize)
        } else {
            to(HerdrPhase::Building, HerdrAction::BuildRequest)
        },
    }
}

/// The decision on what came back.
pub open spec fn herdr_advanced(f: HerdrFlow, fact: HerdrFact) -> (HerdrFlow, HerdrAction) {
    let to = |phase: HerdrPhase, action: HerdrAction|
        (HerdrFlow { program: f.program, phase }, action);
    match (f.phase, fact) {
        (_, HerdrFact::Failed(e)) => to(HerdrPhase::Ended, HerdrAction::Fail(e)),
        (HerdrPhase::Rereading, HerdrFact::Succeeded) => to(
            HerdrPhase::Building,
            HerdrAction::BuildRequest,
        ),
        (HerdrPhase::Building, HerdrFact::Built { release }) => if release {
            to(HerdrPhase::Freeing, HerdrAction::Release)
        } else {
            to(HerdrPhase::Requesting, HerdrAction::SendRequest)
        },
        (HerdrPhase::Freeing, HerdrFact::Succeeded) => to(
            HerdrPhase::Requesting,
            HerdrAction::SendRequest,
        ),
        (HerdrPhase::Requesting, HerdrFact::Succeeded) => to(
            HerdrPhase::Reading,
            HerdrAction::Synchronize,
        ),
        (HerdrPhase::Reading, HerdrFact::Succeeded) => if f.program is Change {
            to(HerdrPhase::Choosing, HerdrAction::SelectCreated)
        } else {
            to(HerdrPhase::Activating, HerdrAction::Activate(None))
        },
        (HerdrPhase::Choosing, HerdrFact::Succeeded) => to(
            HerdrPhase::Activating,
            HerdrAction::Activate(None),
        ),
        (HerdrPhase::Committing, HerdrFact::Succeeded) => if f.program is SelectPane {
            to(HerdrPhase::Releasing, HerdrAction::Release)
        } else {
            to(HerdrPhase::Activating, HerdrAction::Activate(None))
        },
        (HerdrPhase::Releasing, HerdrFact::Succeeded) => match f.program {
            HerdrProgram::SelectPane { pane, .. } => to(
                HerdrPhase::Activating,
                HerdrAction::Activate(Some(pane)),
            ),
            HerdrProgram::Refresh => to(HerdrPhase::Reading, HerdrAction::Synchronize),
            _ => to(HerdrPhase::Ended, HerdrAction::Done),
        },
        (HerdrPhase::Promoting, HerdrFact::Succeeded) => to(HerdrPhase::Ended, HerdrAction::Done),
        (HerdrPhase::Activating, HerdrFact::Succeeded) => to(HerdrPhase::Ended, HerdrAction::Done),
        _ => to(HerdrPhase::Ended, HerdrAction::Fail(FlowFailure::HerdrProtocol)),
    }
}

fn herdr_to(program: HerdrProgram, phase: HerdrPhase, action: HerdrAction) -> (r: (
    HerdrFlow,
    HerdrAction,
))
    ensures
        r == (HerdrFlow { program, phase }, action),
{
    (HerdrFlow { program, phase }, action)
}

impl HerdrFlow {
    pub fn begin(program: HerdrProgram) -> (r: (Self, HerdrAction))
        ensures
            r == herdr_begun(program),
    {
        match program {
            HerdrProgram::Hide | HerdrProgram::Refresh => herdr_to(
                program,
                HerdrPhase::Releasing,
                HerdrAction::Release,
            ),
            HerdrProgram::Show => herdr_to(
                program,
                HerdrPhase::Activating,
                HerdrAction::Activate(None),
            ),
            HerdrProgram::SelectPane { window, pane } => herdr_to(
                program,
                HerdrPhase::Committing,
                HerdrAction::CommitPane { window, pane },
            ),
            HerdrProgram::SelectGroup { group } => herdr_to(
                program,
                HerdrPhase::Committing,
                HerdrAction::CommitGroup { group },
            ),
            HerdrProgram::Promote => herdr_to(
                program,
                HerdrPhase::Promoting,
                HerdrAction::Promote,
            ),
            HerdrProgram::Ignore => herdr_to(program, HerdrPhase::Ended, HerdrAction::Done),
            HerdrProgram::Change { reread } => if reread {
                herdr_to(program, HerdrPhase::Rereading, HerdrAction::Synchronize)
            } else {
                herdr_to(program, HerdrPhase::Building, HerdrAction::BuildRequest)
            },
        }
    }

    pub fn advance(self, fact: HerdrFact) -> (r: (Self, HerdrAction))
        ensures
            r == herdr_advanced(self, fact),
    {
        let p = self.program;
        match (self.phase, fact) {
            (_, HerdrFact::Failed(e)) => herdr_to(p, HerdrPhase::Ended, HerdrAction::Fail(e)),
            (HerdrPhase::Rereading, HerdrFact::Succeeded) => herdr_to(
                p,
                HerdrPhase::Building,
                HerdrAction::BuildRequest,
            ),
            (HerdrPhase::Building, HerdrFact::Built { release }) => if release {
                herdr_to(p, HerdrPhase::Freeing, HerdrAction::Release)
            } else {
                herdr_to(p, HerdrPhase::Requesting, HerdrAction::SendRequest)
            },
            (HerdrPhase::Freeing, HerdrFact::Succeeded) => herdr_to(
                p,
                HerdrPhase::Requesting,
                HerdrAction::SendRequest,
            ),
            (HerdrPhase::Requesting, HerdrFact::Succeeded) => herdr_to(
                p,
                HerdrPhase::Reading,
                HerdrAction::Synchronize,
            ),
            (HerdrPhase::Reading, HerdrFact::Succeeded) => match p {
                HerdrProgram::Change { .. } => herdr_to(
                    p,
                    HerdrPhase::Choosing,
                    HerdrAction::SelectCreated,
                ),
                _ => herdr_to(p, HerdrPhase::Activating, HerdrAction::Activate(None)),
            },
            (HerdrPhase::Choosing, HerdrFact::Succeeded) => herdr_to(
                p,
                HerdrPhase::Activating,
                HerdrAction::Activate(None),
            ),
            (HerdrPhase::Committing, HerdrFact::Succeeded) => match p {
                HerdrProgram::SelectPane { .. } => herdr_to(
                    p,
                    HerdrPhase::Releasing,
                    HerdrAction::Release,
                ),
                _ => herdr_to(p, HerdrPhase::Activating, HerdrAction::Activate(None)),
            },
            (HerdrPhase::Releasing, HerdrFact::Succeeded) => match p {
                HerdrProgram::SelectPane { pane, .. } => herdr_to(
                    p,
                    HerdrPhase::Activating,
                    HerdrAction::Activate(Some(pane)),
                ),
                HerdrProgram::Refresh => herdr_to(
                    p,
                    HerdrPhase::Reading,
                    HerdrAction::Synchronize,
                ),
                _ => herdr_to(p, HerdrPhase::Ended, HerdrAction::Done),
            },
            (HerdrPhase::Promoting, HerdrFact::Succeeded)
            | (HerdrPhase::Activating, HerdrFact::Succeeded) => herdr_to(
                p,
                HerdrPhase::Ended,
                HerdrAction::Done,
            ),
            _ => herdr_to(
                p,
                HerdrPhase::Ended,
                HerdrAction::Fail(FlowFailure::HerdrProtocol),
            ),
        }
    }
}

/// Closing a tab or a pane reads the membership of its worktree group again
/// before the request is even built.
pub proof fn law_closing_rereads_first(command: ControlCommand)
    requires
        command is CloseGroup || command is ClosePane,
    ensures
        herdr_begun(herdr_program(command)).1 == HerdrAction::Synchronize,
        herdr_advanced(herdr_begun(herdr_program(command)).0, HerdrFact::Succeeded).1
            == HerdrAction::BuildRequest,
{
}

/// Hiding the terminal releases it and does nothing else.
pub proof fn law_hiding_only_releases(command: ControlCommand)
    requires
        command::hides(command),
    ensures
        herdr_begun(herdr_program(command)).1 == HerdrAction::Release,
        herdr_advanced(herdr_begun(herdr_program(command)).0, HerdrFact::Succeeded).1
            == HerdrAction::Done,
{
}

pub open spec fn herdr_left(f: HerdrFlow) -> nat {
    match f.phase {
        HerdrPhase::Rereading => 8,
        HerdrPhase::Building => 7,
        HerdrPhase::Freeing => 6,
        HerdrPhase::Requesting => 5,
        HerdrPhase::Committing => 5,
        HerdrPhase::Releasing => 4,
        HerdrPhase::Reading => 3,
        HerdrPhase::Choosing => 2,
        HerdrPhase::Promoting => 1,
        HerdrPhase::Activating => 1,
        HerdrPhase::Ended => 0,
    }
}

/// Every request ends, whatever comes back.
pub proof fn law_herdr_requests_end(f: HerdrFlow, fact: HerdrFact)
    requires
        f.phase != HerdrPhase::Ended,
    ensures
        herdr_left(herdr_advanced(f, fact).0) < herdr_left(f),
{
}

} // verus!
