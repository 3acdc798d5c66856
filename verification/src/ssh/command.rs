//! The requests that a controller takes, and when it takes them.

use vstd::prelude::*;

verus! {

/// A request of the control plane.
pub enum ControlCommand {
    SelectPane { window_id: u64, pane_id: u64 },
    CreateWorkspace { name: String },
    RenameWorkspace { window_id: u64, name: String },
    CloseWorkspace { window_id: u64 },
    CreatePane { window_id: u64 },
    RenamePane { pane_id: u64, name: String },
    ClosePane { pane_id: u64 },
    CreateGroup { window_id: u64, name: String },
    RenameGroup { group_id: u64, name: String },
    CloseGroup { group_id: u64 },
    SelectGroup { group_id: u64 },
    RefreshTerminal,
    SftpUpload { attachment_id: u64 },
    SftpRemove { attachment_id: u64 },
    SetTerminalVisible { visible: bool },
    RefreshRuntimes,
    SelectRuntime { candidate_id: String },
    CreateRuntime { name: String },
    PromoteRuntimeBrowse { token: u64, source_owner: u64, provisional_owner: u64 },
    RetryRecovery,
    ConfirmRecovery { token: String },
}

/// What becomes of a request that was taken from the queue.
#[derive(Clone, Copy, Debug, PartialEq, Eq, Structural)]
pub enum Admission {
    Run,
    /// The request was made in an earlier operation epoch.
    StaleOperation,
    /// The session is not ready for it.
    NotReady,
}

/// Hiding the terminal is always taken.
pub open spec fn hides(command: ControlCommand) -> bool {
    command == ControlCommand::SetTerminalVisible { visible: false }
}

pub open spec fn shows(command: ControlCommand) -> bool {
    command == ControlCommand::SetTerminalVisible { visible: true }
}

impl ControlCommand {
    pub fn hides_terminal(&self) -> (r: bool)
        ensures
            r == hides(*self),
    {
        match self {
            ControlCommand::SetTerminalVisible { visible } => !*visible,
            _ => false,
        }
    }

    pub fn shows_terminal(&self) -> (r: bool)
        ensures
            r == shows(*self),
    {
        match self {
            ControlCommand::SetTerminalVisible { visible } => *visible,
            _ => false,
        }
    }

    /// Whether the tmux controller runs a request.  `epoch_current` and
    /// `ready` are read for the request's epoch.
    pub fn admission(&self, epoch_current: bool, ready: bool) -> (r: Admission)
        ensures
            r == (if !epoch_current {
                Admission::StaleOperation
            } else if !hides(*self) && !ready {
                Admission::NotReady
            } else {
                Admission::Run
            }),
    {
        if !epoch_current {
            Admission::StaleOperation
        } else if !self.hides_terminal() && !ready {
            Admission::NotReady
        } else {
            Admission::Run
        }
    }
}

} // verus!
