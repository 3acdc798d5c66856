//! What can be wrong with control-mode input and with command arguments.

use vstd::prelude::*;

verus! {

/// Why bytes of a control-mode stream were refused.
#[derive(Clone, Copy, Debug, PartialEq, Eq, Structural)]
pub enum DecodeError {
    InvalidHeader,
    InvalidCommandNumber,
    UnexpectedCommandEnd,
    InvalidNotification,
    InvalidPaneId,
    InvalidOctalEscape,
    BufferTooLarge,
}

impl DecodeError {
    pub open spec fn text(self) -> Seq<char> {
        match self {
            DecodeError::InvalidHeader => "invalid tmux control-mode header"@,
            DecodeError::InvalidCommandNumber => "invalid tmux control-mode command number"@,
            DecodeError::UnexpectedCommandEnd => "unexpected tmux control-mode command end"@,
            DecodeError::InvalidNotification => "invalid tmux control-mode notification"@,
            DecodeError::InvalidPaneId => "invalid tmux pane ID"@,
            DecodeError::InvalidOctalEscape => "invalid tmux octal escape"@,
            DecodeError::BufferTooLarge => "tmux control-mode input buffer is too large"@,
        }
    }

    /// The sentence shown for this error.
    pub fn message(&self) -> (r: &'static str)
        ensures
            r@ == self.text(),
    {
        match self {
            DecodeError::InvalidHeader => "invalid tmux control-mode header",
            DecodeError::InvalidCommandNumber => "invalid tmux control-mode command number",
            DecodeError::UnexpectedCommandEnd => "unexpected tmux control-mode command end",
            DecodeError::InvalidNotification => "invalid tmux control-mode notification",
            DecodeError::InvalidPaneId => "invalid tmux pane ID",
            DecodeError::InvalidOctalEscape => "invalid tmux octal escape",
            DecodeError::BufferTooLarge => "tmux control-mode input buffer is too large",
        }
    }
}

/// Why a user-visible name cannot become one tmux command argument.  Names
/// are bounded and cannot contain control characters because the Control
/// Mode command stream is line-oriented.
#[derive(Clone, Copy, Debug, PartialEq, Eq, Structural)]
pub enum CommandArgumentError {
    Empty,
    TooLong,
    ControlCharacter,
}

impl CommandArgumentError {
    pub open spec fn text(self) -> Seq<char> {
        match self {
            CommandArgumentError::Empty => "tmux name is empty"@,
            CommandArgumentError::TooLong => "tmux name is too long"@,
            CommandArgumentError::ControlCharacter => "tmux name contains a control character"@,
        }
    }

    /// The sentence shown for this error.
    pub fn message(&self) -> (r: &'static str)
        ensures
            r@ == self.text(),
    {
        match self {
            CommandArgumentError::Empty => "tmux name is empty",
            CommandArgumentError::TooLong => "tmux name is too long",
            CommandArgumentError::ControlCharacter => "tmux name contains a control character",
        }
    }
}

} // verus!
