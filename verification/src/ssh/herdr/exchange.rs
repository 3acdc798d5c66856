//! One exchange over a channel of its own: open, send, await the reply.

use vstd::prelude::*;

use crate::ssh::flow::FlowFailure;
use crate::ssh::herdr::request::{api_failure, MAX_JSON_BYTES};
use crate::ssh::herdr::session::command_status;
use crate::ssh::herdr::{request, session};

verus! {

#[derive(Clone, Copy, Debug, PartialEq, Eq, Structural)]
pub enum ExchangeKind {
    /// A request to the server, whose channel is closed after the reply.
    Request,
    /// A subscription, whose channel stays open.
    Subscription,
    /// A command on the host.
    Command,
}

#[derive(Clone, Copy, Debug, PartialEq, Eq, Structural)]
pub enum ExchangePhase {
    Opening,
    Sending,
    Awaiting,
    Ended,
}

#[derive(Clone, Copy, Debug, PartialEq, Eq, Structural)]
pub enum ExchangeAction {
    Open,
    Send,
    Await,
    /// Use the reply.
    Deliver { close: bool },
    CloseThenFail(FlowFailure),
    Fail(FlowFailure),
}

/// How a step ended, and whether the epoch was still current after it.
#[derive(Clone, Copy, Debug, PartialEq, Eq, Structural)]
pub enum ExchangeFact {
    Done { epoch_current: bool },
    Failed(FlowFailure),
}

#[derive(Clone, Copy, Debug, PartialEq, Eq, Structural)]
pub struct Exchange {
    pub kind: ExchangeKind,
    pub phase: ExchangePhase,
}

pub open spec fn exchange_begun(kind: ExchangeKind, epoch_current: bool) -> (
    Exchange,
    ExchangeAction,
) {
    if epoch_current {
        (Exchange { kind, phase: ExchangePhase::Opening }, ExchangeAction::Open)
    } else {
        (
            Exchange { kind, phase: ExchangePhase::Ended },
            ExchangeAction::Fail(FlowFailure::Stale),
        )
    }
}

pub open spec fn exchange_advanced(x: Exchange, fact: ExchangeFact) -> (Exchange, ExchangeAction) {
    let ended = Exchange { kind: x.kind, phase: ExchangePhase::Ended };
    match fact {
        ExchangeFact::Failed(e) => (ended, ExchangeAction::Fail(e)),
        ExchangeFact::Done { epoch_current } => match x.phase {
            ExchangePhase::Opening => if epoch_current {
                (Exchange { kind: x.kind, phase: ExchangePhase::Sending }, ExchangeAction::Send)
            } else {
                (ended, ExchangeAction::CloseThenFail(FlowFailure::Stale))
            },
            ExchangePhase::Sending => if epoch_current || x.kind == ExchangeKind::Request {
                (Exchange { kind: x.kind, phase: ExchangePhase::Awaiting }, ExchangeAction::Await)
            } else {
                (ended, ExchangeAction::CloseThenFail(FlowFailure::Stale))
            },
            ExchangePhase::Awaiting => if epoch_current {
                (ended, ExchangeAction::Deliver { close: x.kind == ExchangeKind::Request })
            } else if x.kind == ExchangeKind::Command {
                (ended, ExchangeAction::Fail(FlowFailure::Stale))
            } else {
                (ended, ExchangeAction::CloseThenFail(FlowFailure::Stale))
            },
            ExchangePhase::Ended => (ended, ExchangeAction::Fail(FlowFailure::Stale)),
        },
    }
}

impl Exchange {
    pub fn begin(kind: ExchangeKind, epoch_current: bool) -> (r: (Self, ExchangeAction))
        ensures
            r == exchange_begun(kind, epoch_current),
    {
        if epoch_current {
            (Exchange { kind, phase: ExchangePhase::Opening }, ExchangeAction::Open)
        } else {
            (
                Exchange { kind, phase: ExchangePhase::Ended },
                ExchangeAction::Fail(FlowFailure::Stale),
            )
        }
    }

    pub fn advance(self, fact: ExchangeFact) -> (r: (Self, ExchangeAction))
        ensures
            r == exchange_advanced(self, fact),
    {
        let kind = self.kind;
        let ended = Exchange { kind, phase: ExchangePhase::Ended };
        let epoch_current = match fact {
            ExchangeFact::Failed(e) => {
                return (ended, ExchangeAction::Fail(e));
            },
            ExchangeFact::Done { epoch_current } => epoch_current,
        };
        match self.phase {
            ExchangePhase::Opening => if epoch_current {
                (Exchange { kind, phase: ExchangePhase::Sending }, ExchangeAction::Send)
            } else {
                (ended, ExchangeAction::CloseThenFail(FlowFailure::Stale))
            },
            ExchangePhase::Sending => if epoch_current || kind == ExchangeKind::Request {
                (Exchange { kind, phase: ExchangePhase::Awaiting }, ExchangeAction::Await)
            } else {
                (ended, ExchangeAction::CloseThenFail(FlowFailure::Stale))
            },
            ExchangePhase::Awaiting => if epoch_current {
                (ended, ExchangeAction::Deliver { close: kind == ExchangeKind::Request })
            } else if kind == ExchangeKind::Command {
                (ended, ExchangeAction::Fail(FlowFailure::Stale))
            } else {
                (ended, ExchangeAction::CloseThenFail(FlowFailure::Stale))
            },
            ExchangePhase::Ended => (ended, ExchangeAction::Fail(FlowFailure::Stale)),
        }
    }
}

/// Nothing is sent, and no reply is used, once the epoch has moved on.
pub proof fn law_an_exchange_keeps_its_epoch(x: Exchange, fact: ExchangeFact)
    ensures
        exchange_advanced(x, fact).1 == ExchangeAction::Send ==> x.phase == ExchangePhase::Opening
            && fact == (ExchangeFact::Done { epoch_current: true }),
        exchange_advanced(x, fact).1 is Deliver ==> x.phase == ExchangePhase::Awaiting && fact == (
        ExchangeFact::Done { epoch_current: true }),
{
}

/// The failure of a reply that holds an error code.
pub open spec fn reply_failure(kind: ExchangeKind, code: Seq<char>) -> FlowFailure {
    if kind == ExchangeKind::Subscription {
        FlowFailure::HerdrUnsupported
    } else {
        request::failure_for_code(code)
    }
}

pub fn refused(kind: ExchangeKind, code: &str) -> (r: FlowFailure)
    ensures
        r == reply_failure(kind, code@),
{
    if kind == ExchangeKind::Subscription {
        FlowFailure::HerdrUnsupported
    } else {
        api_failure(code)
    }
}

/// A message of a command's channel.
pub enum OutputMessage {
    Data(Vec<u8>),
    ExitStatus(u32),
    Failure,
    Closed,
    Other,
}

/// The output of a command that is being read.
pub struct CommandOutput {
    pub bytes: Vec<u8>,
    pub status: Option<u32>,
    pub closed: bool,
}

#[verifier::ext_equal]
pub struct CommandOutputView {
    pub bytes: Seq<u8>,
    pub status: Option<u32>,
    pub closed: bool,
}

impl View for CommandOutput {
    type V = CommandOutputView;

    open spec fn view(&self) -> CommandOutputView {
        CommandOutputView { bytes: self.bytes@, status: self.status, closed: self.closed }
    }
}

impl CommandOutput {
    pub fn new() -> (r: Self)
        ensures
            r@ == (CommandOutputView { bytes: seq![], status: None, closed: false }),
    {
        CommandOutput { bytes: Vec::new(), status: None, closed: false }
    }

    /// Takes a message.  The output is bounded.
    pub fn take(&mut self, message: OutputMessage) -> (r: Result<(), FlowFailure>)
        ensures
            match message {
                OutputMessage::Data(data) => if old(self)@.bytes.len() + data@.len()
                    > MAX_JSON_BYTES {
                    r == Err::<(), FlowFailure>(FlowFailure::HerdrProtocol)
                        && final(self)@ == old(self)@
                } else {
                    r == Ok::<(), FlowFailure>(()) && final(self)@ == (CommandOutputView {
                        bytes: old(self)@.bytes + data@,
                        ..old(self)@
                    })
                },
                OutputMessage::ExitStatus(status) => r == Ok::<(), FlowFailure>(()) && final(self)@
                    == (CommandOutputView { status: Some(status), ..old(self)@ }),
                OutputMessage::Failure => r == Err::<(), FlowFailure>(FlowFailure::Channel)
                    && final(self)@ == old(self)@,
                OutputMessage::Closed => r == Ok::<(), FlowFailure>(()) && final(self)@ == (
                CommandOutputView { closed: true, ..old(self)@ }),
                OutputMessage::Other => r == Ok::<(), FlowFailure>(())
                    && final(self)@ == old(self)@,
            },
    {
        match message {
            OutputMessage::Data(data) => {
                let mut data = data;
                if data.len() > MAX_JSON_BYTES || self.bytes.len() > MAX_JSON_BYTES - data.len() {
                    return Err(FlowFailure::HerdrProtocol);
                }
                self.bytes.append(&mut data);
            },
            OutputMessage::ExitStatus(status) => {
                self.status = Some(status);
            },
            OutputMessage::Failure => {
                return Err(FlowFailure::Channel);
            },
            OutputMessage::Closed => {
                self.closed = true;
            },
            OutputMessage::Other => {},
        }
        Ok(())
    }

    /// The output of a command that ended well.
    pub fn finish(self) -> (r: Result<Vec<u8>, FlowFailure>)
        ensures
            match session::status_failure(self.status) {
                None => r == Ok::<Vec<u8>, FlowFailure>(self.bytes),
                Some(e) => r == Err::<Vec<u8>, FlowFailure>(e),
            },
    {
        match command_status(self.status) {
            Ok(_) => Ok(self.bytes),
            Err(e) => Err(e),
        }
    }
}

} // verus!
