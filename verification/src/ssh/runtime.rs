//! Finding, creating and confirming the tmux session of a lifecycle.
//!
//! A session is known by its server epoch, never by its name alone.  A
//! missing or uncertain answer fails; it is never replaced by another
//! session.

use vstd::prelude::*;

use crate::tmux::records;
use crate::text;
use crate::ssh::topology;
use crate::diagnostics;
use crate::bytes;
use crate::bytes::Delimiter;
use crate::diagnostics::{tells_collision, tells_no_server, tells_tmux_permission};
use crate::ssh::flow::FlowFailure;
use crate::ssh::topology::parse_sessions;
use crate::text::from_utf8_lossy;
use crate::tmux::decoder::CommandBlock;
use crate::tmux::records::{parse_session_epoch_line, SessionIdentity, SessionIdentityView};

verus! {

/// The shell's status for a command that does not exist.
pub const NOT_FOUND_STATUS: u32 = 127;

/// What a finished remote command left behind.
pub struct RemoteOutput {
    pub exit_status: Option<u32>,
    pub stdout: Vec<u8>,
    pub stderr: Vec<u8>,
}

/// The listing in the output of a finished command.
pub open spec fn listed_in(stdout: Seq<u8>) -> Option<Seq<SessionIdentityView>> {
    topology::session_list(bytes::split(stdout, Delimiter::Byte(0x0a)))
}

/// The sessions of the ordinary tmux server.  A server that verifiably does
/// not run has none; every other doubt is an error.
pub open spec fn discovered(
    status: Option<u32>,
    stdout: Seq<u8>,
    diagnostic: Seq<char>,
) -> Result<Seq<SessionIdentityView>, FlowFailure> {
    match status {
        None => Err(FlowFailure::TmuxDiscoveryMalformed),
        Some(code) => if code == 0 {
            match listed_in(stdout) {
                Some(sessions) => Ok(sessions),
                None => Err(FlowFailure::TmuxDiscoveryMalformed),
            }
        } else if code == NOT_FOUND_STATUS {
            Err(FlowFailure::TmuxDiscoveryMissing)
        } else if code == 1 && diagnostics::says_no_server(diagnostic) {
            Ok(seq![])
        } else if diagnostics::says_tmux_permission(diagnostic) {
            Err(FlowFailure::TmuxDiscoveryPermission)
        } else {
            Err(FlowFailure::TmuxDiscoveryMalformed)
        },
    }
}

/// A listing by the views of its sessions.
pub open spec fn told_sessions(r: Result<Vec<SessionIdentity>, FlowFailure>) -> Result<
    Seq<SessionIdentityView>,
    FlowFailure,
> {
    match r {
        Ok(sessions) => Ok(topology::identity_views(sessions@)),
        Err(e) => Err(e),
    }
}

/// Judges a finished session listing by its status, output and diagnostic.
pub fn judge_discovery(status: Option<u32>, stdout: &[u8], diagnostic: &str) -> (r: Result<
    Vec<SessionIdentity>,
    FlowFailure,
>)
    ensures
        told_sessions(r) == discovered(status, stdout@, diagnostic@),
{
    let code: u32 = match status {
        Some(code) => code,
        None => {
            return Err(FlowFailure::TmuxDiscoveryMalformed);
        },
    };
    if code == 0 {
        parse_sessions(stdout)
    } else if code == NOT_FOUND_STATUS {
        Err(FlowFailure::TmuxDiscoveryMissing)
    } else if code == 1 && tells_no_server(diagnostic) {
        let none: Vec<SessionIdentity> = Vec::new();
        assert(topology::identity_views(none@) == Seq::<SessionIdentityView>::empty());
        Ok(none)
    } else if tells_tmux_permission(diagnostic) {
        Err(FlowFailure::TmuxDiscoveryPermission)
    } else {
        Err(FlowFailure::TmuxDiscoveryMalformed)
    }
}

/// Reads a finished session listing.
pub fn discover(output: &RemoteOutput) -> (r: Result<Vec<SessionIdentity>, FlowFailure>)
    ensures
        told_sessions(r) == discovered(
            output.exit_status,
            output.stdout@,
            text::lossy_text(output.stderr@),
        ),
{
    let diagnostic = from_utf8_lossy(output.stderr.as_slice());
    judge_discovery(output.exit_status, output.stdout.as_slice(), diagnostic.as_str())
}

/// The session that a finished creation reports.
pub open spec fn created_session(
    status: Option<u32>,
    stdout: Seq<u8>,
    diagnostic: Seq<char>,
    name: Seq<char>,
) -> Result<SessionIdentityView, FlowFailure> {
    match status {
        None => Err(FlowFailure::TmuxRuntimeUnknown),
        Some(code) => if code == 0 {
            match listed_in(stdout) {
                Some(sessions) => if sessions.len() == 1 && sessions[0].name == name {
                    Ok(sessions[0])
                } else {
                    Err(FlowFailure::TmuxRuntimeUnknown)
                },
                None => Err(FlowFailure::TmuxRuntimeUnknown),
            }
        } else if diagnostics::says_collision(diagnostic) {
            Err(FlowFailure::TmuxRuntimeCollision)
        } else {
            Err(FlowFailure::TmuxRuntimeUnknown)
        },
    }
}

/// A session by its view.
pub open spec fn told_session(r: Result<SessionIdentity, FlowFailure>) -> Result<
    SessionIdentityView,
    FlowFailure,
> {
    match r {
        Ok(session) => Ok(session@),
        Err(e) => Err(e),
    }
}

/// Judges a finished creation by its status, output and diagnostic.
pub fn judge_creation(
    status: Option<u32>,
    stdout: &[u8],
    diagnostic: &str,
    name: &str,
) -> (r: Result<SessionIdentity, FlowFailure>)
    ensures
        told_session(r) == created_session(status, stdout@, diagnostic@, name@),
{
    let code: u32 = match status {
        Some(code) => code,
        None => {
            return Err(FlowFailure::TmuxRuntimeUnknown);
        },
    };
    if code == 0 {
        match parse_sessions(stdout) {
            Ok(sessions) => {
                if sessions.len() != 1 {
                    return Err(FlowFailure::TmuxRuntimeUnknown);
                }
                assert(topology::identity_views(sessions@)[0] == sessions@[0]@);
                if crate::text::same_text(sessions[0].name.as_str(), name) {
                    Ok(sessions[0].clone())
                } else {
                    Err(FlowFailure::TmuxRuntimeUnknown)
                }
            },
            Err(_) => Err(FlowFailure::TmuxRuntimeUnknown),
        }
    } else if tells_collision(diagnostic) {
        Err(FlowFailure::TmuxRuntimeCollision)
    } else {
        Err(FlowFailure::TmuxRuntimeUnknown)
    }
}

/// Reads a finished creation of the session `name`.
pub fn create_runtime(output: &RemoteOutput, name: &str) -> (r: Result<
    SessionIdentity,
    FlowFailure,
>)
    ensures
        told_session(r) == created_session(
            output.exit_status,
            output.stdout@,
            text::lossy_text(output.stderr@),
            name@,
        ),
{
    let diagnostic = from_utf8_lossy(output.stderr.as_slice());
    judge_creation(output.exit_status, output.stdout.as_slice(), diagnostic.as_str(), name)
}

/// A session of the listing has this server epoch.
pub open spec fn lists_epoch(
    sessions: Seq<SessionIdentityView>,
    expected: SessionIdentityView,
) -> bool {
    exists|i: int|
        0 <= i < sessions.len() && (#[trigger] sessions[i]).epoch() == expected.epoch()
}

fn is_listed(sessions: &Vec<SessionIdentity>, expected: &SessionIdentity) -> (r: bool)
    ensures
        r == lists_epoch(topology::identity_views(sessions@), expected@),
{
    let mut i: usize = 0;
    while i < sessions.len()
        invariant
            i <= sessions@.len(),
            forall|j: int|
                0 <= j < i ==> (#[trigger] topology::identity_views(sessions@)[j]).epoch()
                    != expected@.epoch(),
        decreases sessions@.len() - i,
    {
        assert(topology::identity_views(sessions@)[i as int] == sessions@[i as int]@);
        if sessions[i].epoch().matches(expected) {
            return true;
        }
        i = i + 1;
    }
    false
}

/// Confirms a created session by a listing that was made afterwards.  It
/// stands only where the listing has it; a cancellation remains one.
pub fn confirm_creation(
    created: SessionIdentity,
    listed: Result<Vec<SessionIdentity>, FlowFailure>,
) -> (r: Result<SessionIdentity, FlowFailure>)
    ensures
        r == (match listed {
            Err(e) => Err::<SessionIdentity, FlowFailure>(
                if e == FlowFailure::Stale {
                    e
                } else {
                    FlowFailure::TmuxRuntimeUnknown
                },
            ),
            Ok(sessions) => if lists_epoch(topology::identity_views(sessions@), created@) {
                Ok(created)
            } else {
                Err(FlowFailure::TmuxRuntimeUnknown)
            },
        }),
{
    match listed {
        Err(e) => if e == FlowFailure::Stale {
            Err(e)
        } else {
            Err(FlowFailure::TmuxRuntimeUnknown)
        },
        Ok(sessions) => if is_listed(&sessions, &created) {
            Ok(created)
        } else {
            Err(FlowFailure::TmuxRuntimeUnknown)
        },
    }
}

/// A failed discovery.
pub open spec fn discovery_failed(e: FlowFailure) -> bool {
    e == FlowFailure::TmuxDiscoveryMissing || e == FlowFailure::TmuxDiscoveryPermission || e
        == FlowFailure::TmuxDiscoveryTimeout || e == FlowFailure::TmuxDiscoveryMalformed
}

/// Verifies that the selected session still exists with its server epoch.
pub fn verify_selected_runtime(
    listed: &Result<Vec<SessionIdentity>, FlowFailure>,
    expected: &SessionIdentity,
) -> (r: Result<(), FlowFailure>)
    ensures
        r == (match *listed {
            Err(e) => Err::<(), FlowFailure>(
                if discovery_failed(e) {
                    FlowFailure::TmuxRuntimeMissing
                } else {
                    e
                },
            ),
            Ok(sessions) => if lists_epoch(topology::identity_views(sessions@), expected@) {
                Ok(())
            } else {
                Err(FlowFailure::TmuxRuntimeMissing)
            },
        }),
{
    match listed {
        Err(e) => match *e {
            FlowFailure::TmuxDiscoveryMissing
            | FlowFailure::TmuxDiscoveryPermission
            | FlowFailure::TmuxDiscoveryTimeout
            | FlowFailure::TmuxDiscoveryMalformed => Err(FlowFailure::TmuxRuntimeMissing),
            other => Err(other),
        },
        Ok(sessions) => if is_listed(sessions, expected) {
            Ok(())
        } else {
            Err(FlowFailure::TmuxRuntimeMissing)
        },
    }
}

/// The first session of this name.
pub open spec fn named(sessions: Seq<SessionIdentityView>, name: Seq<char>) -> Option<
    SessionIdentityView,
>
    decreases sessions.len(),
{
    if sessions.len() == 0 {
        None
    } else if sessions[0].name == name {
        Some(sessions[0])
    } else {
        named(sessions.drop_first(), name)
    }
}

/// Resolves a configured session name once.  A missing name fails.
pub fn resolve_runtime(sessions: &Vec<SessionIdentity>, name: &str) -> (r: Result<
    SessionIdentity,
    FlowFailure,
>)
    ensures
        told_session(r) == (match named(topology::identity_views(sessions@), name@) {
            Some(session) => Ok::<SessionIdentityView, FlowFailure>(session),
            None => Err(FlowFailure::TmuxRuntimeMissing),
        }),
{
    let ghost all = topology::identity_views(sessions@);
    let mut i: usize = 0;
    assert(all.skip(0) == all);
    while i < sessions.len()
        invariant
            i <= sessions@.len(),
            all == topology::identity_views(sessions@),
            named(all.skip(i as int), name@) == named(all, name@),
        decreases sessions@.len() - i,
    {
        assert(all.skip(i as int)[0] == sessions@[i as int]@);
        assert(all.skip(i as int).drop_first() == all.skip(i + 1));
        if crate::text::same_text(sessions[i].name.as_str(), name) {
            return Ok(sessions[i].clone());
        }
        i = i + 1;
    }
    Err(FlowFailure::TmuxRuntimeMissing)
}

/// The epoch that one line of one block reports.
pub open spec fn attached(blocks: Seq<CommandBlock>, expected: SessionIdentityView) -> bool {
    &&& blocks.len() == 1
    &&& blocks[0].lines@.len() == 1
    &&& records::session_epoch_line(blocks[0].lines@[0]@) matches Ok(epoch) && epoch == expected.epoch()
}

/// Confirms that the attached stream belongs to the selected session.  A
/// cancellation stays one; every other doubt is a missing runtime.
pub fn verify_attached_session(
    reply: &Result<Vec<CommandBlock>, FlowFailure>,
    expected: &SessionIdentity,
) -> (r: Result<(), FlowFailure>)
    ensures
        r == (match *reply {
            Err(e) => Err::<(), FlowFailure>(
                if e == FlowFailure::Stale {
                    e
                } else {
                    FlowFailure::TmuxRuntimeMissing
                },
            ),
            Ok(blocks) => if attached(blocks@, expected@) {
                Ok(())
            } else {
                Err(FlowFailure::TmuxRuntimeMissing)
            },
        }),
{
    match reply {
        Err(e) => if *e == FlowFailure::Stale {
            Err(*e)
        } else {
            Err(FlowFailure::TmuxRuntimeMissing)
        },
        Ok(blocks) => {
            if blocks.len() != 1 || blocks[0].lines.len() != 1 {
                return Err(FlowFailure::TmuxRuntimeMissing);
            }
            match parse_session_epoch_line(blocks[0].lines[0].as_slice()) {
                Err(_) => Err(FlowFailure::TmuxRuntimeMissing),
                Ok(epoch) => if epoch.matches(expected) {
                    Ok(())
                } else {
                    Err(FlowFailure::TmuxRuntimeMissing)
                },
            }
        },
    }
}

} // verus!
