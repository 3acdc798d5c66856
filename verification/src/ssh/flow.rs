//! How an operation of a controller can fail, and what a cleanup proved.

use vstd::prelude::*;

verus! {

/// Why a controller's flow ended.
#[derive(Clone, Copy, Debug, PartialEq, Eq, Structural)]
pub enum FlowFailure {
    /// The operation belongs to an earlier epoch, generation or lifecycle.
    Stale,
    Channel,
    Transport,
    RemoteClosed,
    Tmux,
    TmuxProtocol,
    TmuxRuntimeMissing,
    TmuxRuntimeUnknown,
    TmuxRuntimeCollision,
    TmuxTopologyUnsafe,
    TmuxDiscoveryMissing,
    TmuxDiscoveryPermission,
    TmuxDiscoveryTimeout,
    TmuxDiscoveryMalformed,
    HerdrMissing,
    HerdrSessionMissing,
    HerdrIncompatible,
    HerdrUnsupported,
    HerdrForwarding,
    HerdrProtocol,
    HerdrController,
    HerdrOperation,
    HerdrWorkspaceGroup,
    HerdrDiscoveryMissing,
    HerdrDiscoveryIncompatible,
    HerdrDiscoveryMalformed,
    HerdrDiscoveryPermission,
    HerdrDiscoveryTimeout,
}

/// What a zoom cleanup proved about the remote layout and hooks.
#[derive(Clone, Copy, Debug, PartialEq, Eq, Structural)]
pub enum ZoomCleanupOutcome {
    NotNeeded,
    RestoredConfirmed,
    UnconfirmedOrFailed,
}

} // verus!
