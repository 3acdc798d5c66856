//! Recovering a Herdr session: what is retained, which runtime may stand for
//! it, and the confirmation in between.

use std::collections::hash_map::DefaultHasher;
use std::collections::HashMap;
use std::hash::{Hash, Hasher};
use vstd::prelude::*;
use vstd::std_specs::hash::DefaultHasherAdditionalSpecFns;

use crate::workspace;
use crate::text;
use crate::ssh::commit;
use crate::diagnostics;
use crate::diagnostics::tells_herdr_permission;
use crate::maps::keys_of;
use crate::ssh::commit::CommitGate;
use crate::ssh::flow::FlowFailure;
use crate::ssh::herdr::metadata::{handle_text, RemotePane};
use crate::ssh::state::{BoundCandidate, ConnectionProfile, RuntimeBinding, SessionState};
use crate::text::{from_utf8_lossy, push_decimal, push_hex_digits, same_text};
use crate::workspace::{
    Backend, RuntimeCandidate, RuntimeDiscoverySnapshot, RuntimeSection, RuntimeSectionState,
    RuntimeState, TerminalGroup, TerminalGroupView,
};

verus! {

broadcast use vstd::std_specs::hash::group_hash_axioms;

/// A Herdr session that a host lists.
#[derive(Debug, PartialEq, Eq)]
pub struct DiscoveredSession {
    pub name: String,
    pub default: bool,
    pub running: bool,
    pub executable: String,
}

#[derive(Debug, PartialEq, Eq)]
pub struct Discovery {
    pub sessions: Vec<DiscoveredSession>,
    pub executable: String,
}

/// What a recovery goes back to.
#[derive(Debug, PartialEq, Eq)]
pub enum RecoveryTarget {
    /// The stable terminal that was selected.
    Terminal(String),
    /// The selected group, which has no panes.
    EmptyGroup(u64),
    Missing,
}

/// The group is listed.
pub open spec fn lists_group(groups: Seq<TerminalGroupView>, group: u64) -> bool {
    exists|i: int| 0 <= i < groups.len() && (#[trigger] groups[i]).id == text::decimal(group as nat)
}

/// A pane belongs to the group.
pub open spec fn group_has_panes(panes: Map<u64, RemotePane>, group: u64) -> bool {
    exists|h: u64| #[trigger] panes.contains_key(h) && panes[h].group == group
}

fn is_group_listed(groups: &Vec<TerminalGroup>, group: u64) -> (r: bool)
    ensures
        r == lists_group(workspace::group_views(groups@), group),
{
    let id = handle_text(group);
    let mut i: usize = 0;
    while i < groups.len()
        invariant
            i <= groups@.len(),
            id@ == text::decimal(group as nat),
            forall|k: int| 0 <= k < i ==> (#[trigger] workspace::group_views(groups@)[k]).id != id@,
        decreases groups@.len() - i,
    {
        assert(workspace::group_views(groups@)[i as int] == groups@[i as int]@);
        if same_text(groups[i].id.as_str(), id.as_str()) {
            return true;
        }
        i = i + 1;
    }
    false
}

fn is_group_filled(panes: &HashMap<u64, RemotePane>, group: u64) -> (r: bool)
    ensures
        r == group_has_panes(panes@, group),
{
    let keys = keys_of(panes);
    let mut i: usize = 0;
    while i < keys.len()
        invariant
            i <= keys@.len(),
            forall|k: u64| #[trigger] keys@.contains(k) <==> panes@.contains_key(k),
            forall|k: int|
                0 <= k < i ==> panes@.contains_key(#[trigger] keys@[k]) && panes@[keys@[k]].group
                    != group,
        decreases keys@.len() - i,
    {
        assert(keys@.contains(keys@[i as int]));
        match panes.get(&keys[i]) {
            Some(remote) => {
                if remote.group == group {
                    return true;
                }
            },
            None => {},
        }
        i = i + 1;
    }
    proof {
        if group_has_panes(panes@, group) {
            let h = choose|h: u64| #[trigger] panes@.contains_key(h) && panes@[h].group == group;
            assert(keys@.contains(h));
            let k = choose|k: int| 0 <= k < keys@.len() && keys@[k] == h;
            assert(panes@[keys@[k]].group != group);
        }
    }
    false
}

/// Classifies the retained selection.  An empty group is a target of its own;
/// a group that is gone, or whose selected terminal is gone, is none, and no
/// other pane is put in its place.
pub fn recovery_target(state: &SessionState) -> (r: RecoveryTarget)
    ensures
        match state.recovery_terminal_id {
            Some(terminal) => r == RecoveryTarget::Terminal(terminal),
            None => match state.recovery_group_id {
                Some(group) => r == (if lists_group(
                    workspace::group_views(state.herdr.snapshot.groups@),
                    group,
                ) && !group_has_panes(state.herdr.panes@, group) {
                    RecoveryTarget::EmptyGroup(group)
                } else {
                    RecoveryTarget::Missing
                }),
                None => r == RecoveryTarget::Missing,
            },
        },
{
    match &state.recovery_terminal_id {
        Some(terminal) => {
            return RecoveryTarget::Terminal(terminal.clone());
        },
        None => {},
    }
    match state.recovery_group_id {
        Some(group) => if is_group_listed(&state.herdr.snapshot.groups, group) && !is_group_filled(
            &state.herdr.panes,
            group,
        ) {
            RecoveryTarget::EmptyGroup(group)
        } else {
            RecoveryTarget::Missing
        },
        None => RecoveryTarget::Missing,
    }
}

/// A failure of the runtime rather than of the connection.
pub open spec fn is_local(failure: FlowFailure) -> bool {
    match failure {
        FlowFailure::HerdrMissing => true,
        FlowFailure::HerdrSessionMissing => true,
        FlowFailure::HerdrIncompatible => true,
        FlowFailure::HerdrUnsupported => true,
        FlowFailure::HerdrForwarding => true,
        FlowFailure::HerdrProtocol => true,
        FlowFailure::HerdrController => true,
        FlowFailure::HerdrOperation => true,
        FlowFailure::HerdrDiscoveryMissing => true,
        FlowFailure::HerdrDiscoveryIncompatible => true,
        FlowFailure::HerdrDiscoveryMalformed => true,
        FlowFailure::HerdrDiscoveryPermission => true,
        FlowFailure::HerdrDiscoveryTimeout => true,
        _ => false,
    }
}

pub fn is_recovery_local_failure(failure: FlowFailure) -> (r: bool)
    ensures
        r == is_local(failure),
{
    match failure {
        FlowFailure::HerdrMissing
        | FlowFailure::HerdrSessionMissing
        | FlowFailure::HerdrIncompatible
        | FlowFailure::HerdrUnsupported
        | FlowFailure::HerdrForwarding
        | FlowFailure::HerdrProtocol
        | FlowFailure::HerdrController
        | FlowFailure::HerdrOperation
        | FlowFailure::HerdrDiscoveryMissing
        | FlowFailure::HerdrDiscoveryIncompatible
        | FlowFailure::HerdrDiscoveryMalformed
        | FlowFailure::HerdrDiscoveryPermission
        | FlowFailure::HerdrDiscoveryTimeout => true,
        _ => false,
    }
}

/// The stable reason that a stopped recovery shows.
pub open spec fn reason_for(failure: FlowFailure) -> Seq<char> {
    match failure {
        FlowFailure::HerdrSessionMissing => "herdr_session_missing"@,
        FlowFailure::HerdrMissing => "herdr_session_missing"@,
        FlowFailure::HerdrForwarding => "herdr_session_missing"@,
        FlowFailure::HerdrController => "controller_conflict"@,
        FlowFailure::HerdrIncompatible => "herdr_incompatible"@,
        FlowFailure::HerdrDiscoveryIncompatible => "herdr_incompatible"@,
        FlowFailure::HerdrUnsupported => "herdr_incompatible"@,
        _ => "runtime_identity_uncertain"@,
    }
}

pub fn recovery_reason_for_failure(failure: FlowFailure) -> (r: &'static str)
    ensures
        r@ == reason_for(failure),
{
    match failure {
        FlowFailure::HerdrSessionMissing
        | FlowFailure::HerdrMissing
        | FlowFailure::HerdrForwarding => "herdr_session_missing",
        FlowFailure::HerdrController => "controller_conflict",
        FlowFailure::HerdrIncompatible
        | FlowFailure::HerdrDiscoveryIncompatible
        | FlowFailure::HerdrUnsupported => "herdr_incompatible",
        _ => "runtime_identity_uncertain",
    }
}

/// The shell's status for a command that does not exist.
pub const NOT_FOUND: u32 = 127;

/// The status of a resolver that found an unusable installation.
pub const UNUSABLE: u32 = 78;

/// What the status of a session listing says.
pub open spec fn listing_verdict(status: Option<u32>, diagnostic: Seq<char>) -> Result<
    (),
    FlowFailure,
> {
    match status {
        None => Err(FlowFailure::HerdrDiscoveryMalformed),
        Some(code) => if code == 0 {
            Ok(())
        } else if code == NOT_FOUND {
            Err(FlowFailure::HerdrDiscoveryMissing)
        } else if code == UNUSABLE {
            Err(FlowFailure::HerdrDiscoveryIncompatible)
        } else if diagnostics::says_herdr_permission(diagnostic) {
            Err(FlowFailure::HerdrDiscoveryPermission)
        } else {
            Err(FlowFailure::HerdrDiscoveryMalformed)
        },
    }
}

/// Judges a finished session listing by its status and diagnostic.
pub fn judge_listing(status: Option<u32>, diagnostic: &str) -> (r: Result<(), FlowFailure>)
    ensures
        r == listing_verdict(status, diagnostic@),
{
    let code: u32 = match status {
        Some(code) => code,
        None => {
            return Err(FlowFailure::HerdrDiscoveryMalformed);
        },
    };
    if code == 0 {
        Ok(())
    } else if code == NOT_FOUND {
        Err(FlowFailure::HerdrDiscoveryMissing)
    } else if code == UNUSABLE {
        Err(FlowFailure::HerdrDiscoveryIncompatible)
    } else if tells_herdr_permission(diagnostic) {
        Err(FlowFailure::HerdrDiscoveryPermission)
    } else {
        Err(FlowFailure::HerdrDiscoveryMalformed)
    }
}

/// Judges a finished session listing.
pub fn listing_status(status: Option<u32>, stderr: &[u8]) -> (r: Result<(), FlowFailure>)
    ensures
        r == listing_verdict(status, text::lossy_text(stderr@)),
{
    let diagnostic = from_utf8_lossy(stderr);
    judge_listing(status, diagnostic.as_str())
}

/// Which failures an executable's resolution reports: those of a discovery, or
/// those of a selected runtime.
#[derive(Clone, Copy, Debug, PartialEq, Eq, Structural)]
pub struct ResolverFailures {
    pub missing: FlowFailure,
    pub incompatible: FlowFailure,
    pub malformed: FlowFailure,
    pub timeout: FlowFailure,
}

pub open spec fn resolver_failures_for(discovery: bool) -> ResolverFailures {
    if discovery {
        ResolverFailures {
            missing: FlowFailure::HerdrDiscoveryMissing,
            incompatible: FlowFailure::HerdrDiscoveryIncompatible,
            malformed: FlowFailure::HerdrDiscoveryMalformed,
            timeout: FlowFailure::HerdrDiscoveryTimeout,
        }
    } else {
        ResolverFailures {
            missing: FlowFailure::HerdrMissing,
            incompatible: FlowFailure::HerdrIncompatible,
            malformed: FlowFailure::HerdrProtocol,
            timeout: FlowFailure::HerdrProtocol,
        }
    }
}

impl ResolverFailures {
    pub fn of(discovery: bool) -> (r: Self)
        ensures
            r == resolver_failures_for(discovery),
    {
        if discovery {
            ResolverFailures {
                missing: FlowFailure::HerdrDiscoveryMissing,
                incompatible: FlowFailure::HerdrDiscoveryIncompatible,
                malformed: FlowFailure::HerdrDiscoveryMalformed,
                timeout: FlowFailure::HerdrDiscoveryTimeout,
            }
        } else {
            ResolverFailures {
                missing: FlowFailure::HerdrMissing,
                incompatible: FlowFailure::HerdrIncompatible,
                malformed: FlowFailure::HerdrProtocol,
                timeout: FlowFailure::HerdrProtocol,
            }
        }
    }

    /// What the resolver's status says.
    pub fn resolver_status(self, status: Option<u32>) -> (r: Result<(), FlowFailure>)
        ensures
            r == (if status == Some(0u32) {
                Ok::<(), FlowFailure>(())
            } else if status == Some(NOT_FOUND) {
                Err(self.missing)
            } else if status == Some(UNUSABLE) {
                Err(self.incompatible)
            } else {
                Err(self.malformed)
            }),
    {
        match status {
            Some(code) => if code == 0 {
                Ok(())
            } else if code == NOT_FOUND {
                Err(self.missing)
            } else if code == UNUSABLE {
                Err(self.incompatible)
            } else {
                Err(self.malformed)
            },
            None => Err(self.malformed),
        }
    }

    /// A lifecycle that has used an executable does not switch to another.
    pub fn accept_executable(self, found: &str, expected: Option<&str>) -> (r: Result<
        (),
        FlowFailure,
    >)
        ensures
            r == (if expected is Some && expected->0@ != found@ {
                Err::<(), FlowFailure>(self.incompatible)
            } else {
                Ok(())
            }),
    {
        match expected {
            Some(expected) => if same_text(expected, found) {
                Ok(())
            } else {
                Err(self.incompatible)
            },
            None => Ok(()),
        }
    }

    /// What the status of the schema query says.
    pub fn schema_status(self, status: Option<u32>) -> (r: Result<(), FlowFailure>)
        ensures
            r == (if status == Some(0u32) {
                Ok::<(), FlowFailure>(())
            } else {
                Err(self.incompatible)
            }),
    {
        match status {
            Some(code) => if code == 0 {
                Ok(())
            } else {
                Err(self.incompatible)
            },
            None => Err(self.incompatible),
        }
    }
}

/// The session is running and is the one of the profile: the named one, or
/// the default one where no name is set.
pub open spec fn fits(session: DiscoveredSession, runtime: Option<&str>) -> bool {
    session.running && (match runtime {
        Some(name) => session.name@ == name@,
        None => session.default,
    })
}

/// The first session that fits.
pub open spec fn fitting(sessions: Seq<DiscoveredSession>, runtime: Option<&str>) -> Option<int>
    decreases sessions.len(),
{
    if sessions.len() == 0 {
        None
    } else {
        match fitting(sessions.drop_last(), runtime) {
            Some(at) => Some(at),
            None => if fits(sessions.last(), runtime) {
                Some(sessions.len() - 1)
            } else {
                None
            },
        }
    }
}

proof fn lemma_fitting_prefix(sessions: Seq<DiscoveredSession>, runtime: Option<&str>, n: int)
    requires
        0 <= n <= sessions.len(),
        fitting(sessions.take(n), runtime) is Some,
    ensures
        fitting(sessions, runtime) == fitting(sessions.take(n), runtime),
    decreases sessions.len() - n,
{
    if n < sessions.len() {
        assert(sessions.take(n + 1).drop_last() == sessions.take(n));
        lemma_fitting_prefix(sessions, runtime, n + 1);
    } else {
        assert(sessions.take(n) == sessions);
    }
}

/// Finds the session of a profile in a discovery.  Another session never
/// stands in for it, and neither does another executable.
pub fn recovery_candidate(discovery: &Discovery, runtime: Option<&str>) -> (r: Result<
    usize,
    FlowFailure,
>)
    ensures
        match fitting(discovery.sessions@, runtime) {
            None => r == Err::<usize, FlowFailure>(FlowFailure::HerdrSessionMissing),
            Some(at) => if discovery.sessions@[at].executable@ == discovery.executable@ {
                r is Ok && r->Ok_0 == at
            } else {
                r == Err::<usize, FlowFailure>(FlowFailure::HerdrIncompatible)
            },
        },
{
    let mut i: usize = 0;
    assert(discovery.sessions@.take(0) == Seq::<DiscoveredSession>::empty());
    while i < discovery.sessions.len()
        invariant
            i <= discovery.sessions@.len(),
            fitting(discovery.sessions@.take(i as int), runtime) is None,
        decreases discovery.sessions@.len() - i,
    {
        assert(discovery.sessions@.take(i + 1).drop_last() == discovery.sessions@.take(i as int));
        let session = &discovery.sessions[i];
        let named = match runtime {
            Some(name) => same_text(session.name.as_str(), name),
            None => session.default,
        };
        if session.running && named {
            proof {
                lemma_fitting_prefix(discovery.sessions@, runtime, i + 1);
            }
            if same_text(session.executable.as_str(), discovery.executable.as_str()) {
                return Ok(i);
            }
            return Err(FlowFailure::HerdrIncompatible);
        }
        i = i + 1;
    }
    assert(discovery.sessions@.take(i as int) == discovery.sessions@);
    Err(FlowFailure::HerdrSessionMissing)
}

/// The revision after `revision`; it is never 0.
pub open spec fn next_revision(revision: u64) -> u64 {
    if revision == u64::MAX {
        1
    } else {
        (revision + 1) as u64
    }
}

pub open spec fn candidate_id(generation: u64, revision: u64) -> Seq<char> {
    "recovery-"@ + text::decimal(generation as nat) + "-herdr-"@ + text::decimal(revision as nat)
}

/// The one row of a recovery's picker.
pub open spec fn is_candidate_row(
    row: RuntimeCandidate,
    id: Seq<char>,
    candidate: DiscoveredSession,
) -> bool {
    &&& row.id@ == id
    &&& row.backend == Backend::Herdr
    &&& row.name@ == candidate.name@
    &&& row.state == RuntimeState::Running
    &&& row.selectable
    &&& row.suggested == candidate.default
    &&& row.error_code is None
    &&& row.error_message is None
}

/// Everything but what a picker shows and the profile.
pub open spec fn same_but_discovery(a: SessionState, b: SessionState) -> bool {
    &&& a.generation == b.generation
    &&& a.operation_epoch == b.operation_epoch
    &&& a.snapshot == b.snapshot
    &&& a.pane_terminals == b.pane_terminals
    &&& a.selected_pane == b.selected_pane
    &&& a.meeterm_zoomed == b.meeterm_zoomed
    &&& a.meeterm_zoomed_window == b.meeterm_zoomed_window
    &&& a.meeterm_zoomed_pane == b.meeterm_zoomed_pane
    &&& a.viewport == b.viewport
    &&& a.recovery == b.recovery
    &&& a.runtime_operations_ready == b.runtime_operations_ready
    &&& a.terminal_input_ready == b.terminal_input_ready
    &&& a.terminal_visible == b.terminal_visible
    &&& a.recovery_terminal_id == b.recovery_terminal_id
    &&& a.recovery_group_id == b.recovery_group_id
    &&& a.herdr == b.herdr
}

/// Publishes the one runtime that a recovery offers, unless the state has
/// moved on, and keeps the profile that led to it.  The executable stays behind
/// the row's id.
pub fn publish_recovery_candidate(
    state: &mut SessionState,
    gate: CommitGate,
    profile: &ConnectionProfile,
    candidate: &DiscoveredSession,
) -> (r: Result<u64, FlowFailure>)
    ensures
        !commit::current(*old(state), gate) ==> r == Err::<u64, FlowFailure>(FlowFailure::Stale)
            && *final(state) == *old(state),
        commit::current(*old(state), gate) ==> {
            let revision = next_revision(old(state).runtime_discovery.discovery_revision);
            let id = candidate_id(gate.generation, revision);
            &&& r == Ok::<u64, FlowFailure>(revision)
            &&& final(state).runtime_candidates@.len() == 1
            &&& final(state).runtime_candidates@[0].id@ == id
            &&& (final(state).runtime_candidates@[0].binding matches RuntimeBinding::Herdr {
                name,
                default,
                executable,
            } && name@ == candidate.name@ && default == candidate.default && executable@
                == candidate.executable@)
            &&& final(state).runtime_discovery.connection_generation == gate.generation
            &&& final(state).runtime_discovery.discovery_revision == revision
            &&& final(state).runtime_discovery.tmux.state == RuntimeSectionState::Empty
            &&& final(state).runtime_discovery.tmux.candidates@.len() == 0
            &&& final(state).runtime_discovery.tmux.error_code is None
            &&& final(state).runtime_discovery.tmux.error_message is None
            &&& final(state).runtime_discovery.herdr.state == RuntimeSectionState::Success
            &&& final(state).runtime_discovery.herdr.candidates@.len() == 1
            &&& is_candidate_row(
                final(state).runtime_discovery.herdr.candidates@[0],
                id,
                *candidate,
            )
            &&& final(state).runtime_discovery.herdr.error_code is None
            &&& final(state).runtime_discovery.herdr.error_message is None
            &&& final(state).profile == Some(*profile)
            &&& same_but_discovery(*final(state), *old(state))
        },
{
    if !gate.is_open(state) {
        return Err(FlowFailure::Stale);
    }
    let before: u64 = state.runtime_discovery.discovery_revision;
    let revision: u64 = if before == u64::MAX {
        1
    } else {
        before + 1
    };
    let mut id = String::from_str("recovery-");
    push_decimal(&mut id, gate.generation);
    id.append("-herdr-");
    push_decimal(&mut id, revision);
    let mut bound: Vec<BoundCandidate> = Vec::new();
    bound.push(
        BoundCandidate {
            id: id.clone(),
            binding: RuntimeBinding::Herdr {
                name: candidate.name.clone(),
                default: candidate.default,
                executable: candidate.executable.clone(),
            },
        },
    );
    let mut rows: Vec<RuntimeCandidate> = Vec::new();
    rows.push(
        RuntimeCandidate {
            id,
            backend: Backend::Herdr,
            name: candidate.name.clone(),
            state: RuntimeState::Running,
            selectable: true,
            suggested: candidate.default,
            error_code: None,
            error_message: None,
        },
    );
    state.runtime_candidates = bound;
    state.runtime_discovery = RuntimeDiscoverySnapshot {
        connection_generation: gate.generation,
        discovery_revision: revision,
        tmux: RuntimeSection {
            state: RuntimeSectionState::Empty,
            candidates: Vec::new(),
            error_code: None,
            error_message: None,
        },
        herdr: RuntimeSection {
            state: RuntimeSectionState::Success,
            candidates: rows,
            error_code: None,
            error_message: None,
        },
    };
    state.profile = Some(profile.clone());
    Ok(revision)
}

/// What `str`'s `Hash` writes to a hasher for a text.
pub uninterp spec fn text_writes(text: Seq<char>) -> Seq<Seq<u8>>;

/// `Hash::hash` of `str`: it feeds the text to the hasher.  The text alone
/// decides what is written; in which pieces, the standard library leaves open.
#[verifier::external_body]
fn hash_text(text: &str, hasher: &mut DefaultHasher)
    ensures
        final(hasher)@ == old(hasher)@ + text_writes(text@),
{
    text.hash(hasher);
}

/// The number that a new `DefaultHasher` gives for a text.
pub open spec fn scope_digest(text: Seq<char>) -> u64 {
    DefaultHasher::spec_finish(text_writes(text))
}

fn terminal_scope_digest(text: &str) -> (r: u64)
    ensures
        r == scope_digest(text@),
{
    let mut hasher = DefaultHasher::new();
    hash_text(text, &mut hasher);
    assert(hasher@ =~= text_writes(text@));
    hasher.finish()
}

/// What a confirmation token is bound to.
#[derive(Clone, Copy, Debug, PartialEq, Eq, Structural)]
pub struct TokenScope {
    pub generation: u64,
    pub epoch: u64,
    pub revision: u64,
    /// Differs in every token.
    pub serial: u64,
}

/// A token for a scope and a digest of what is to be recovered.
pub open spec fn token_text(scope: TokenScope, digest: u64) -> Seq<char> {
    "herdr-recovery-"@ + text::decimal(scope.generation as nat) + "-"@ + text::decimal(scope.epoch as nat)
        + "-"@ + text::decimal(scope.revision as nat) + "-"@ + text::hex_digits(digest as nat, 16) + "-"@ + text::decimal(
        scope.serial as nat,
    )
}

pub fn token_with_digest(scope: TokenScope, digest: u64) -> (r: String)
    ensures
        r@ == token_text(scope, digest),
{
    let mut token = String::from_str("herdr-recovery-");
    push_decimal(&mut token, scope.generation);
    token.append("-");
    push_decimal(&mut token, scope.epoch);
    token.append("-");
    push_decimal(&mut token, scope.revision);
    token.append("-");
    push_hex_digits(&mut token, digest, 16);
    token.append("-");
    push_decimal(&mut token, scope.serial);
    token
}

/// The text that stands for a target in its token.
pub open spec fn target_text(target: RecoveryTarget) -> Option<Seq<char>> {
    match target {
        RecoveryTarget::Terminal(terminal) => Some(terminal@),
        RecoveryTarget::EmptyGroup(group) => Some(
            "group:Some("@ + text::decimal(group as nat) + ")"@,
        ),
        RecoveryTarget::Missing => None,
    }
}

/// The token that confirms the recovery of a target, if there is one.
pub fn recovery_token(scope: TokenScope, target: &RecoveryTarget) -> (r: Option<String>)
    ensures
        match target_text(*target) {
            Some(text) => r matches Some(token) && token@ == token_text(scope, scope_digest(text)),
            None => r is None,
        },
{
    match target {
        RecoveryTarget::Terminal(terminal) => {
            let digest: u64 = terminal_scope_digest(terminal.as_str());
            Some(token_with_digest(scope, digest))
        },
        RecoveryTarget::EmptyGroup(group) => {
            let mut named = String::from_str("group:Some(");
            push_decimal(&mut named, *group);
            named.append(")");
            let digest: u64 = terminal_scope_digest(named.as_str());
            Some(token_with_digest(scope, digest))
        },
        RecoveryTarget::Missing => None,
    }
}

/// Why a recovery stops.
#[derive(Clone, Copy, Debug, PartialEq, Eq, Structural)]
pub enum StopReason {
    TerminalMissing,
    SessionMissing,
    Incompatible,
    /// The confirmation was not, or no longer, the awaited one.
    Outdated,
    Because(FlowFailure),
}

pub open spec fn stop_text(reason: StopReason) -> Seq<char> {
    match reason {
        StopReason::TerminalMissing => "herdr_terminal_missing"@,
        StopReason::SessionMissing => "herdr_session_missing"@,
        StopReason::Incompatible => "herdr_incompatible"@,
        StopReason::Outdated => "recovery_stale"@,
        StopReason::Because(failure) => reason_for(failure),
    }
}

impl StopReason {
    pub fn text(self) -> (r: &'static str)
        ensures
            r@ == stop_text(self),
    {
        match self {
            StopReason::TerminalMissing => "herdr_terminal_missing",
            StopReason::SessionMissing => "herdr_session_missing",
            StopReason::Incompatible => "herdr_incompatible",
            StopReason::Outdated => "recovery_stale",
            StopReason::Because(failure) => recovery_reason_for_failure(failure),
        }
    }
}

/// What a recovery waits for.
#[derive(Clone, Copy, Debug, PartialEq, Eq, Structural)]
pub enum RecoverPhase {
    /// The current operation epoch.
    Starting,
    /// The first discovery.
    Discovering,
    /// The published candidate and its confirmation token.
    Offering,
    /// A request, or a change of the recovery phase.
    Awaiting,
    /// A new attempt that the user asked for.
    Retrying,
    /// The check of a submitted token.
    Checking,
    /// The discovery after the confirmation.
    Confirming,
    /// The controller.
    Running,
    Ended,
}

/// What to do next.
#[derive(Clone, Copy, Debug, PartialEq, Eq, Structural)]
pub enum RecoverAction {
    ReadEpoch,
    Discover { epoch: u64 },
    /// Publish the candidate and ask for its confirmation.
    Offer { epoch: u64 },
    Await,
    BeginRetry,
    CheckToken,
    /// Run the controller in the confirmed epoch.
    Run { epoch: u64 },
    Done,
    /// Stop the recovery for this reason, and leave.
    Stop(StopReason, FlowFailure),
    Fail(FlowFailure),
}

/// What a discovery that succeeded lists.
#[derive(Clone, Copy, Debug, PartialEq, Eq, Structural)]
pub enum Listed {
    /// The profile's session.
    Session,
    /// Not the profile's session.
    Missing,
    /// The session, by another executable.
    OtherExecutable,
}

/// What came back.
#[derive(Clone, Copy, Debug, PartialEq, Eq, Structural)]
pub enum RecoverFact {
    Epoch { epoch: u64, current: bool },
    /// A discovery succeeded, and its epoch is still current, or not.
    Discovered { listed: Listed, current: bool },
    /// The epoch in which the confirmation was published.
    Offered { epoch: u64 },
    /// The recovery phase, when nothing else arrived.
    Phase { awaiting: bool },
    /// A request to try again.
    Retry { current: bool },
    /// A submitted confirmation.
    Confirm { epoch: u64, current: bool },
    /// Another request, which no later epoch may replay.
    OtherRequest,
    RetryBegun(bool),
    Token { taken: bool, resynchronizing: bool },
    Ran,
    /// The connection was cancelled, or the request queue closed.
    Cancelled,
    Failed(FlowFailure),
}

/// A recovery under way.
#[derive(Clone, Copy, Debug, PartialEq, Eq, Structural)]
pub struct Recovery {
    pub phase: RecoverPhase,
    /// The epoch of the discovery, or of the confirmation.
    pub epoch: u64,
}

pub open spec fn recovery_at(phase: RecoverPhase, epoch: u64) -> Recovery {
    Recovery { phase, epoch }
}

/// Leaving, for a failure of the runtime by stopping the recovery.
pub open spec fn left(epoch: u64, failure: FlowFailure) -> (Recovery, RecoverAction) {
    (
        recovery_at(RecoverPhase::Ended, epoch),
        if is_local(failure) {
            RecoverAction::Stop(StopReason::Because(failure), failure)
        } else {
            RecoverAction::Fail(failure)
        },
    )
}

pub open spec fn stopped(epoch: u64, reason: StopReason, failure: FlowFailure) -> (
    Recovery,
    RecoverAction,
) {
    (recovery_at(RecoverPhase::Ended, epoch), RecoverAction::Stop(reason, failure))
}

pub open spec fn failed(epoch: u64, failure: FlowFailure) -> (Recovery, RecoverAction) {
    (recovery_at(RecoverPhase::Ended, epoch), RecoverAction::Fail(failure))
}

/// Stopping, because the profile's session is not listed as it was.
pub open spec fn unlisted(epoch: u64, listed: Listed) -> (Recovery, RecoverAction) {
    if listed == Listed::OtherExecutable {
        stopped(epoch, StopReason::Incompatible, FlowFailure::HerdrIncompatible)
    } else {
        stopped(epoch, StopReason::SessionMissing, FlowFailure::HerdrSessionMissing)
    }
}

/// The decision on what came back.
pub open spec fn recovered(r: Recovery, fact: RecoverFact) -> (Recovery, RecoverAction) {
    match (r.phase, fact) {
        (_, RecoverFact::Cancelled) => failed(r.epoch, FlowFailure::Stale),
        (RecoverPhase::Starting, RecoverFact::Epoch { epoch, current }) => if current {
            (recovery_at(RecoverPhase::Discovering, epoch), RecoverAction::Discover { epoch })
        } else {
            failed(r.epoch, FlowFailure::Stale)
        },
        (RecoverPhase::Discovering, RecoverFact::Discovered { listed, .. }) => match listed {
            Listed::Session => (
                recovery_at(RecoverPhase::Offering, r.epoch),
                RecoverAction::Offer { epoch: r.epoch },
            ),
            _ => unlisted(r.epoch, listed),
        },
        (RecoverPhase::Discovering, RecoverFact::Failed(e)) => left(r.epoch, e),
        (RecoverPhase::Offering, RecoverFact::Offered { epoch }) => if epoch == r.epoch {
            (recovery_at(RecoverPhase::Awaiting, r.epoch), RecoverAction::Await)
        } else {
            failed(r.epoch, FlowFailure::Stale)
        },
        (RecoverPhase::Offering, RecoverFact::Failed(e)) => failed(r.epoch, e),
        (RecoverPhase::Awaiting, RecoverFact::Phase { awaiting }) => if awaiting {
            (r, RecoverAction::Await)
        } else {
            (recovery_at(RecoverPhase::Starting, r.epoch), RecoverAction::ReadEpoch)
        },
        (RecoverPhase::Awaiting, RecoverFact::Retry { current }) => if current {
            (recovery_at(RecoverPhase::Retrying, r.epoch), RecoverAction::BeginRetry)
        } else {
            (r, RecoverAction::Await)
        },
        (RecoverPhase::Awaiting, RecoverFact::Confirm { epoch, current }) => if current {
            (recovery_at(RecoverPhase::Checking, epoch), RecoverAction::CheckToken)
        } else {
            (r, RecoverAction::Await)
        },
        (RecoverPhase::Awaiting, RecoverFact::OtherRequest) => (r, RecoverAction::Await),
        (RecoverPhase::Retrying, RecoverFact::RetryBegun(begun)) => if begun {
            (recovery_at(RecoverPhase::Starting, r.epoch), RecoverAction::ReadEpoch)
        } else {
            failed(r.epoch, FlowFailure::Stale)
        },
        (RecoverPhase::Checking, RecoverFact::Token { taken, resynchronizing }) => if taken
            && resynchronizing {
            (
                recovery_at(RecoverPhase::Confirming, r.epoch),
                RecoverAction::Discover { epoch: r.epoch },
            )
        } else {
            stopped(r.epoch, StopReason::Outdated, FlowFailure::HerdrProtocol)
        },
        (RecoverPhase::Confirming, RecoverFact::Discovered { listed, current }) => if !current {
            failed(r.epoch, FlowFailure::Stale)
        } else {
            match listed {
                Listed::Session => (
                    recovery_at(RecoverPhase::Running, r.epoch),
                    RecoverAction::Run { epoch: r.epoch },
                ),
                _ => unlisted(r.epoch, listed),
            }
        },
        (RecoverPhase::Confirming, RecoverFact::Failed(e)) => left(r.epoch, e),
        (RecoverPhase::Running, RecoverFact::Ran) => (
            recovery_at(RecoverPhase::Ended, r.epoch),
            RecoverAction::Done,
        ),
        (RecoverPhase::Running, RecoverFact::Failed(e)) => left(r.epoch, e),
        (_, RecoverFact::Failed(e)) => failed(r.epoch, e),
        _ => failed(r.epoch, FlowFailure::Stale),
    }
}

fn recovery_to(phase: RecoverPhase, epoch: u64, action: RecoverAction) -> (r: (
    Recovery,
    RecoverAction,
))
    ensures
        r == (recovery_at(phase, epoch), action),
{
    (Recovery { phase, epoch }, action)
}

fn leave(epoch: u64, failure: FlowFailure) -> (r: (Recovery, RecoverAction))
    ensures
        r == left(epoch, failure),
{
    if is_recovery_local_failure(failure) {
        recovery_to(
            RecoverPhase::Ended,
            epoch,
            RecoverAction::Stop(StopReason::Because(failure), failure),
        )
    } else {
        recovery_to(RecoverPhase::Ended, epoch, RecoverAction::Fail(failure))
    }
}

fn stop(epoch: u64, reason: StopReason, failure: FlowFailure) -> (r: (Recovery, RecoverAction))
    ensures
        r == stopped(epoch, reason, failure),
{
    recovery_to(RecoverPhase::Ended, epoch, RecoverAction::Stop(reason, failure))
}

fn stop_unlisted(epoch: u64, listed: Listed) -> (r: (Recovery, RecoverAction))
    ensures
        r == unlisted(epoch, listed),
{
    if listed == Listed::OtherExecutable {
        stop(epoch, StopReason::Incompatible, FlowFailure::HerdrIncompatible)
    } else {
        stop(epoch, StopReason::SessionMissing, FlowFailure::HerdrSessionMissing)
    }
}

fn give_up(epoch: u64, failure: FlowFailure) -> (r: (Recovery, RecoverAction))
    ensures
        r == failed(epoch, failure),
{
    recovery_to(RecoverPhase::Ended, epoch, RecoverAction::Fail(failure))
}

impl Recovery {
    /// Begins a recovery.  Without a target it stops at once.
    pub fn begin(target: &RecoveryTarget) -> (r: (Self, RecoverAction))
        ensures
            r == (if *target is Missing {
                stopped(0, StopReason::TerminalMissing, FlowFailure::HerdrSessionMissing)
            } else {
                (recovery_at(RecoverPhase::Starting, 0), RecoverAction::ReadEpoch)
            }),
    {
        match target {
            RecoveryTarget::Missing => stop(
                0,
                StopReason::TerminalMissing,
                FlowFailure::HerdrSessionMissing,
            ),
            _ => recovery_to(RecoverPhase::Starting, 0, RecoverAction::ReadEpoch),
        }
    }

    /// Decides on what came back.
    pub fn advance(self, fact: RecoverFact) -> (r: (Self, RecoverAction))
        ensures
            r == recovered(self, fact),
    {
        let e: u64 = self.epoch;
        match (self.phase, fact) {
            (_, RecoverFact::Cancelled) => give_up(e, FlowFailure::Stale),
            (RecoverPhase::Starting, RecoverFact::Epoch { epoch, current }) => if current {
                recovery_to(RecoverPhase::Discovering, epoch, RecoverAction::Discover { epoch })
            } else {
                give_up(e, FlowFailure::Stale)
            },
            (RecoverPhase::Discovering, RecoverFact::Discovered { listed, .. }) => match listed {
                Listed::Session => recovery_to(
                    RecoverPhase::Offering,
                    e,
                    RecoverAction::Offer { epoch: e },
                ),
                _ => stop_unlisted(e, listed),
            },
            (RecoverPhase::Discovering, RecoverFact::Failed(failure))
            | (RecoverPhase::Confirming, RecoverFact::Failed(failure))
            | (RecoverPhase::Running, RecoverFact::Failed(failure)) => leave(e, failure),
            (RecoverPhase::Offering, RecoverFact::Offered { epoch }) => if epoch == e {
                recovery_to(RecoverPhase::Awaiting, e, RecoverAction::Await)
            } else {
                give_up(e, FlowFailure::Stale)
            },
            (RecoverPhase::Awaiting, RecoverFact::Phase { awaiting }) => if awaiting {
                (self, RecoverAction::Await)
            } else {
                recovery_to(RecoverPhase::Starting, e, RecoverAction::ReadEpoch)
            },
            (RecoverPhase::Awaiting, RecoverFact::Retry { current }) => if current {
                recovery_to(RecoverPhase::Retrying, e, RecoverAction::BeginRetry)
            } else {
                (self, RecoverAction::Await)
            },
            (RecoverPhase::Awaiting, RecoverFact::Confirm { epoch, current }) => if current {
                recovery_to(RecoverPhase::Checking, epoch, RecoverAction::CheckToken)
            } else {
                (self, RecoverAction::Await)
            },
            (RecoverPhase::Awaiting, RecoverFact::OtherRequest) => (self, RecoverAction::Await),
            (RecoverPhase::Retrying, RecoverFact::RetryBegun(begun)) => if begun {
                recovery_to(RecoverPhase::Starting, e, RecoverAction::ReadEpoch)
            } else {
                give_up(e, FlowFailure::Stale)
            },
            (RecoverPhase::Checking, RecoverFact::Token { taken, resynchronizing }) => if taken
                && resynchronizing {
                recovery_to(RecoverPhase::Confirming, e, RecoverAction::Discover { epoch: e })
            } else {
                stop(e, StopReason::Outdated, FlowFailure::HerdrProtocol)
            },
            (RecoverPhase::Confirming, RecoverFact::Discovered { listed, current }) => if !current {
                give_up(e, FlowFailure::Stale)
            } else {
                match listed {
                    Listed::Session => recovery_to(
                        RecoverPhase::Running,
                        e,
                        RecoverAction::Run { epoch: e },
                    ),
                    _ => stop_unlisted(e, listed),
                }
            },
            (RecoverPhase::Running, RecoverFact::Ran) => recovery_to(
                RecoverPhase::Ended,
                e,
                RecoverAction::Done,
            ),
            (_, RecoverFact::Failed(failure)) => give_up(e, failure),
            _ => give_up(e, FlowFailure::Stale),
        }
    }
}

/// The controller runs only in an epoch whose confirmation was taken while the
/// recovery was resynchronizing, and after the session was found once more in
/// that epoch.
pub proof fn law_nothing_runs_unconfirmed(before: Recovery, token: RecoverFact, found: RecoverFact)
    requires
        before.phase != RecoverPhase::Confirming,
        recovered(recovered(before, token).0, found).1 is Run,
    ensures
        before.phase == RecoverPhase::Checking,
        token == (RecoverFact::Token { taken: true, resynchronizing: true }),
        found == (RecoverFact::Discovered { listed: Listed::Session, current: true }),
        recovered(recovered(before, token).0, found).1 == (RecoverAction::Run {
            epoch: before.epoch,
        }),
{
}

/// A discovery after the confirmation counts for nothing once its epoch is
/// over: whatever it lists, the recovery is left without being stopped.
pub proof fn law_an_ended_epoch_stops_no_recovery(r: Recovery, listed: Listed)
    requires
        r.phase == RecoverPhase::Confirming,
    ensures
        recovered(r, RecoverFact::Discovered { listed, current: false }) == failed(
            r.epoch,
            FlowFailure::Stale,
        ),
{
}

/// A request or a confirmation of another epoch changes nothing.
pub proof fn law_outdated_requests_are_dropped(r: Recovery, epoch: u64)
    requires
        r.phase == RecoverPhase::Awaiting,
    ensures
        recovered(r, RecoverFact::Retry { current: false }) == (r, RecoverAction::Await),
        recovered(r, RecoverFact::Confirm { epoch, current: false }) == (r, RecoverAction::Await),
        recovered(r, RecoverFact::OtherRequest) == (r, RecoverAction::Await),
{
}

} // verus!
