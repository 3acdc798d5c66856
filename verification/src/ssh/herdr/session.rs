//! A Herdr session: whether it can be used, and how its topology is kept
//! coherent with the events that are subscribed to.

use vstd::prelude::*;

use crate::text;
use crate::ssh::herdr::json;
use crate::bytes;
use crate::bytes::{contains_bytes, starts_with};
use crate::ssh::flow::FlowFailure;
use crate::ssh::herdr::json::{has_member, is_json, read_flag, read_number, read_text};
use crate::ssh::herdr::wire::{
    HerdrGroup, HerdrSessionSnapshot, HerdrWorkspace, HERDR_PROTOCOL, HERDR_SCHEMA, HERDR_VERSION,
};
use crate::text::same_text;

verus! {

/// What a status report says.
#[derive(Debug, PartialEq, Eq)]
pub struct StatusReport {
    pub running: bool,
    pub version: Option<String>,
    pub server_protocol: Option<u64>,
    pub client_protocol: Option<u64>,
    /// Whether a schema is reported at all, and its number, if it is one.
    pub schema_reported: bool,
    pub schema: Option<u64>,
    pub socket: Option<String>,
    pub server_session: Option<String>,
    pub client_session: Option<String>,
}

/// The most bytes of a socket path.
pub const MAX_SOCKET_BYTES: usize = 4096;

pub open spec fn text_is(text: Option<String>, wanted: Seq<char>) -> bool {
    text is Some && text->0@ == wanted
}

/// The report speaks of the release that this client speaks with.
pub open spec fn compatible(report: StatusReport) -> bool {
    &&& text_is(report.version, HERDR_VERSION@)
    &&& report.server_protocol == Some(HERDR_PROTOCOL)
    &&& report.client_protocol == Some(HERDR_PROTOCOL)
    &&& report.schema_reported ==> report.schema == Some(HERDR_SCHEMA)
}

/// An absolute path that a stream can be opened to.
pub open spec fn usable_socket(path: Seq<char>) -> bool {
    &&& text::utf8("/"@).is_prefix_of(text::utf8(path))
    &&& text::utf8(path).len() <= MAX_SOCKET_BYTES
    &&& !bytes::occurs_in(seq![0u8], text::utf8(path))
}

/// The session that a report must name: none for the default one.
pub open spec fn names_session(session: Option<String>, runtime: Option<&str>) -> bool {
    match runtime {
        Some(name) => if name@ == "default"@ {
            session is None
        } else {
            session is Some && session->0@ == name@
        },
        None => session is None,
    }
}

pub open spec fn status_verdict(
    report: StatusReport,
    runtime: Option<&str>,
) -> Result<Seq<char>, FlowFailure> {
    if !report.running {
        Err(FlowFailure::HerdrSessionMissing)
    } else if !compatible(report) {
        Err(FlowFailure::HerdrIncompatible)
    } else if report.socket is None || !usable_socket(report.socket->0@) {
        Err(FlowFailure::HerdrProtocol)
    } else if !names_session(report.server_session, runtime) || !names_session(
        report.client_session,
        runtime,
    ) {
        Err(FlowFailure::HerdrIncompatible)
    } else {
        Ok(report.socket->0@)
    }
}

fn is_text(text: &Option<String>, wanted: &str) -> (r: bool)
    ensures
        r == text_is(*text, wanted@),
{
    match text {
        Some(text) => same_text(text.as_str(), wanted),
        None => false,
    }
}

fn is_number(number: Option<u64>, wanted: u64) -> (r: bool)
    ensures
        r == (number == Some(wanted)),
{
    match number {
        Some(number) => number == wanted,
        None => false,
    }
}

fn is_usable_socket(path: &str) -> (r: bool)
    ensures
        r == usable_socket(path@),
{
    let mut nul: Vec<u8> = Vec::new();
    nul.push(0);
    assert(nul@ =~= seq![0u8]);
    starts_with(path.as_bytes(), "/".as_bytes()) && path.as_bytes().len() <= MAX_SOCKET_BYTES
        && !contains_bytes(path.as_bytes(), nul.as_slice())
}

fn is_session(session: &Option<String>, runtime: Option<&str>) -> (r: bool)
    ensures
        r == names_session(*session, runtime),
{
    match runtime {
        Some(name) => if same_text(name, "default") {
            session.is_none()
        } else {
            is_text(session, name)
        },
        None => session.is_none(),
    }
}

pub open spec fn told_text(r: Result<String, FlowFailure>) -> Result<Seq<char>, FlowFailure> {
    match r {
        Ok(text) => Ok(text@),
        Err(e) => Err(e),
    }
}

/// Judges a status report.  Gives the socket of the API.
pub fn judge_status(report: &StatusReport, runtime: Option<&str>) -> (r:
    Result<String, FlowFailure>)
    ensures
        told_text(r) == status_verdict(*report, runtime),
{
    if !report.running {
        return Err(FlowFailure::HerdrSessionMissing);
    }
    if !is_text(&report.version, HERDR_VERSION) || !is_number(
        report.server_protocol,
        HERDR_PROTOCOL,
    ) || !is_number(report.client_protocol, HERDR_PROTOCOL) || (report.schema_reported
        && !is_number(report.schema, HERDR_SCHEMA)) {
        return Err(FlowFailure::HerdrIncompatible);
    }
    match &report.socket {
        Some(path) => {
            if !is_usable_socket(path.as_str()) {
                return Err(FlowFailure::HerdrProtocol);
            }
            if !is_session(&report.server_session, runtime) || !is_session(
                &report.client_session,
                runtime,
            ) {
                return Err(FlowFailure::HerdrIncompatible);
            }
            Ok(path.clone())
        },
        None => Err(FlowFailure::HerdrProtocol),
    }
}

/// The report in a status document.
pub open spec fn reports(document: Seq<u8>, report: StatusReport) -> bool {
    &&& report.running == (json::json_flag(document, "/server/running"@) == Some(true))
    &&& says(report.version, json::json_text(document, "/server/version"@))
    &&& report.server_protocol == json::json_number(document, "/server/protocol"@)
    &&& report.client_protocol == json::json_number(document, "/client/protocol"@)
    &&& report.schema_reported == (json::json_member(document, "/schema"@) || json::json_member(
        document,
        "/server/schema"@,
    ))
    &&& report.schema == (if json::json_member(document, "/schema"@) {
        json::json_number(document, "/schema"@)
    } else {
        json::json_number(document, "/server/schema"@)
    })
    &&& says(report.socket, json::json_text(document, "/server/socket"@))
    &&& says(report.server_session, json::json_text(document, "/server/session"@))
    &&& says(report.client_session, json::json_text(document, "/client/session"@))
}

pub open spec fn says(text: Option<String>, named: Option<Seq<char>>) -> bool {
    match text {
        Some(text) => named == Some(text@),
        None => named is None,
    }
}

fn read_report(document: &[u8]) -> (r: StatusReport)
    ensures
        reports(document@, r),
{
    let running = match read_flag(document, "/server/running") {
        Some(running) => running,
        None => false,
    };
    let top = has_member(document, "/schema");
    let below = has_member(document, "/server/schema");
    StatusReport {
        running,
        version: read_text(document, "/server/version"),
        server_protocol: read_number(document, "/server/protocol"),
        client_protocol: read_number(document, "/client/protocol"),
        schema_reported: top || below,
        schema: if top {
            read_number(document, "/schema")
        } else {
            read_number(document, "/server/schema")
        },
        socket: read_text(document, "/server/socket"),
        server_session: read_text(document, "/server/session"),
        client_session: read_text(document, "/client/session"),
    }
}

/// Reads and judges a status document.
pub fn check_status(document: &[u8], runtime: Option<&str>) -> (r: Result<
    String,
    FlowFailure,
>)
    ensures
        !json::json_valid(document@) ==> r == Err::<String, FlowFailure>(FlowFailure::HerdrProtocol),
        json::json_valid(document@) ==> exists|report: StatusReport| #[trigger]
            reports(document@, report) && told_text(r) == status_verdict(
                report,
                runtime,
            ),
{
    if !is_json(document) {
        return Err(FlowFailure::HerdrProtocol);
    }
    let report = read_report(document);
    judge_status(&report, runtime)
}

/// What the status probe's own failure means: a server that went away is a
/// missing session, not a fault of the host.
pub fn probe_failure(failure: FlowFailure) -> (r: FlowFailure)
    ensures
        r == (if failure == FlowFailure::HerdrOperation {
            FlowFailure::HerdrSessionMissing
        } else {
            failure
        }),
{
    if failure == FlowFailure::HerdrOperation {
        FlowFailure::HerdrSessionMissing
    } else {
        failure
    }
}

/// Why a command's exit status is a failure, if it is one.
pub open spec fn status_failure(status: Option<u32>) -> Option<FlowFailure> {
    if status == Some(0u32) {
        None
    } else if status == Some(127u32) {
        Some(FlowFailure::HerdrMissing)
    } else {
        Some(FlowFailure::HerdrOperation)
    }
}

/// What the exit status of a finished command says.
pub fn command_status(status: Option<u32>) -> (r: Result<(), FlowFailure>)
    ensures
        r == (match status_failure(status) {
            None => Ok::<(), FlowFailure>(()),
            Some(e) => Err(e),
        }),
{
    match status {
        Some(code) => if code == 0 {
            Ok(())
        } else if code == 127 {
            Err(FlowFailure::HerdrMissing)
        } else {
            Err(FlowFailure::HerdrOperation)
        },
        None => Err(FlowFailure::HerdrOperation),
    }
}

/// Whether a record of the subscription is an event.
pub fn is_event(record: &[u8]) -> (r: bool)
    ensures
        r == json::json_member(record@, "/event"@),
{
    has_member(record, "/event")
}

/// Whether a record of the terminal's stream says that it was released.
pub fn is_terminal_closed(record: &[u8]) -> (r: bool)
    ensures
        r == (json::json_text(record@, "/type"@) == Some("terminal.closed"@)),
{
    is_text(&read_text(record, "/type"), "terminal.closed")
}

/// Whether an answer holds a session snapshot.
pub fn is_session_snapshot(result: &[u8]) -> (r: bool)
    ensures
        r == (json::json_text(result@, "/type"@) == Some("session_snapshot"@)),
{
    is_text(&read_text(result, "/type"), "session_snapshot")
}

/// The stable terminal that an answer says was created.  Only a split reports
/// it as its pane.
pub fn created_terminal(result: &[u8], split: bool) -> (r: Option<String>)
    ensures
        says(
            r,
            if json::json_member(result@, "/root_pane"@) {
                json::json_text(result@, "/root_pane/terminal_id"@)
            } else if split && json::json_member(result@, "/pane"@) {
                json::json_text(result@, "/pane/terminal_id"@)
            } else {
                None
            },
        ),
{
    if has_member(result, "/root_pane") {
        read_text(result, "/root_pane/terminal_id")
    } else if split && has_member(result, "/pane") {
        read_text(result, "/pane/terminal_id")
    } else {
        None
    }
}

/// The events that every subscription asks for.
pub open spec fn topology_events() -> Seq<Seq<char>> {
    seq![
        "workspace.created"@,
        "workspace.updated"@,
        "workspace.renamed"@,
        "workspace.closed"@,
        "workspace.moved"@,
        "workspace.reordered"@,
        "tab.created"@,
        "tab.closed"@,
        "tab.renamed"@,
        "tab.moved"@,
        "pane.created"@,
        "pane.closed"@,
        "pane.updated"@,
        "pane.moved"@,
        "pane.exited"@,
        "pane.agent_detected"@,
    ]
}

/// One subscription: an event, and the pane it is limited to.
#[derive(Debug, PartialEq, Eq)]
pub struct Subscription {
    pub event: &'static str,
    pub pane: Option<String>,
}

pub struct SubscriptionView {
    pub event: Seq<char>,
    pub pane: Option<Seq<char>>,
}

pub open spec fn subscription_views(s: Seq<Subscription>) -> Seq<SubscriptionView> {
    Seq::new(
        s.len(),
        |i: int|
            SubscriptionView {
                event: s[i].event@,
                pane: match s[i].pane {
                    Some(pane) => Some(pane@),
                    None => None,
                },
            },
    )
}

/// The subscriptions for a set of panes: the topology, and the status of each
/// pane's agent.
pub open spec fn subscriptions_for(panes: Seq<String>) -> Seq<SubscriptionView> {
    Seq::new(
        topology_events().len(),
        |i: int| SubscriptionView { event: topology_events()[i], pane: None },
    ) + Seq::new(
        panes.len(),
        |i: int|
            SubscriptionView { event: "pane.agent_status_changed"@, pane: Some(panes[i]@) },
    )
}

fn push_topology(out: &mut Vec<Subscription>, event: &'static str)
    ensures
        final(out)@ == old(out)@.push(Subscription { event, pane: None }),
{
    out.push(Subscription { event, pane: None });
}

/// Lists the subscriptions for a set of panes.
pub fn subscriptions(panes: &Vec<String>) -> (r: Vec<Subscription>)
    ensures
        subscription_views(r@) == subscriptions_for(panes@),
{
    let mut out: Vec<Subscription> = Vec::new();
    push_topology(&mut out, "workspace.created");
    push_topology(&mut out, "workspace.updated");
    push_topology(&mut out, "workspace.renamed");
    push_topology(&mut out, "workspace.closed");
    push_topology(&mut out, "workspace.moved");
    push_topology(&mut out, "workspace.reordered");
    push_topology(&mut out, "tab.created");
    push_topology(&mut out, "tab.closed");
    push_topology(&mut out, "tab.renamed");
    push_topology(&mut out, "tab.moved");
    push_topology(&mut out, "pane.created");
    push_topology(&mut out, "pane.closed");
    push_topology(&mut out, "pane.updated");
    push_topology(&mut out, "pane.moved");
    push_topology(&mut out, "pane.exited");
    push_topology(&mut out, "pane.agent_detected");
    let ghost base = subscription_views(out@);
    assert(base =~= Seq::new(
        topology_events().len(),
        |i: int| SubscriptionView { event: topology_events()[i], pane: None },
    ));
    let mut i: usize = 0;
    while i < panes.len()
        invariant
            i <= panes@.len(),
            subscription_views(out@) == base + Seq::new(
                i as nat,
                |k: int|
                    SubscriptionView { event: "pane.agent_status_changed"@, pane: Some(panes@[k]@) },
            ),
        decreases panes@.len() - i,
    {
        let ghost before = subscription_views(out@);
        out.push(
            Subscription { event: "pane.agent_status_changed", pane: Some(panes[i].clone()) },
        );
        assert(subscription_views(out@) =~= before.push(
            SubscriptionView {
                event: "pane.agent_status_changed"@,
                pane: Some(panes@[i as int]@),
            },
        ));
        i = i + 1;
        assert(subscription_views(out@) =~= base + Seq::new(
            i as nat,
            |k: int|
                SubscriptionView { event: "pane.agent_status_changed"@, pane: Some(panes@[k]@) },
        ));
    }
    assert(subscription_views(out@) =~= subscriptions_for(panes@));
    out
}

/// The aliases of the panes of some tabs.
pub open spec fn group_aliases(groups: Seq<HerdrGroup>) -> Seq<Seq<char>>
    decreases groups.len(),
{
    if groups.len() == 0 {
        seq![]
    } else {
        group_aliases(groups.drop_last()) + Seq::new(
            groups.last().panes@.len(),
            |i: int| groups.last().panes@[i].pane_id@,
        )
    }
}

/// The aliases of all panes, in the snapshot's order, a repeated one each time.
pub open spec fn listed_aliases(workspaces: Seq<HerdrWorkspace>) -> Seq<Seq<char>>
    decreases workspaces.len(),
{
    if workspaces.len() == 0 {
        seq![]
    } else {
        listed_aliases(workspaces.drop_last()) + group_aliases(workspaces.last().groups@)
    }
}

/// The texts without repeats, each where it comes first.
pub open spec fn distinct(texts: Seq<Seq<char>>) -> Seq<Seq<char>>
    decreases texts.len(),
{
    if texts.len() == 0 {
        seq![]
    } else if distinct(texts.drop_last()).contains(texts.last()) {
        distinct(texts.drop_last())
    } else {
        distinct(texts.drop_last()).push(texts.last())
    }
}

/// The aliases of all panes, each once.
pub open spec fn aliases(workspaces: Seq<HerdrWorkspace>) -> Seq<Seq<char>> {
    distinct(listed_aliases(workspaces))
}

/// Without repeats, a list holds the same texts, and none twice.
pub proof fn lemma_distinct(texts: Seq<Seq<char>>)
    ensures
        distinct(texts).no_duplicates(),
        forall|t: Seq<char>| #[trigger] distinct(texts).contains(t) <==> texts.contains(t),
    decreases texts.len(),
{
    if texts.len() > 0 {
        let front = texts.drop_last();
        lemma_distinct(front);
        let kept = distinct(front);
        assert(texts == front.push(texts.last()));
        broadcast use vstd::seq_lib::group_seq_properties;

        assert forall|t: Seq<char>| #[trigger] distinct(texts).contains(t) <==> texts.contains(
            t,
        ) by {
            assert(front.push(texts.last()).contains(t) <==> front.contains(t) || t
                == texts.last());
            assert(kept.push(texts.last()).contains(t) <==> kept.contains(t) || t == texts.last());
        }
    }
}

pub open spec fn texts(v: Seq<String>) -> Seq<Seq<char>> {
    Seq::new(v.len(), |i: int| v[i]@)
}

fn push_aliases(out: &mut Vec<String>, groups: &Vec<HerdrGroup>, Ghost(seen): Ghost<Seq<Seq<char>>>)
    requires
        texts(old(out)@) == distinct(seen),
    ensures
        texts(final(out)@) == distinct(seen + group_aliases(groups@)),
{
    let mut g: usize = 0;
    assert(groups@.take(0) == Seq::<HerdrGroup>::empty());
    assert(seen + group_aliases(groups@.take(0)) =~= seen);
    while g < groups.len()
        invariant
            g <= groups@.len(),
            texts(out@) == distinct(seen + group_aliases(groups@.take(g as int))),
        decreases groups@.len() - g,
    {
        let panes = &groups[g].panes;
        let ghost before = seen + group_aliases(groups@.take(g as int));
        let mut p: usize = 0;
        assert(before + Seq::new(0, |i: int| panes@[i].pane_id@) =~= before);
        while p < panes.len()
            invariant
                g < groups@.len(),
                panes@ == groups@[g as int].panes@,
                p <= panes@.len(),
                texts(out@) == distinct(before + Seq::new(p as nat, |i: int| panes@[i].pane_id@)),
            decreases panes@.len() - p,
        {
            let ghost so_far = before + Seq::new(p as nat, |i: int| panes@[i].pane_id@);
            let ghost next = before + Seq::new((p + 1) as nat, |i: int| panes@[i].pane_id@);
            assert(next =~= so_far.push(panes@[p as int].pane_id@));
            assert(next.drop_last() =~= so_far);
            let ghost now = texts(out@);
            if !is_among(out, panes[p].pane_id.as_str()) {
                out.push(panes[p].pane_id.clone());
                assert(texts(out@) =~= now.push(panes@[p as int].pane_id@));
            }
            p = p + 1;
        }
        assert(groups@.take(g + 1).drop_last() == groups@.take(g as int));
        assert(groups@.take(g + 1).last() == groups@[g as int]);
        assert(before + Seq::new(p as nat, |i: int| panes@[i].pane_id@) =~= seen + group_aliases(
            groups@.take(g + 1),
        ));
        g = g + 1;
    }
    assert(groups@.take(g as int) == groups@);
}

/// Collects the aliases of all panes, each once.
pub fn pane_aliases(workspaces: &Vec<HerdrWorkspace>) -> (r: Vec<String>)
    ensures
        texts(r@) == aliases(workspaces@),
        texts(r@).no_duplicates(),
        forall|alias: Seq<char>| #[trigger]
            texts(r@).contains(alias) <==> listed_aliases(workspaces@).contains(alias),
{
    let mut out: Vec<String> = Vec::new();
    let mut w: usize = 0;
    assert(workspaces@.take(0) == Seq::<HerdrWorkspace>::empty());
    assert(texts(out@) =~= Seq::<Seq<char>>::empty());
    while w < workspaces.len()
        invariant
            w <= workspaces@.len(),
            texts(out@) == distinct(listed_aliases(workspaces@.take(w as int))),
        decreases workspaces@.len() - w,
    {
        push_aliases(
            &mut out,
            &workspaces[w].groups,
            Ghost(listed_aliases(workspaces@.take(w as int))),
        );
        assert(workspaces@.take(w + 1).drop_last() == workspaces@.take(w as int));
        w = w + 1;
    }
    assert(workspaces@.take(w as int) == workspaces@);
    proof {
        lemma_distinct(listed_aliases(workspaces@));
    }
    out
}

fn is_among(texts_of: &Vec<String>, wanted: &str) -> (r: bool)
    ensures
        r == texts(texts_of@).contains(wanted@),
{
    let mut i: usize = 0;
    while i < texts_of.len()
        invariant
            i <= texts_of@.len(),
            forall|k: int| 0 <= k < i ==> #[trigger] texts(texts_of@)[k] != wanted@,
        decreases texts_of@.len() - i,
    {
        assert(texts(texts_of@)[i as int] == texts_of@[i as int]@);
        if same_text(texts_of[i].as_str(), wanted) {
            assert(texts(texts_of@)[i as int] == wanted@);
            return true;
        }
        i = i + 1;
    }
    false
}

/// Every text of `a` is one of `b`.
pub open spec fn within(a: Seq<Seq<char>>, b: Seq<Seq<char>>) -> bool {
    forall|i: int| 0 <= i < a.len() ==> b.contains(#[trigger] a[i])
}

fn is_within(a: &Vec<String>, b: &Vec<String>) -> (r: bool)
    ensures
        r == within(texts(a@), texts(b@)),
{
    let mut i: usize = 0;
    while i < a.len()
        invariant
            i <= a@.len(),
            forall|k: int| 0 <= k < i ==> texts(b@).contains(#[trigger] texts(a@)[k]),
        decreases a@.len() - i,
    {
        if !is_among(b, a[i].as_str()) {
            assert(texts(a@)[i as int] == a@[i as int]@);
            return false;
        }
        assert(texts(a@)[i as int] == a@[i as int]@);
        i = i + 1;
    }
    true
}

/// How often a topology that keeps changing is read before the connection
/// gives up on a coherent baseline.
pub const MAX_SYNC_ROUNDS: u32 = 8;

/// What follows the reading of a snapshot.
#[derive(Clone, Copy, Debug, PartialEq, Eq, Structural)]
pub enum RoundStep {
    /// The subscription covers exactly these panes.
    Apply,
    /// Subscribe to these panes and read again.
    Resubscribe,
    Fail(FlowFailure),
}

/// Decides on a snapshot.  It is applied only with a subscription for exactly
/// its panes, so that no status event between the two is lost.
pub fn sync_round(
    round: u32,
    snapshot: &HerdrSessionSnapshot,
    subscribed: &Vec<String>,
) -> (r: RoundStep)
    ensures
        r == (if round >= MAX_SYNC_ROUNDS {
            RoundStep::Fail(FlowFailure::Transport)
        } else if snapshot.version@ != HERDR_VERSION@ || snapshot.protocol != HERDR_PROTOCOL {
            RoundStep::Fail(FlowFailure::HerdrIncompatible)
        } else if within(aliases(snapshot.workspaces@), texts(subscribed@)) && within(
            texts(subscribed@),
            aliases(snapshot.workspaces@),
        ) {
            RoundStep::Apply
        } else {
            RoundStep::Resubscribe
        }),
{
    if round >= MAX_SYNC_ROUNDS {
        return RoundStep::Fail(FlowFailure::Transport);
    }
    if !same_text(snapshot.version.as_str(), HERDR_VERSION) || snapshot.protocol
        != HERDR_PROTOCOL {
        return RoundStep::Fail(FlowFailure::HerdrIncompatible);
    }
    let shown = pane_aliases(&snapshot.workspaces);
    if is_within(&shown, subscribed) && is_within(subscribed, &shown) {
        RoundStep::Apply
    } else {
        RoundStep::Resubscribe
    }
}

/// What the controller does next.
#[derive(Clone, Copy, Debug, PartialEq, Eq, Structural)]
pub enum HerdrTurn {
    /// Give the terminal back and leave.
    Leave(FlowFailure),
    Wait,
}

/// Decides on the controller's next turn; a cancellation comes first.
pub fn herdr_turn(cancelled: bool, explicit_end: bool, recovery_requires_exit: bool) -> (r:
    HerdrTurn)
    ensures
        r == (if cancelled || explicit_end {
            HerdrTurn::Leave(FlowFailure::Stale)
        } else if recovery_requires_exit {
            HerdrTurn::Leave(FlowFailure::Transport)
        } else {
            HerdrTurn::Wait
        }),
{
    if cancelled || explicit_end {
        HerdrTurn::Leave(FlowFailure::Stale)
    } else if recovery_requires_exit {
        HerdrTurn::Leave(FlowFailure::Transport)
    } else {
        HerdrTurn::Wait
    }
}

/// What a resize asks for.
#[derive(Clone, Copy, Debug, PartialEq, Eq, Structural)]
pub enum ResizeStep {
    /// The binding is gone: stop watching it.
    StopWatching,
    Ignore,
    /// Keep the size and tell the terminal.
    Send { columns: u16, rows: u16 },
}

/// Decides on a resize of the attached terminal.
pub fn resize_step(size: Option<(u16, u16)>, attached: bool, input_ready: bool) -> (r: ResizeStep)
    ensures
        r == (match size {
            None => ResizeStep::StopWatching,
            Some((columns, rows)) => if attached && input_ready {
                ResizeStep::Send { columns, rows }
            } else {
                ResizeStep::Ignore
            },
        }),
{
    match size {
        None => ResizeStep::StopWatching,
        Some((columns, rows)) => if attached && input_ready {
            ResizeStep::Send { columns, rows }
        } else {
            ResizeStep::Ignore
        },
    }
}

} // verus!
