//! Authoritative topology: reading it, judging it, and committing it.

use std::collections::HashMap;
use vstd::prelude::*;

use crate::tmux::snapshot;
use crate::tmux::records;
use crate::tmux::decoder;
use crate::ssh::state;
use crate::ssh::selection;
use crate::bytes;
use crate::bytes::{split_bytes, Delimiter};
use crate::ssh::flow::FlowFailure;
use crate::ssh::selection::is_window_zoomed;
use crate::ssh::state::SessionState;
use crate::text::same_text;
use crate::tmux::decoder::CommandBlock;
use crate::tmux::records::{
    parse_pane_line, parse_session_line, parse_topology_line, parse_window_line, PaneInfo,
    PaneInfoView, SessionIdentity, SessionIdentityView, WindowInfo, WindowInfoView, WindowTopology,
    WindowTopologyView,
};
use crate::tmux::snapshot::{
    PaneSnapshot, PaneSnapshotView, SessionSnapshot, SessionSnapshotView, WindowSnapshot,
    WindowSnapshotView, MAX_RUNTIME_SESSIONS,
};

verus! {

/// The entry belongs to the session, by its id or by its name.
pub open spec fn of_session(t: WindowTopology, session: Seq<char>) -> bool {
    t.session_id@ == session || t.session_name@ == session
}

/// The session has the window, and no entry of it is linked elsewhere.
pub open spec fn window_is_private(
    topologies: Seq<WindowTopology>,
    session: Seq<char>,
    window_id: u64,
) -> bool {
    &&& exists|i: int|
        0 <= i < topologies.len() && of_session(#[trigger] topologies[i], session)
            && topologies[i].window_id == window_id
    &&& forall|i: int|
        0 <= i < topologies.len() && of_session(#[trigger] topologies[i], session)
            && topologies[i].window_id == window_id ==> topologies[i].linked_sessions <= 1
}

/// The session has a window, and none of its windows is linked elsewhere.
pub open spec fn session_is_private(
    topologies: Seq<WindowTopology>,
    session: Seq<char>,
) -> bool {
    &&& exists|i: int| 0 <= i < topologies.len() && of_session(#[trigger] topologies[i], session)
    &&& forall|i: int|
        0 <= i < topologies.len() && of_session(#[trigger] topologies[i], session)
            ==> topologies[i].linked_sessions <= 1
}

fn belongs(t: &WindowTopology, session: &str) -> (r: bool)
    ensures
        r == of_session(*t, session@),
{
    same_text(t.session_id.as_str(), session) || same_text(t.session_name.as_str(), session)
}

/// Whether a mutation of this window reaches no other session.  A window
/// that was not observed is not safe.
pub fn topology_is_safe(
    topologies: &[WindowTopology],
    selected_session: &str,
    window_id: u64,
) -> (r: bool)
    ensures
        r == window_is_private(topologies@, selected_session@, window_id),
{
    let mut observed: bool = false;
    let mut i: usize = 0;
    while i < topologies.len()
        invariant
            i <= topologies@.len(),
            observed == exists|j: int|
                0 <= j < i && of_session(#[trigger] topologies@[j], selected_session@)
                    && topologies@[j].window_id == window_id,
            forall|j: int|
                0 <= j < i && of_session(#[trigger] topologies@[j], selected_session@)
                    && topologies@[j].window_id == window_id ==> topologies@[j].linked_sessions
                    <= 1,
        decreases topologies@.len() - i,
    {
        let topology = &topologies[i];
        if belongs(topology, selected_session) && topology.window_id == window_id {
            assert(of_session(topologies@[i as int], selected_session@));
            observed = true;
            if topology.linked_sessions > 1 {
                return false;
            }
        }
        i = i + 1;
    }
    observed
}

/// Whether a mutation of this session reaches no other session.
pub fn topology_session_is_safe(topologies: &[WindowTopology], selected_session: &str) -> (r: bool)
    ensures
        r == session_is_private(topologies@, selected_session@),
{
    let mut observed: bool = false;
    let mut i: usize = 0;
    while i < topologies.len()
        invariant
            i <= topologies@.len(),
            observed == exists|j: int|
                0 <= j < i && of_session(#[trigger] topologies@[j], selected_session@),
            forall|j: int|
                0 <= j < i && of_session(#[trigger] topologies@[j], selected_session@)
                    ==> topologies@[j].linked_sessions <= 1,
        decreases topologies@.len() - i,
    {
        let topology = &topologies[i];
        if belongs(topology, selected_session) {
            assert(of_session(topologies@[i as int], selected_session@));
            observed = true;
            if topology.linked_sessions > 1 {
                return false;
            }
        }
        i = i + 1;
    }
    observed
}

/// The lines of every block, in their order.
pub open spec fn block_lines(blocks: Seq<CommandBlock>) -> Seq<Seq<u8>>
    decreases blocks.len(),
{
    if blocks.len() == 0 {
        seq![]
    } else {
        block_lines(blocks.drop_last()) + bytes::views(blocks.last().lines@)
    }
}

/// The panes that lines describe; a line that cannot be read spoils all.
pub open spec fn pane_lines(lines: Seq<Seq<u8>>) -> Result<Seq<PaneInfoView>, FlowFailure>
    decreases lines.len(),
{
    if lines.len() == 0 {
        Ok(seq![])
    } else {
        match (pane_lines(lines.drop_last()), records::pane_line(lines.last())) {
            (Ok(front), Ok(pane)) => Ok(front.push(pane)),
            _ => Err(FlowFailure::TmuxProtocol),
        }
    }
}

pub open spec fn window_lines(lines: Seq<Seq<u8>>) -> Result<Seq<WindowInfoView>, FlowFailure>
    decreases lines.len(),
{
    if lines.len() == 0 {
        Ok(seq![])
    } else {
        match (window_lines(lines.drop_last()), records::window_line(lines.last())) {
            (Ok(front), Ok(window)) => Ok(front.push(window)),
            _ => Err(FlowFailure::TmuxProtocol),
        }
    }
}

pub open spec fn topology_lines(lines: Seq<Seq<u8>>) -> Result<
    Seq<WindowTopologyView>,
    FlowFailure,
>
    decreases lines.len(),
{
    if lines.len() == 0 {
        Ok(seq![])
    } else {
        match (topology_lines(lines.drop_last()), records::topology_line(lines.last())) {
            (Ok(front), Ok(entry)) => Ok(front.push(entry)),
            _ => Err(FlowFailure::TmuxTopologyUnsafe),
        }
    }
}

pub open spec fn pane_info_views(panes: Seq<PaneInfo>) -> Seq<PaneInfoView> {
    Seq::new(panes.len(), |i: int| panes[i]@)
}

pub open spec fn window_info_views(windows: Seq<WindowInfo>) -> Seq<WindowInfoView> {
    Seq::new(windows.len(), |i: int| windows[i]@)
}

pub open spec fn topology_views(entries: Seq<WindowTopology>) -> Seq<WindowTopologyView> {
    Seq::new(entries.len(), |i: int| entries[i]@)
}

proof fn lemma_pane_lines_bad(lines: Seq<Seq<u8>>, i: int)
    requires
        0 <= i < lines.len(),
        records::pane_line(lines[i]) is Err,
    ensures
        pane_lines(lines) == Err::<Seq<PaneInfoView>, FlowFailure>(FlowFailure::TmuxProtocol),
    decreases lines.len(),
{
    if i < lines.len() - 1 {
        assert(lines.drop_last()[i] == lines[i]);
        lemma_pane_lines_bad(lines.drop_last(), i);
    }
}

proof fn lemma_window_lines_bad(lines: Seq<Seq<u8>>, i: int)
    requires
        0 <= i < lines.len(),
        records::window_line(lines[i]) is Err,
    ensures
        window_lines(lines) == Err::<Seq<WindowInfoView>, FlowFailure>(FlowFailure::TmuxProtocol),
    decreases lines.len(),
{
    if i < lines.len() - 1 {
        assert(lines.drop_last()[i] == lines[i]);
        lemma_window_lines_bad(lines.drop_last(), i);
    }
}

proof fn lemma_topology_lines_bad(lines: Seq<Seq<u8>>, i: int)
    requires
        0 <= i < lines.len(),
        records::topology_line(lines[i]) is Err,
    ensures
        topology_lines(lines) == Err::<Seq<WindowTopologyView>, FlowFailure>(
            FlowFailure::TmuxTopologyUnsafe,
        ),
    decreases lines.len(),
{
    if i < lines.len() - 1 {
        assert(lines.drop_last()[i] == lines[i]);
        lemma_topology_lines_bad(lines.drop_last(), i);
    }
}

pub fn parse_panes(lines: &Vec<Vec<u8>>) -> (r: Result<Vec<PaneInfo>, FlowFailure>)
    ensures
        match r {
            Ok(panes) => pane_lines(bytes::views(lines@)) == Ok::<Seq<PaneInfoView>, FlowFailure>(
                pane_info_views(panes@),
            ),
            Err(e) => pane_lines(bytes::views(lines@)) == Err::<Seq<PaneInfoView>, FlowFailure>(e),
        },
{
    let mut panes: Vec<PaneInfo> = Vec::new();
    let mut i: usize = 0;
    assert(bytes::views(lines@).take(0) == Seq::<Seq<u8>>::empty());
    assert(pane_info_views(panes@) == Seq::<PaneInfoView>::empty());
    while i < lines.len()
        invariant
            i <= lines@.len(),
            pane_lines(bytes::views(lines@).take(i as int)) == Ok::<Seq<PaneInfoView>, FlowFailure>(
                pane_info_views(panes@),
            ),
        decreases lines@.len() - i,
    {
        let ghost part = bytes::views(lines@).take(i + 1);
        assert(part.drop_last() == bytes::views(lines@).take(i as int));
        assert(part.last() == lines@[i as int]@);
        let ghost before = panes@;
        match parse_pane_line(lines[i].as_slice()) {
            Ok(pane) => {
                panes.push(pane);
                assert(pane_info_views(panes@) == pane_info_views(before).push(pane@));
            },
            Err(_) => {
                proof {
                    lemma_pane_lines_bad(bytes::views(lines@), i as int);
                }
                return Err(FlowFailure::TmuxProtocol);
            },
        }
        i = i + 1;
    }
    assert(bytes::views(lines@).take(i as int) == bytes::views(lines@));
    Ok(panes)
}

pub fn parse_windows(lines: &Vec<Vec<u8>>) -> (r: Result<Vec<WindowInfo>, FlowFailure>)
    ensures
        match r {
            Ok(windows) => window_lines(bytes::views(lines@)) == Ok::<Seq<WindowInfoView>, FlowFailure>(
                window_info_views(windows@),
            ),
            Err(e) => window_lines(bytes::views(lines@)) == Err::<Seq<WindowInfoView>, FlowFailure>(e),
        },
{
    let mut windows: Vec<WindowInfo> = Vec::new();
    let mut i: usize = 0;
    assert(bytes::views(lines@).take(0) == Seq::<Seq<u8>>::empty());
    assert(window_info_views(windows@) == Seq::<WindowInfoView>::empty());
    while i < lines.len()
        invariant
            i <= lines@.len(),
            window_lines(bytes::views(lines@).take(i as int)) == Ok::<Seq<WindowInfoView>, FlowFailure>(
                window_info_views(windows@),
            ),
        decreases lines@.len() - i,
    {
        let ghost part = bytes::views(lines@).take(i + 1);
        assert(part.drop_last() == bytes::views(lines@).take(i as int));
        assert(part.last() == lines@[i as int]@);
        let ghost before = windows@;
        match parse_window_line(lines[i].as_slice()) {
            Ok(window) => {
                windows.push(window);
                assert(window_info_views(windows@) == window_info_views(before).push(window@));
            },
            Err(_) => {
                proof {
                    lemma_window_lines_bad(bytes::views(lines@), i as int);
                }
                return Err(FlowFailure::TmuxProtocol);
            },
        }
        i = i + 1;
    }
    assert(bytes::views(lines@).take(i as int) == bytes::views(lines@));
    Ok(windows)
}

/// The topology of one reply: exactly one block, and every line readable.
pub open spec fn topology_reply(blocks: Seq<CommandBlock>) -> Result<
    Seq<WindowTopologyView>,
    FlowFailure,
> {
    if blocks.len() != 1 {
        Err(FlowFailure::TmuxTopologyUnsafe)
    } else {
        topology_lines(bytes::views(blocks[0].lines@))
    }
}

pub fn read_topology(blocks: &Vec<CommandBlock>) -> (r: Result<Vec<WindowTopology>, FlowFailure>)
    ensures
        match r {
            Ok(entries) => topology_reply(blocks@) == Ok::<Seq<WindowTopologyView>, FlowFailure>(
                topology_views(entries@),
            ),
            Err(e) => topology_reply(blocks@) == Err::<Seq<WindowTopologyView>, FlowFailure>(e),
        },
{
    if blocks.len() != 1 {
        return Err(FlowFailure::TmuxTopologyUnsafe);
    }
    let lines = &blocks[0].lines;
    let mut entries: Vec<WindowTopology> = Vec::new();
    let mut i: usize = 0;
    assert(bytes::views(lines@).take(0) == Seq::<Seq<u8>>::empty());
    assert(topology_views(entries@) == Seq::<WindowTopologyView>::empty());
    while i < lines.len()
        invariant
            i <= lines@.len(),
            topology_lines(bytes::views(lines@).take(i as int)) == Ok::<
                Seq<WindowTopologyView>,
                FlowFailure,
            >(topology_views(entries@)),
            blocks@.len() == 1,
            *lines == blocks@[0].lines,
        decreases lines@.len() - i,
    {
        let ghost part = bytes::views(lines@).take(i + 1);
        assert(part.drop_last() == bytes::views(lines@).take(i as int));
        assert(part.last() == lines@[i as int]@);
        let ghost before = entries@;
        match parse_topology_line(lines[i].as_slice()) {
            Ok(entry) => {
                entries.push(entry);
                assert(topology_views(entries@) == topology_views(before).push(entry@));
            },
            Err(_) => {
                proof {
                    lemma_topology_lines_bad(bytes::views(lines@), i as int);
                }
                return Err(FlowFailure::TmuxTopologyUnsafe);
            },
        }
        i = i + 1;
    }
    assert(bytes::views(lines@).take(i as int) == bytes::views(lines@));
    Ok(entries)
}

fn copied(lines: &Vec<Vec<u8>>, out: &mut Vec<Vec<u8>>)
    ensures
        bytes::views(final(out)@) == bytes::views(old(out)@) + bytes::views(lines@),
{
    let ghost start = out@;
    let mut i: usize = 0;
    assert(bytes::views(out@) == bytes::views(start) + bytes::views(lines@).take(0));
    while i < lines.len()
        invariant
            i <= lines@.len(),
            bytes::views(out@) == bytes::views(start) + bytes::views(lines@).take(i as int),
        decreases lines@.len() - i,
    {
        let ghost before = out@;
        let line = vstd::slice::slice_to_vec(lines[i].as_slice());
        out.push(line);
        assert(bytes::views(out@) == bytes::views(before).push(line@));
        assert(bytes::views(lines@).take(i + 1) == bytes::views(lines@).take(i as int).push(lines@[i as int]@));
        i = i + 1;
        assert(bytes::views(out@) =~= bytes::views(start) + bytes::views(lines@).take(i as int));
    }
    assert(bytes::views(lines@).take(i as int) == bytes::views(lines@));
}

/// The lines of every block of a reply.
pub fn all_lines(blocks: &Vec<CommandBlock>) -> (r: Vec<Vec<u8>>)
    ensures
        bytes::views(r@) == block_lines(blocks@),
{
    let mut out: Vec<Vec<u8>> = Vec::new();
    let mut i: usize = 0;
    assert(blocks@.take(0) == Seq::<CommandBlock>::empty());
    assert(bytes::views(out@) == Seq::<Seq<u8>>::empty());
    while i < blocks.len()
        invariant
            i <= blocks@.len(),
            bytes::views(out@) == block_lines(blocks@.take(i as int)),
        decreases blocks@.len() - i,
    {
        assert(blocks@.take(i + 1).drop_last() == blocks@.take(i as int));
        copied(&blocks[i].lines, &mut out);
        i = i + 1;
    }
    assert(blocks@.take(i as int) == blocks@);
    out
}

/// Lines joined by line feeds.
pub open spec fn joined_lines(lines: Seq<Seq<u8>>) -> Seq<u8>
    decreases lines.len(),
{
    if lines.len() == 0 {
        seq![]
    } else if lines.len() == 1 {
        lines[0]
    } else {
        joined_lines(lines.drop_last()) + seq![0x0au8] + lines.last()
    }
}

/// The lines of a reply as one listing.
pub fn joined_reply(blocks: &Vec<CommandBlock>) -> (r: Vec<u8>)
    ensures
        r@ == joined_lines(block_lines(blocks@)),
{
    let lines = all_lines(blocks);
    let ghost all = bytes::views(lines@);
    let mut out: Vec<u8> = Vec::new();
    let mut i: usize = 0;
    assert(all.take(0) == Seq::<Seq<u8>>::empty());
    while i < lines.len()
        invariant
            i <= lines@.len(),
            all == bytes::views(lines@),
            out@ == joined_lines(all.take(i as int)),
        decreases lines@.len() - i,
    {
        let ghost part = all.take(i + 1);
        assert(part.drop_last() == all.take(i as int));
        assert(part.last() == lines@[i as int]@);
        let ghost before = out@;
        if i > 0 {
            out.push(0x0a);
        }
        let mut line = vstd::slice::slice_to_vec(lines[i].as_slice());
        out.append(&mut line);
        if i == 0 {
            assert(part[0] == lines@[0]@);
            assert(out@ =~= part[0]);
        } else {
            assert(out@ =~= before + seq![0x0au8] + part.last());
        }
        i = i + 1;
    }
    assert(all.take(i as int) == all);
    out
}

/// The panes of a cleanup reply.
pub fn parse_cleanup_panes(blocks: &Vec<CommandBlock>) -> (r: Result<Vec<PaneInfo>, FlowFailure>)
    ensures
        match r {
            Ok(panes) => pane_lines(block_lines(blocks@)) == Ok::<Seq<PaneInfoView>, FlowFailure>(
                pane_info_views(panes@),
            ),
            Err(e) => pane_lines(block_lines(blocks@)) == Err::<Seq<PaneInfoView>, FlowFailure>(e),
        },
{
    let lines = all_lines(blocks);
    parse_panes(&lines)
}

/// The sessions that a listing describes.  Blank lines are skipped; more
/// sessions than fit, an unreadable line, or an id or a name that occurs
/// twice spoil the listing.
pub open spec fn session_list(lines: Seq<Seq<u8>>) -> Option<Seq<SessionIdentityView>>
    decreases lines.len(),
{
    if lines.len() == 0 {
        Some(seq![])
    } else {
        match session_list(lines.drop_last()) {
            None => None,
            Some(front) => {
                let line = decoder::without_cr(lines.last());
                if line.len() == 0 {
                    Some(front)
                } else if front.len() >= MAX_RUNTIME_SESSIONS {
                    None
                } else {
                    match records::session_line(line) {
                        Err(_) => None,
                        Ok(identity) => if repeats(front, identity) {
                            None
                        } else {
                            Some(front.push(identity))
                        },
                    }
                }
            },
        }
    }
}

/// An earlier session has the same id or the same name.
pub open spec fn repeats(
    front: Seq<SessionIdentityView>,
    identity: SessionIdentityView,
) -> bool {
    exists|i: int|
        0 <= i < front.len() && ((#[trigger] front[i]).session_id == identity.session_id
            || front[i].name == identity.name)
}

pub open spec fn identity_views(v: Seq<SessionIdentity>) -> Seq<SessionIdentityView> {
    Seq::new(v.len(), |i: int| v[i]@)
}

proof fn lemma_session_list_bad(lines: Seq<Seq<u8>>, k: int)
    requires
        0 <= k <= lines.len(),
        session_list(lines.take(k)) is None,
    ensures
        session_list(lines) is None,
    decreases lines.len() - k,
{
    if k < lines.len() {
        assert(lines.take(k + 1).drop_last() == lines.take(k));
        lemma_session_list_bad(lines, k + 1);
    } else {
        assert(lines.take(k) == lines);
    }
}

/// Parses the output of the session listing.
pub fn parse_sessions(bytes: &[u8]) -> (r: Result<Vec<SessionIdentity>, FlowFailure>)
    ensures
        match r {
            Ok(sessions) => session_list(bytes::split(bytes@, Delimiter::Byte(0x0a))) == Some(
                identity_views(sessions@),
            ),
            Err(e) => e == FlowFailure::TmuxDiscoveryMalformed && session_list(
                bytes::split(bytes@, Delimiter::Byte(0x0a)),
            ) is None,
        },
{
    let lines = split_bytes(bytes, Delimiter::Byte(0x0a));
    let ghost all = bytes::views(lines@);
    let mut sessions: Vec<SessionIdentity> = Vec::new();
    let mut i: usize = 0;
    assert(all.take(0) == Seq::<Seq<u8>>::empty());
    assert(identity_views(sessions@) == Seq::<SessionIdentityView>::empty());
    while i < lines.len()
        invariant
            i <= lines@.len(),
            all == bytes::views(lines@),
            all == bytes::split(bytes@, Delimiter::Byte(0x0a)),
            session_list(all.take(i as int)) == Some(identity_views(sessions@)),
        decreases lines@.len() - i,
    {
        let ghost part = all.take(i + 1);
        assert(part.drop_last() == all.take(i as int));
        assert(part.last() == lines@[i as int]@);
        let mut line = vstd::slice::slice_to_vec(lines[i].as_slice());
        if line.len() > 0 && line[line.len() - 1] == 0x0d {
            let _ = line.pop();
        }
        assert(line@ == decoder::without_cr(part.last()));
        if line.len() > 0 {
            if sessions.len() >= MAX_RUNTIME_SESSIONS {
                proof {
                    lemma_session_list_bad(all, i + 1);
                }
                return Err(FlowFailure::TmuxDiscoveryMalformed);
            }
            let identity = match parse_session_line(line.as_slice()) {
                Ok(identity) => identity,
                Err(_) => {
                    proof {
                        lemma_session_list_bad(all, i + 1);
                    }
                    return Err(FlowFailure::TmuxDiscoveryMalformed);
                },
            };
            if seen(&sessions, &identity) {
                proof {
                    lemma_session_list_bad(all, i + 1);
                }
                return Err(FlowFailure::TmuxDiscoveryMalformed);
            }
            let ghost before = sessions@;
            sessions.push(identity);
            assert(identity_views(sessions@) == identity_views(before).push(identity@));
        }
        i = i + 1;
    }
    assert(all.take(i as int) == all);
    Ok(sessions)
}

fn seen(sessions: &Vec<SessionIdentity>, identity: &SessionIdentity) -> (r: bool)
    ensures
        r == repeats(identity_views(sessions@), identity@),
{
    let mut i: usize = 0;
    while i < sessions.len()
        invariant
            i <= sessions@.len(),
            forall|j: int|
                0 <= j < i ==> (#[trigger] identity_views(sessions@)[j]).session_id
                    != identity@.session_id && identity_views(sessions@)[j].name != identity@.name,
        decreases sessions@.len() - i,
    {
        if sessions[i].session_id == identity.session_id || sessions[i].name == identity.name {
            assert(identity_views(sessions@)[i as int] == sessions@[i as int]@);
            return true;
        }
        i = i + 1;
    }
    false
}

/// The sessions of a readable listing differ in id and in name, and are no
/// more than fit.
pub proof fn law_listed_sessions_are_distinct(lines: Seq<Seq<u8>>)
    requires
        session_list(lines) is Some,
    ensures
        session_list(lines)->0.len() <= MAX_RUNTIME_SESSIONS,
        forall|i: int, j: int|
            0 <= i < j < session_list(lines)->0.len() ==> (#[trigger] session_list(
                lines,
            )->0[i]).session_id != (#[trigger] session_list(lines)->0[j]).session_id
                && session_list(lines)->0[i].name != session_list(lines)->0[j].name,
    decreases lines.len(),
{
    if lines.len() > 0 {
        law_listed_sessions_are_distinct(lines.drop_last());
        let front = session_list(lines.drop_last())->0;
        let all = session_list(lines)->0;
        assert forall|i: int, j: int| 0 <= i < j < all.len() implies (#[trigger] all[i]).session_id
            != (#[trigger] all[j]).session_id && all[i].name != all[j].name by {
            assert(all[i] == front[i]);
            if j < front.len() {
                assert(all[j] == front[j]);
            }
        }
    }
}

/// The panes of one window, in their order.
pub open spec fn panes_in(flat: Seq<PaneSnapshotView>, window: u64) -> Seq<PaneSnapshotView>
    decreases flat.len(),
{
    if flat.len() == 0 {
        seq![]
    } else if flat.last().window_id == window {
        panes_in(flat.drop_last(), window).push(flat.last())
    } else {
        panes_in(flat.drop_last(), window)
    }
}

/// A window with its panes.
pub open spec fn window_snapshot(
    window: WindowInfo,
    panes: Seq<PaneInfo>,
    flat: Seq<PaneSnapshotView>,
) -> WindowSnapshotView {
    WindowSnapshotView {
        window_id: window.window_id,
        name: window.name@,
        panes: panes_in(flat, window.window_id),
        selected: exists|i: int|
            0 <= i < flat.len() && (#[trigger] flat[i]).window_id == window.window_id
                && flat[i].selected,
        zoomed: selection::window_zoomed(panes, window.window_id),
    }
}

/// The snapshot of a topology.
pub open spec fn topology_snapshot(
    windows: Seq<WindowInfo>,
    panes: Seq<PaneInfo>,
    flat: Seq<PaneSnapshotView>,
    selected: u64,
) -> SessionSnapshotView {
    SessionSnapshotView {
        windows: Seq::new(windows.len(), |i: int| window_snapshot(windows[i], panes, flat)),
        panes: flat,
        selected_pane: Some(selected),
    }
}

/// The first zoomed pane of a window.
pub open spec fn first_zoomed(panes: Seq<PaneInfo>, window: u64) -> Option<u64>
    decreases panes.len(),
{
    if panes.len() == 0 {
        None
    } else if panes[0].window_id == window && panes[0].zoomed {
        Some(panes[0].pane_id)
    } else {
        first_zoomed(panes.skip(1), window)
    }
}

/// The pane is one of the zoomed panes of the window.
pub open spec fn zoomed_in(panes: Seq<PaneInfo>, window: u64, pane: u64) -> bool {
    exists|i: int|
        0 <= i < panes.len() && (#[trigger] panes[i]).window_id == window && panes[i].zoomed
            && panes[i].pane_id == pane
}

/// Who owns which zoom once a topology was read.  Ownership stays with the
/// window as long as the window is there and zoomed; the pane follows.
pub open spec fn ownership_after(
    before: (bool, Option<u64>, Option<u64>),
    windows: Seq<WindowInfo>,
    panes: Seq<PaneInfo>,
    selected: u64,
) -> (bool, Option<u64>, Option<u64>) {
    if !before.0 {
        (false, None, before.2)
    } else {
        match before.1 {
            None => (false, None, None),
            Some(window) => if !(exists|i: int|
                0 <= i < windows.len() && (#[trigger] windows[i]).window_id == window)
                || !selection::window_zoomed(panes, window) {
                (false, None, None)
            } else if before.2 is Some && zoomed_in(panes, window, before.2->0) {
                before
            } else if zoomed_in(panes, window, selected) {
                (true, Some(window), Some(selected))
            } else {
                (true, Some(window), first_zoomed(panes, window))
            },
        }
    }
}

fn has_window(windows: &[WindowInfo], window: u64) -> (r: bool)
    ensures
        r == exists|i: int|
            0 <= i < windows@.len() && (#[trigger] windows@[i]).window_id == window,
{
    let mut i: usize = 0;
    while i < windows.len()
        invariant
            i <= windows@.len(),
            forall|j: int| 0 <= j < i ==> (#[trigger] windows@[j]).window_id != window,
        decreases windows@.len() - i,
    {
        if windows[i].window_id == window {
            return true;
        }
        i = i + 1;
    }
    false
}

fn is_zoomed_in(panes: &[PaneInfo], window: u64, pane: u64) -> (r: bool)
    ensures
        r == zoomed_in(panes@, window, pane),
{
    let mut i: usize = 0;
    while i < panes.len()
        invariant
            i <= panes@.len(),
            forall|j: int|
                0 <= j < i ==> !((#[trigger] panes@[j]).window_id == window && panes@[j].zoomed
                    && panes@[j].pane_id == pane),
        decreases panes@.len() - i,
    {
        if panes[i].window_id == window && panes[i].zoomed && panes[i].pane_id == pane {
            return true;
        }
        i = i + 1;
    }
    false
}

fn find_first_zoomed(panes: &[PaneInfo], window: u64) -> (r: Option<u64>)
    ensures
        r == first_zoomed(panes@, window),
{
    let mut i: usize = 0;
    assert(panes@.skip(0) == panes@);
    while i < panes.len()
        invariant
            i <= panes@.len(),
            first_zoomed(panes@.skip(i as int), window) == first_zoomed(panes@, window),
        decreases panes@.len() - i,
    {
        assert(panes@.skip(i as int).skip(1) == panes@.skip(i + 1));
        if panes[i].window_id == window && panes[i].zoomed {
            return Some(panes[i].pane_id);
        }
        i = i + 1;
    }
    assert(panes@.skip(i as int).len() == 0);
    None
}

fn build_window(window: &WindowInfo, panes: &[PaneInfo], flat: &[PaneSnapshot]) -> (r:
    WindowSnapshot)
    ensures
        r@ == window_snapshot(*window, panes@, snapshot::pane_views(flat@)),
{
    let ghost all = snapshot::pane_views(flat@);
    let mut own: Vec<PaneSnapshot> = Vec::new();
    let mut selected: bool = false;
    let mut i: usize = 0;
    assert(all.take(0) == Seq::<PaneSnapshotView>::empty());
    assert(snapshot::pane_views(own@) == Seq::<PaneSnapshotView>::empty());
    while i < flat.len()
        invariant
            i <= flat@.len(),
            all == snapshot::pane_views(flat@),
            snapshot::pane_views(own@) == panes_in(all.take(i as int), window.window_id),
            selected == exists|j: int|
                0 <= j < i && (#[trigger] all[j]).window_id == window.window_id && all[j].selected,
        decreases flat@.len() - i,
    {
        assert(all.take(i + 1).drop_last() == all.take(i as int));
        assert(all.take(i + 1).last() == flat@[i as int]@);
        assert(all[i as int] == flat@[i as int]@);
        let ghost before = own@;
        if flat[i].window_id == window.window_id {
            let pane = flat[i].clone();
            own.push(pane);
            assert(snapshot::pane_views(own@) == snapshot::pane_views(before).push(pane@));
            if flat[i].selected {
                selected = true;
            }
        }
        i = i + 1;
    }
    assert(all.take(i as int) == all);
    WindowSnapshot {
        window_id: window.window_id,
        name: window.name.clone(),
        panes: own,
        selected,
        zoomed: is_window_zoomed(panes, window.window_id),
    }
}

/// Commits a topology and leaves zoom ownership as it is.
pub fn apply_topology_snapshot(
    state: &mut SessionState,
    mapping: &HashMap<u64, u64>,
    windows: &[WindowInfo],
    panes: &[PaneInfo],
    flat: &[PaneSnapshot],
    selected: u64,
)
    ensures
        state::same_lifecycle(*final(state), *old(state)),
        final(state).pane_terminals@ == mapping@,
        final(state).selected_pane == Some(selected),
        final(state).snapshot@ == topology_snapshot(windows@, panes@, snapshot::pane_views(flat@), selected),
        state::zoom_ownership(*final(state)) == state::zoom_ownership(*old(state)),
{
    let mut built: Vec<WindowSnapshot> = Vec::new();
    let mut i: usize = 0;
    while i < windows.len()
        invariant
            i <= windows@.len(),
            built@.len() == i,
            forall|j: int|
                0 <= j < i ==> (#[trigger] built@[j])@ == window_snapshot(
                    windows@[j],
                    panes@,
                    snapshot::pane_views(flat@),
                ),
        decreases windows@.len() - i,
    {
        built.push(build_window(&windows[i], panes, flat));
        i = i + 1;
    }
    let mut copy: Vec<PaneSnapshot> = Vec::new();
    let mut k: usize = 0;
    while k < flat.len()
        invariant
            k <= flat@.len(),
            copy@.len() == k,
            forall|j: int| 0 <= j < k ==> (#[trigger] copy@[j])@ == flat@[j]@,
        decreases flat@.len() - k,
    {
        copy.push(flat[k].clone());
        k = k + 1;
    }
    let snapshot = SessionSnapshot {
        windows: built,
        panes: copy,
        selected_pane: Some(selected),
    };
    assert(snapshot@ =~= topology_snapshot(windows@, panes@, snapshot::pane_views(flat@), selected));
    state.pane_terminals = mapping.clone();
    state.selected_pane = Some(selected);
    state.snapshot = snapshot;
}

/// Commits a topology and holds zoom ownership against it.
pub fn apply_topology_state(
    state: &mut SessionState,
    mapping: &HashMap<u64, u64>,
    windows: &[WindowInfo],
    panes: &[PaneInfo],
    flat: &[PaneSnapshot],
    selected: u64,
)
    ensures
        state::same_lifecycle(*final(state), *old(state)),
        final(state).pane_terminals@ == mapping@,
        final(state).selected_pane == Some(selected),
        final(state).snapshot@ == topology_snapshot(windows@, panes@, snapshot::pane_views(flat@), selected),
        state::zoom_ownership(*final(state)) == ownership_after(
            state::zoom_ownership(*old(state)),
            windows@,
            panes@,
            selected,
        ),
{
    if state.meeterm_zoomed {
        match state.meeterm_zoomed_window {
            None => {
                state.meeterm_zoomed = false;
                state.meeterm_zoomed_window = None;
                state.meeterm_zoomed_pane = None;
            },
            Some(owned) => {
                let kept = match state.meeterm_zoomed_pane {
                    Some(pane) => is_zoomed_in(panes, owned, pane),
                    None => false,
                };
                if !has_window(windows, owned) || !is_window_zoomed(panes, owned) {
                    state.meeterm_zoomed = false;
                    state.meeterm_zoomed_window = None;
                    state.meeterm_zoomed_pane = None;
                } else if !kept {
                    state.meeterm_zoomed_pane = if is_zoomed_in(panes, owned, selected) {
                        Some(selected)
                    } else {
                        find_first_zoomed(panes, owned)
                    };
                }
            },
        }
    } else {
        state.meeterm_zoomed_window = None;
    }
    apply_topology_snapshot(state, mapping, windows, panes, flat, selected);
}

/// Commits a topology.  The read from before an initial selection's zoom
/// must not decide who owns the zoom.
pub fn apply_committed_topology(
    state: &mut SessionState,
    mapping: &HashMap<u64, u64>,
    windows: &[WindowInfo],
    panes: &[PaneInfo],
    flat: &[PaneSnapshot],
    selected: u64,
    preserve_zoom_ownership: bool,
)
    ensures
        state::same_lifecycle(*final(state), *old(state)),
        final(state).pane_terminals@ == mapping@,
        final(state).selected_pane == Some(selected),
        final(state).snapshot@ == topology_snapshot(windows@, panes@, snapshot::pane_views(flat@), selected),
        state::zoom_ownership(*final(state)) == (if preserve_zoom_ownership {
            state::zoom_ownership(*old(state))
        } else {
            ownership_after(state::zoom_ownership(*old(state)), windows@, panes@, selected)
        }),
{
    if preserve_zoom_ownership {
        apply_topology_snapshot(state, mapping, windows, panes, flat, selected);
    } else {
        apply_topology_state(state, mapping, windows, panes, flat, selected);
    }
}

/// Committing a topology never makes a zoom ours that was not, nor moves one
/// that is ours to another window.
pub proof fn law_topology_never_claims_a_zoom(
    before: (bool, Option<u64>, Option<u64>),
    windows: Seq<WindowInfo>,
    panes: Seq<PaneInfo>,
    selected: u64,
)
    ensures
        ({
            let after = ownership_after(before, windows, panes, selected);
            after.0 ==> before.0 && after.1 == before.1 && after.1 is Some && selection::window_zoomed(
                panes,
                after.1->0,
            )
        }),
{
}

proof fn lemma_first_zoomed(panes: Seq<PaneInfo>, window: u64)
    requires
        selection::window_zoomed(panes, window),
    ensures
        first_zoomed(panes, window) is Some,
        zoomed_in(panes, window, first_zoomed(panes, window)->0),
    decreases panes.len(),
{
    let i = choose|i: int|
        0 <= i < panes.len() && (#[trigger] panes[i]).window_id == window && panes[i].zoomed;
    if panes[0].window_id == window && panes[0].zoomed {
        assert(zoomed_in(panes, window, panes[0].pane_id));
    } else {
        let rest = panes.skip(1);
        assert(rest[i - 1] == panes[i]);
        assert(selection::window_zoomed(rest, window));
        lemma_first_zoomed(rest, window);
        let pane = first_zoomed(rest, window)->0;
        let j = choose|j: int|
            0 <= j < rest.len() && (#[trigger] rest[j]).window_id == window && rest[j].pane_id
                == pane && rest[j].zoomed;
        assert(panes[j + 1] == rest[j]);
    }
}

/// Switching panes does not lose the cleanup target: while the window of a
/// zoom that is ours is listed and zoomed, the zoom stays ours on that window,
/// with a pane that is zoomed there.
pub proof fn law_a_zoom_stays_with_its_window(
    window: u64,
    pane: Option<u64>,
    windows: Seq<WindowInfo>,
    panes: Seq<PaneInfo>,
    selected: u64,
)
    requires
        exists|i: int| 0 <= i < windows.len() && (#[trigger] windows[i]).window_id == window,
        selection::window_zoomed(panes, window),
    ensures
        ({
            let after = ownership_after((true, Some(window), pane), windows, panes, selected);
            after.0 && after.1 == Some(window) && after.2 is Some && zoomed_in(
                panes,
                window,
                after.2->0,
            )
        }),
{
    lemma_first_zoomed(panes, window);
}

/// The first window that was not there before.
pub open spec fn new_window(
    windows: Seq<WindowSnapshot>,
    before: Seq<WindowSnapshot>,
) -> Option<u64>
    decreases windows.len(),
{
    if windows.len() == 0 {
        None
    } else if !(exists|i: int|
        0 <= i < before.len() && (#[trigger] before[i]).window_id == windows[0].window_id) {
        Some(windows[0].window_id)
    } else {
        new_window(windows.skip(1), before)
    }
}

fn knows_window(before: &Vec<WindowSnapshot>, window: u64) -> (r: bool)
    ensures
        r == exists|i: int| 0 <= i < before@.len() && (#[trigger] before@[i]).window_id == window,
{
    let mut i: usize = 0;
    while i < before.len()
        invariant
            i <= before@.len(),
            forall|j: int| 0 <= j < i ==> (#[trigger] before@[j]).window_id != window,
        decreases before@.len() - i,
    {
        if before[i].window_id == window {
            return true;
        }
        i = i + 1;
    }
    false
}

fn knows_pane(before: &Vec<PaneSnapshot>, pane: u64) -> (r: bool)
    ensures
        r == exists|i: int| 0 <= i < before@.len() && (#[trigger] before@[i]).pane_id == pane,
{
    let mut i: usize = 0;
    while i < before.len()
        invariant
            i <= before@.len(),
            forall|j: int| 0 <= j < i ==> (#[trigger] before@[j]).pane_id != pane,
        decreases before@.len() - i,
    {
        if before[i].pane_id == pane {
            return true;
        }
        i = i + 1;
    }
    false
}

pub fn new_window_id_since(snapshot: &SessionSnapshot, before: &SessionSnapshot) -> (r: Option<u64>)
    ensures
        r == new_window(snapshot.windows@, before.windows@),
{
    let mut i: usize = 0;
    assert(snapshot.windows@.skip(0) == snapshot.windows@);
    while i < snapshot.windows.len()
        invariant
            i <= snapshot.windows@.len(),
            new_window(snapshot.windows@.skip(i as int), before.windows@) == new_window(
                snapshot.windows@,
                before.windows@,
            ),
        decreases snapshot.windows@.len() - i,
    {
        assert(snapshot.windows@.skip(i as int).skip(1) == snapshot.windows@.skip(i + 1));
        if !knows_window(&before.windows, snapshot.windows[i].window_id) {
            return Some(snapshot.windows[i].window_id);
        }
        i = i + 1;
    }
    assert(snapshot.windows@.skip(i as int).len() == 0);
    None
}

/// The first pane of a window that was not there before.
pub open spec fn new_pane(
    panes: Seq<PaneSnapshot>,
    before: Seq<PaneSnapshot>,
    window: u64,
) -> Option<u64>
    decreases panes.len(),
{
    if panes.len() == 0 {
        None
    } else if panes[0].window_id == window && !(exists|i: int|
        0 <= i < before.len() && (#[trigger] before[i]).pane_id == panes[0].pane_id) {
        Some(panes[0].pane_id)
    } else {
        new_pane(panes.skip(1), before, window)
    }
}

pub fn new_pane_id_since(
    snapshot: &SessionSnapshot,
    before: &SessionSnapshot,
    window_id: u64,
) -> (r: Option<u64>)
    ensures
        r == new_pane(snapshot.panes@, before.panes@, window_id),
{
    let mut i: usize = 0;
    assert(snapshot.panes@.skip(0) == snapshot.panes@);
    while i < snapshot.panes.len()
        invariant
            i <= snapshot.panes@.len(),
            new_pane(snapshot.panes@.skip(i as int), before.panes@, window_id) == new_pane(
                snapshot.panes@,
                before.panes@,
                window_id,
            ),
        decreases snapshot.panes@.len() - i,
    {
        assert(snapshot.panes@.skip(i as int).skip(1) == snapshot.panes@.skip(i + 1));
        if snapshot.panes[i].window_id == window_id && !knows_pane(
            &before.panes,
            snapshot.panes[i].pane_id,
        ) {
            return Some(snapshot.panes[i].pane_id);
        }
        i = i + 1;
    }
    assert(snapshot.panes@.skip(i as int).len() == 0);
    None
}

/// The first active pane, or the first pane.
pub open spec fn leading_pane(panes: Seq<PaneSnapshot>) -> Option<u64> {
    match active_pane(panes) {
        Some(id) => Some(id),
        None => if panes.len() > 0 {
            Some(panes[0].pane_id)
        } else {
            None
        },
    }
}

pub open spec fn active_pane(panes: Seq<PaneSnapshot>) -> Option<u64>
    decreases panes.len(),
{
    if panes.len() == 0 {
        None
    } else if panes[0].active {
        Some(panes[0].pane_id)
    } else {
        active_pane(panes.skip(1))
    }
}

/// The leading pane of the first window with this id.
pub open spec fn window_lead(windows: Seq<WindowSnapshot>, window: u64) -> Option<u64>
    decreases windows.len(),
{
    if windows.len() == 0 {
        None
    } else if windows[0].window_id == window {
        leading_pane(windows[0].panes@)
    } else {
        window_lead(windows.skip(1), window)
    }
}

fn lead_of(panes: &Vec<PaneSnapshot>) -> (r: Option<u64>)
    ensures
        r == leading_pane(panes@),
{
    let mut i: usize = 0;
    assert(panes@.skip(0) == panes@);
    while i < panes.len()
        invariant
            i <= panes@.len(),
            active_pane(panes@.skip(i as int)) == active_pane(panes@),
        decreases panes@.len() - i,
    {
        assert(panes@.skip(i as int).skip(1) == panes@.skip(i + 1));
        if panes[i].active {
            return Some(panes[i].pane_id);
        }
        i = i + 1;
    }
    assert(panes@.skip(i as int).len() == 0);
    if panes.len() > 0 {
        Some(panes[0].pane_id)
    } else {
        None
    }
}

pub fn first_pane_in_window(snapshot: &SessionSnapshot, window_id: u64) -> (r: Option<u64>)
    ensures
        r == window_lead(snapshot.windows@, window_id),
{
    let mut i: usize = 0;
    assert(snapshot.windows@.skip(0) == snapshot.windows@);
    while i < snapshot.windows.len()
        invariant
            i <= snapshot.windows@.len(),
            window_lead(snapshot.windows@.skip(i as int), window_id) == window_lead(
                snapshot.windows@,
                window_id,
            ),
        decreases snapshot.windows@.len() - i,
    {
        assert(snapshot.windows@.skip(i as int).skip(1) == snapshot.windows@.skip(i + 1));
        if snapshot.windows[i].window_id == window_id {
            return lead_of(&snapshot.windows[i].panes);
        }
        i = i + 1;
    }
    assert(snapshot.windows@.skip(i as int).len() == 0);
    None
}

} // verus!
