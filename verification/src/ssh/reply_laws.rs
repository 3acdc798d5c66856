//! What the replies of a cleanup tell, and what its commands do.

use vstd::prelude::*;
use vstd::string::*;

use crate::bytes;
use crate::ssh::cleanup;
use crate::ssh::cleanup::{
    CleanupAction, CleanupCommand, CleanupFact, CleanupPhase, CleanupReply, ZoomActor, ZoomCleanup,
};
use crate::ssh::flow::FlowFailure;
use crate::ssh::topology;
use crate::tmux::command_laws;
use crate::tmux::command_laws::{Desk, Places, Quote};
use crate::tmux::decoder::CommandBlock;
use crate::tmux::hook_run_laws;
use crate::tmux::hooks::ZoomRecoveryHookAllocation;
use crate::tmux::quote;
use crate::tmux::records;
use crate::tmux::records::{PaneInfoView, WindowInfoView, WindowTopologyView};

verus! {

/// Each line of a listing is one pane, in its order; one line that cannot be
/// read spoils the listing.
pub proof fn law_each_line_is_one_pane(lines: Seq<Seq<u8>>, i: int)
    requires
        0 <= i < lines.len(),
    ensures
        topology::pane_lines(lines) matches Ok(panes) ==> panes.len() == lines.len()
            && records::pane_line(lines[i]) == Ok::<PaneInfoView, crate::tmux::error::DecodeError>(
            panes[i],
        ),
        records::pane_line(lines[i]) is Err ==> topology::pane_lines(lines) is Err,
    decreases lines.len(),
{
    let front = lines.drop_last();
    lemma_pane_count(lines);
    lemma_pane_count(front);
    if i < front.len() {
        law_each_line_is_one_pane(front, i);
        assert(front[i] == lines[i]);
        if topology::pane_lines(lines) is Ok {
            assert(topology::pane_lines(lines)->Ok_0[i] == topology::pane_lines(front)->Ok_0[i]);
        }
    }
}

proof fn lemma_pane_count(lines: Seq<Seq<u8>>)
    ensures
        topology::pane_lines(lines) matches Ok(panes) ==> panes.len() == lines.len(),
    decreases lines.len(),
{
    if lines.len() > 0 {
        lemma_pane_count(lines.drop_last());
    }
}

/// The same of windows.
pub proof fn law_each_line_is_one_window(lines: Seq<Seq<u8>>, i: int)
    requires
        0 <= i < lines.len(),
    ensures
        topology::window_lines(lines) matches Ok(windows) ==> windows.len() == lines.len()
            && records::window_line(lines[i]) == Ok::<
            WindowInfoView,
            crate::tmux::error::DecodeError,
        >(windows[i]),
        records::window_line(lines[i]) is Err ==> topology::window_lines(lines) is Err,
    decreases lines.len(),
{
    let front = lines.drop_last();
    lemma_window_count(lines);
    lemma_window_count(front);
    if i < front.len() {
        law_each_line_is_one_window(front, i);
        assert(front[i] == lines[i]);
        if topology::window_lines(lines) is Ok {
            assert(topology::window_lines(lines)->Ok_0[i] == topology::window_lines(
                front,
            )->Ok_0[i]);
        }
    }
}

proof fn lemma_window_count(lines: Seq<Seq<u8>>)
    ensures
        topology::window_lines(lines) matches Ok(windows) ==> windows.len() == lines.len(),
    decreases lines.len(),
{
    if lines.len() > 0 {
        lemma_window_count(lines.drop_last());
    }
}

/// The same of the topology, where a line that cannot be read makes it unsafe.
pub proof fn law_each_line_is_one_entry(lines: Seq<Seq<u8>>, i: int)
    requires
        0 <= i < lines.len(),
    ensures
        topology::topology_lines(lines) matches Ok(entries) ==> entries.len() == lines.len()
            && records::topology_line(lines[i]) == Ok::<
            WindowTopologyView,
            crate::tmux::error::DecodeError,
        >(entries[i]),
        records::topology_line(lines[i]) is Err ==> topology::topology_lines(lines) == Err::<
            Seq<WindowTopologyView>,
            FlowFailure,
        >(FlowFailure::TmuxTopologyUnsafe),
    decreases lines.len(),
{
    let front = lines.drop_last();
    lemma_entry_count(lines);
    lemma_entry_count(front);
    if i < front.len() {
        law_each_line_is_one_entry(front, i);
        assert(front[i] == lines[i]);
        if topology::topology_lines(lines) is Ok {
            assert(topology::topology_lines(lines)->Ok_0[i] == topology::topology_lines(
                front,
            )->Ok_0[i]);
        }
    }
}

proof fn lemma_entry_count(lines: Seq<Seq<u8>>)
    ensures
        topology::topology_lines(lines) matches Ok(entries) ==> entries.len() == lines.len(),
    decreases lines.len(),
{
    if lines.len() > 0 {
        lemma_entry_count(lines.drop_last());
    }
}

/// The phases in which a cleanup reads the topology.
pub open spec fn reads_topology(phase: CleanupPhase) -> bool {
    phase == CleanupPhase::InheritTopology || phase == CleanupPhase::RecordBefore || phase
        == CleanupPhase::RecordAfter || phase == CleanupPhase::Before || phase
        == CleanupPhase::After
}

/// A topology shows the owned window zoomed where a line of it says so of that
/// window, and listed where a line names it.
pub proof fn law_a_topology_tells_of_the_owned_window(
    c: ZoomCleanup,
    session: Seq<char>,
    blocks: Vec<CommandBlock>,
    panes: Seq<PaneInfoView>,
)
    requires
        reads_topology(c.phase),
        topology::pane_lines(topology::block_lines(blocks@)) == Ok::<
            Seq<PaneInfoView>,
            FlowFailure,
        >(panes),
    ensures
        cleanup::fact_in(c, session, CleanupReply::Blocks(blocks)) matches CleanupFact::Window {
            listed,
            zoomed,
        } && (zoomed <==> exists|i: int|
            0 <= i < panes.len() && (#[trigger] panes[i]).window_id == c.window && panes[i].zoomed)
            && (listed <==> exists|i: int|
            0 <= i < panes.len() && (#[trigger] panes[i]).window_id == c.window),
{
}

/// A topology that cannot be read, and a reply that failed, are failures.
pub proof fn law_an_unreadable_reply_fails(
    c: ZoomCleanup,
    session: Seq<char>,
    blocks: Vec<CommandBlock>,
    e: FlowFailure,
)
    ensures
        reads_topology(c.phase) && topology::pane_lines(topology::block_lines(blocks@)) is Err
            ==> cleanup::fact_in(c, session, CleanupReply::Blocks(blocks)) is Failed,
        cleanup::fact_in(c, session, CleanupReply::Failed(e)) == CleanupFact::Failed(e),
{
}

/// The commands of a cleanup do what they are named for, in sessions whose
/// names need no quotes: a restore ends the zoom of its window where there is
/// one, a removal unsets the two hooks, and neither changes anything else.
pub proof fn law_cleanup_commands_do_what_they_say(
    p: Places,
    session: Seq<char>,
    window: u64,
    hooks: ZoomRecoveryHookAllocation,
    d: Desk,
)
    requires
        command_laws::plain(session),
    ensures
        cleanup::cleanup_text(CleanupCommand::RestoreWindow(window), session) matches Ok(line)
            ==> command_laws::ran_line(p, line, d) == Some(
            Desk {
                zoom: d.zoom.remove((p.window)(command_laws::session_window(session, window))),
                ..d
            },
        ),
        cleanup::cleanup_text(CleanupCommand::RemoveHooks(hooks), session) matches Ok(line)
            ==> command_laws::ran_line(p, line, d) == Some(
            hook_run_laws::without_pair(d, hook_run_laws::session_scope(session), hooks.index),
        ),
{
    command_laws::law_restoring_in_a_session_collapses_the_zoom(p, session, window, 0, d);
    if cleanup::cleanup_text(CleanupCommand::RemoveHooks(hooks), session) is Ok {
        hook_run_laws::law_removing_the_hooks_unsets_both(p, session, hooks.index, d);
    }
}

/// The hooks that are read are those of the session.
pub proof fn law_hooks_are_read_from_their_session(session: Seq<char>)
    ensures
        cleanup::cleanup_text(CleanupCommand::Hooks, session) matches Ok(line)
            ==> command_laws::commands_of(line) == Some(
            seq![seq!["show-hooks"@, "-t"@, hook_run_laws::session_scope(session)]],
        ),
{
    reveal_strlit("=");
    assert("="@ =~= seq!['=']);
    if quote::session_target_text(session) is Ok {
        hook_run_laws::law_an_argument_is_one_word("="@ + session);
        let t = quote::session_target_text(session)->Ok_0;
        let v = quote::hashes_doubled("="@ + session);
        let line = "show-hooks -t "@ + t + ":"@;
        let rest = "-t"@ + (seq![' '] + (t + ":"@));
        assert(line =~= "show-hooks"@ + (seq![' '] + rest)) by {
            reveal_strlit("show-hooks -t ");
            reveal_strlit("show-hooks");
            reveal_strlit("-t");
        }
        assert(command_laws::plain("show-hooks"@) && "show-hooks"@.len() > 0) by {
            reveal_strlit("show-hooks");
        }
        assert(command_laws::plain("-t"@) && "-t"@.len() > 0) by {
            reveal_strlit("-t");
        }
        command_laws::lemma_word("show-hooks"@, rest);
        command_laws::lemma_word("-t"@, t + ":"@);
        assert(command_laws::scanned(t + ":"@, Quote::Outside, None) == command_laws::scanned(
            ":"@,
            Quote::Outside,
            Some(v),
        ));
        reveal_strlit(":");
        assert(":"@.skip(1) =~= Seq::<char>::empty());
        assert(v.push(':') =~= hook_run_laws::session_scope(session));
        command_laws::lemma_last(v.push(':'));
        command_laws::lemma_three(
            "show-hooks"@,
            "-t"@,
            hook_run_laws::session_scope(session),
            seq![],
        );
    }
}

/// The blocks of a reply are read in their order.
pub proof fn law_blocks_are_read_in_order(a: Seq<CommandBlock>, b: Seq<CommandBlock>)
    ensures
        topology::block_lines(a + b) == topology::block_lines(a) + topology::block_lines(b),
    decreases b.len(),
{
    if b.len() == 0 {
        assert(a + b =~= a);
        assert(topology::block_lines(a) + topology::block_lines(b) =~= topology::block_lines(a));
    } else {
        law_blocks_are_read_in_order(a, b.drop_last());
        assert((a + b).drop_last() =~= a + b.drop_last());
        assert((a + b).last() == b.last());
        let x = topology::block_lines(a);
        let y = topology::block_lines(b.drop_last());
        let z = bytes::views(b.last().lines@);
        assert(x + y + z =~= x + (y + z));
    }
}

/// A topology reply that shows the owned window zoomed is answered, in the
/// cleanup of a record, by the restore of that window.
pub proof fn law_a_zoomed_reply_is_answered_by_a_restore(
    c: ZoomCleanup,
    actor: ZoomActor,
    session: Seq<char>,
    blocks: Vec<CommandBlock>,
    panes: Seq<PaneInfoView>,
    i: int,
)
    requires
        c.phase == CleanupPhase::RecordBefore,
        topology::pane_lines(topology::block_lines(blocks@)) == Ok::<
            Seq<PaneInfoView>,
            FlowFailure,
        >(panes),
        0 <= i < panes.len(),
        panes[i].window_id == c.window,
        panes[i].zoomed,
    ensures
        cleanup::advanced(c, actor, cleanup::fact_in(c, session, CleanupReply::Blocks(blocks))).2
            == CleanupAction::Query(CleanupCommand::RestoreWindow(c.window)),
{
    law_a_topology_tells_of_the_owned_window(c, session, blocks, panes);
}

} // verus!
