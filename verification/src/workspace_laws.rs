//! How a tmux session and what a host says are understood.

use vstd::prelude::*;
use vstd::string::*;

use crate::diagnostics;
use crate::text;
use crate::tmux::error::DecodeError;
use crate::tmux::ids;
use crate::tmux::record_laws;
use crate::tmux::record_laws::sigiled;
use crate::tmux::snapshot::SessionSnapshotView;
use crate::workspace;
use crate::workspace::{AgentStatus, Backend};

verus! {

proof fn lemma_sigil(sigil: char, n: u64)
    requires
        sigil == '@' || sigil == '%',
    ensures
        sigil == '@' ==> "@"@ + text::decimal(n as nat) == sigiled('@', n as nat)
            && ids::window_id(text::utf8(sigiled('@', n as nat))) == Ok::<u64, DecodeError>(n),
        sigil == '%' ==> "%"@ + text::decimal(n as nat) == sigiled('%', n as nat)
            && ids::pane_id(text::utf8(sigiled('%', n as nat))) == Ok::<u64, DecodeError>(n),
{
    reveal_strlit("@");
    reveal_strlit("%");
    assert("@"@ =~= seq!['@']);
    assert("%"@ =~= seq!['%']);
    record_laws::lemma_sigiled(sigil, n, 0x09);
}

/// A window of a tmux session is one workspace with one group, in its place:
/// their ids read back as the window, and the group is marked as the window is.
pub proof fn law_a_window_is_one_workspace(
    snapshot: SessionSnapshotView,
    runtime: Seq<char>,
    i: int,
)
    requires
        0 <= i < snapshot.windows.len(),
    ensures
        ({
            let shown = workspace::tmux_runtime(snapshot, runtime);
            &&& shown.workspaces.len() == snapshot.windows.len()
            &&& shown.groups.len() == snapshot.windows.len()
            &&& ids::window_id(text::utf8(shown.workspaces[i].id)) == Ok::<u64, DecodeError>(
                snapshot.windows[i].window_id,
            )
            &&& shown.workspaces[i].name == snapshot.windows[i].name
            &&& shown.workspaces[i].agent_status is None
            &&& shown.groups[i].id == shown.workspaces[i].id
            &&& shown.groups[i].workspace_id == shown.workspaces[i].id
            &&& shown.groups[i].selected == snapshot.windows[i].selected
            &&& shown.groups[i].agent_status is None
        }),
{
    lemma_sigil('@', snapshot.windows[i].window_id);
}

/// A pane of a tmux session is one terminal, in its place: its id reads back as
/// the pane, and it stands in the workspace and group of its window.
pub proof fn law_a_pane_is_one_terminal(snapshot: SessionSnapshotView, runtime: Seq<char>, i: int)
    requires
        0 <= i < snapshot.panes.len(),
    ensures
        ({
            let shown = workspace::tmux_runtime(snapshot, runtime);
            let t = shown.terminals[i];
            let pane = snapshot.panes[i];
            &&& shown.terminals.len() == snapshot.panes.len()
            &&& ids::pane_id(text::utf8(t.id)) == Ok::<u64, DecodeError>(pane.pane_id)
            &&& ids::window_id(text::utf8(t.workspace_id)) == Ok::<u64, DecodeError>(
                pane.window_id,
            )
            &&& t.group_id == t.workspace_id
            &&& t.terminal_id == "native:"@ + text::decimal(pane.terminal_id as nat)
            &&& t.name == pane.pane_name
            &&& t.active == pane.active
            &&& t.selected == pane.selected
            &&& t.agent is None
        }),
{
    lemma_sigil('%', snapshot.panes[i].pane_id);
    lemma_sigil('@', snapshot.panes[i].window_id);
}

/// A tmux runtime keeps its name, has no groups of its own, and starts with
/// nothing ready, nothing retained and no recovery.
pub proof fn law_a_tmux_runtime_starts_closed(snapshot: SessionSnapshotView, runtime: Seq<char>)
    ensures
        ({
            let shown = workspace::tmux_runtime(snapshot, runtime);
            &&& shown.backend == Backend::Tmux
            &&& shown.runtime == runtime
            &&& !shown.groups_supported
            &&& !shown.control.runtime_operations_ready
            &&& !shown.control.terminal_input_ready
            &&& !shown.control.has_retained_work
            &&& shown.control.recovery.attempt == 0
            &&& shown.control.recovery.max_attempts == 6
            &&& shown.control.recovery.confirmation_token.len() == 0
        }),
{
}

/// The words of the statuses.
pub proof fn law_statuses_have_their_words()
    ensures
        AgentStatus::Blocked.wire() == "blocked"@,
        AgentStatus::Done.wire() == "done"@,
        AgentStatus::Working.wire() == "working"@,
        AgentStatus::Idle.wire() == "idle"@,
        AgentStatus::Unknown.wire() == "unknown"@,
{
}

proof fn lemma_lower_join(a: Seq<char>, b: Seq<char>)
    ensures
        diagnostics::lower(a + b) == diagnostics::lower(a) + diagnostics::lower(b),
{
    assert(diagnostics::lower(a + b) =~= diagnostics::lower(a) + diagnostics::lower(b));
}

/// A phrase in lower case is found wherever it stands, whatever case it is
/// written in.
pub proof fn law_a_phrase_is_found_in_any_case(
    before: Seq<char>,
    phrase: Seq<char>,
    needle: Seq<char>,
    after: Seq<char>,
)
    requires
        diagnostics::lower(phrase) == needle,
    ensures
        diagnostics::says(diagnostics::lower(before + phrase + after), needle),
{
    let a = diagnostics::lower(before);
    let c = diagnostics::lower(after);
    lemma_lower_join(before + phrase, after);
    lemma_lower_join(before, phrase);
    text::lemma_utf8_join(a + needle, c);
    text::lemma_utf8_join(a, needle);
    let hay = text::utf8(a) + text::utf8(needle) + text::utf8(c);
    let at = text::utf8(a).len() as int;
    assert(hay.subrange(at, at + text::utf8(needle).len()) =~= text::utf8(needle));
}

/// What a host says of a refused access, of a name that is taken and of a
/// command that does not exist is understood wherever it stands in the message.
pub proof fn law_complaints_are_understood(before: Seq<char>, after: Seq<char>)
    ensures
        diagnostics::says_tmux_permission(before + "permission denied"@ + after),
        diagnostics::says_tmux_permission(before + "access denied"@ + after),
        diagnostics::says_tmux_permission(before + "cannot connect"@ + after),
        diagnostics::says_herdr_permission(before + "permission denied"@ + after),
        diagnostics::says_herdr_permission(before + "access denied"@ + after),
        diagnostics::says_herdr_permission(before + "operation not permitted"@ + after),
        diagnostics::says_collision(before + "duplicate session"@ + after),
        diagnostics::says_collision(before + "already exists"@ + after),
        diagnostics::says_missing(before + "command not found"@ + after),
{
    reveal_strlit("permission denied");
    reveal_strlit("access denied");
    reveal_strlit("cannot connect");
    reveal_strlit("operation not permitted");
    reveal_strlit("duplicate session");
    reveal_strlit("already exists");
    reveal_strlit("command not found");
    assert(diagnostics::lower("permission denied"@) =~= "permission denied"@);
    assert(diagnostics::lower("access denied"@) =~= "access denied"@);
    assert(diagnostics::lower("cannot connect"@) =~= "cannot connect"@);
    assert(diagnostics::lower("operation not permitted"@) =~= "operation not permitted"@);
    assert(diagnostics::lower("duplicate session"@) =~= "duplicate session"@);
    assert(diagnostics::lower("already exists"@) =~= "already exists"@);
    assert(diagnostics::lower("command not found"@) =~= "command not found"@);
    law_a_phrase_is_found_in_any_case(before, "permission denied"@, "permission denied"@, after);
    law_a_phrase_is_found_in_any_case(before, "access denied"@, "access denied"@, after);
    law_a_phrase_is_found_in_any_case(before, "cannot connect"@, "cannot connect"@, after);
    law_a_phrase_is_found_in_any_case(
        before,
        "operation not permitted"@,
        "operation not permitted"@,
        after,
    );
    law_a_phrase_is_found_in_any_case(before, "duplicate session"@, "duplicate session"@, after);
    law_a_phrase_is_found_in_any_case(before, "already exists"@, "already exists"@, after);
    law_a_phrase_is_found_in_any_case(before, "command not found"@, "command not found"@, after);
}

} // verus!
