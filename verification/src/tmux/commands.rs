//! The commands that a control-mode client sends.

use vstd::prelude::*;
use vstd::string::*;

use crate::tmux::quote;
use crate::text;
use crate::text::{push_decimal, push_hex};
use crate::tmux::error::CommandArgumentError;
use crate::tmux::quote::{
    pane_only_target, pane_target, quote_tmux_argument, session_target, validate_create_name,
    window_target,
};

verus! {

/// Lists the sessions of the server.
pub open spec fn list_sessions_text() -> Seq<char> {
    "tmux list-sessions -F '#{session_id}|#{q:session_name}|#{pid}|#{start_time}'"@
}

/// Lists sessions without a side effect.  The PID and the start time are
/// evidence of the server epoch.
pub fn list_sessions_command() -> (r: &'static str)
    ensures
        r@ == list_sessions_text(),
        r@ == "tmux list-sessions -F '#{session_id}|#{q:session_name}|#{pid}|#{start_time}'"@,
{
    "tmux list-sessions -F '#{session_id}|#{q:session_name}|#{pid}|#{start_time}'"
}

/// Asks for the attached session's epoch.
pub open spec fn attached_session_epoch_text() -> Seq<char> {
    "display-message -p '#{session_id}|#{pid}|#{start_time}'"@
}

/// Reads the session that the calling control client is attached to.
pub fn attached_session_epoch_command() -> (r: &'static str)
    ensures
        r@ == attached_session_epoch_text(),
        r@ == "display-message -p '#{session_id}|#{pid}|#{start_time}'"@,
{
    "display-message -p '#{session_id}|#{pid}|#{start_time}'"
}

/// Lists every window with its session.
pub open spec fn list_topology_text() -> Seq<char> {
    "list-windows -a -F '#{session_id}\t#{q:session_name}\t#{window_id}\t#{window_linked_sessions}'"@
}

/// Lists every window of every session, so that an unsafe close can be
/// refused before it reaches another session.
pub fn list_topology_command() -> (r: &'static str)
    ensures
        r@ == list_topology_text(),
        r@
            == "list-windows -a -F '#{session_id}\t#{q:session_name}\t#{window_id}\t#{window_linked_sessions}'"@,
{
    "list-windows -a -F '#{session_id}\t#{q:session_name}\t#{window_id}\t#{window_linked_sessions}'"
}

/// Lists the windows of the managed session, as text.
pub open spec fn list_windows_text() -> Seq<char> {
    "list-windows -t =meeterm -F '#{window_id}\t#{q:window_name}'"@
}

/// Lists the windows of the managed session.
pub fn list_windows_command() -> (r: &'static [u8])
    ensures
        r@ == text::utf8(list_windows_text()),
        r@ == text::utf8("list-windows -t =meeterm -F '#{window_id}\t#{q:window_name}'"@),
{
    "list-windows -t =meeterm -F '#{window_id}\t#{q:window_name}'".as_bytes()
}

/// Lists the panes of the managed session, as text.
pub open spec fn list_panes_text() -> Seq<char> {
    "list-panes -s -t =meeterm -F '#{window_id}\t#{pane_id}\t#{pane_index}\t#{pane_active}\t#{pane_width}\t#{pane_height}\t#{q:pane_title}\t#{window_zoomed_flag}\t#{window_active}'"@
}

/// Lists the panes of every window of the managed session.
pub fn list_panes_command() -> (r: &'static [u8])
    ensures
        r@ == text::utf8(list_panes_text()),
        r@ == text::utf8("list-panes -s -t =meeterm -F '#{window_id}\t#{pane_id}\t#{pane_index}\t#{pane_active}\t#{pane_width}\t#{pane_height}\t#{q:pane_title}\t#{window_zoomed_flag}\t#{window_active}'"@),
{
    "list-panes -s -t =meeterm -F '#{window_id}\t#{pane_id}\t#{pane_index}\t#{pane_active}\t#{pane_width}\t#{pane_height}\t#{q:pane_title}\t#{window_zoomed_flag}\t#{window_active}'".as_bytes()
}

/// Creates one detached session and prints its exact identity.
pub open spec fn create_session_text(name: Seq<char>) -> Result<Seq<char>, CommandArgumentError> {
    match quote::create_name(name) {
        Err(e) => Err(e),
        Ok(()) => match quote::argument(name) {
            Err(e) => Err(e),
            Ok(quoted) => Ok(
                "tmux new-session -d -s "@ + quoted
                    + " -P -F '#{session_id}|#{q:session_name}|#{pid}|#{start_time}'"@,
            ),
        },
    }
}

/// Creating is apart from attaching: callers verify the returned `$N` before
/// they attach, and do not retry an unknown outcome.
pub fn create_session_command(name: &str) -> (r: Result<String, CommandArgumentError>)
    ensures
        quote::said(r) == create_session_text(name@),
{
    match validate_create_name(name) {
        Ok(()) => {},
        Err(e) => {
            return Err(e);
        },
    }
    let quoted = match quote_tmux_argument(name) {
        Ok(quoted) => quoted,
        Err(e) => {
            return Err(e);
        },
    };
    let mut command = String::from_str("tmux new-session -d -s ");
    command.append(quoted.as_str());
    command.append(" -P -F '#{session_id}|#{q:session_name}|#{pid}|#{start_time}'");
    Ok(command)
}

/// Attaches a control-mode client to the exact session.
pub open spec fn attach_for_session_text(session: Seq<char>) -> Result<Seq<char>, CommandArgumentError> {
    match quote::session_target_text(session) {
        Ok(target) => Ok("tmux -C -u attach-session -t "@ + target),
        Err(e) => Err(e),
    }
}

pub fn attach_command_for_session(session: &str) -> (r: Result<String, CommandArgumentError>)
    ensures
        quote::said(r) == attach_for_session_text(session@),
{
    let target = match session_target(session) {
        Ok(target) => target,
        Err(e) => {
            return Err(e);
        },
    };
    let mut command = String::from_str("tmux -C -u attach-session -t ");
    command.append(target.as_str());
    Ok(command)
}

/// Lists the windows of the exact session.
pub open spec fn list_windows_for_session_text(session: Seq<char>) -> Result<Seq<char>, CommandArgumentError> {
    match quote::session_target_text(session) {
        Ok(target) => Ok("list-windows -t "@ + target + " -F '#{window_id}\t#{q:window_name}'"@),
        Err(e) => Err(e),
    }
}

pub fn list_windows_command_for_session(session: &str) -> (r: Result<String, CommandArgumentError>)
    ensures
        quote::said(r) == list_windows_for_session_text(session@),
{
    let target = match session_target(session) {
        Ok(target) => target,
        Err(e) => {
            return Err(e);
        },
    };
    let mut command = String::from_str("list-windows -t ");
    command.append(target.as_str());
    command.append(" -F '#{window_id}\t#{q:window_name}'");
    Ok(command)
}

/// Lists the panes of every window of the exact session.
pub open spec fn list_panes_for_session_text(session: Seq<char>) -> Result<Seq<char>, CommandArgumentError> {
    match quote::session_target_text(session) {
        Ok(target) => Ok("list-panes -s -t "@ + target + " -F '#{window_id}\t#{pane_id}\t#{pane_index}\t#{pane_active}\t#{pane_width}\t#{pane_height}\t#{q:pane_title}\t#{window_zoomed_flag}\t#{window_active}'"@),
        Err(e) => Err(e),
    }
}

pub fn list_panes_command_for_session(session: &str) -> (r: Result<String, CommandArgumentError>)
    ensures
        quote::said(r) == list_panes_for_session_text(session@),
{
    let target = match session_target(session) {
        Ok(target) => target,
        Err(e) => {
            return Err(e);
        },
    };
    let mut command = String::from_str("list-panes -s -t ");
    command.append(target.as_str());
    command.append(" -F '#{window_id}\t#{pane_id}\t#{pane_index}\t#{pane_active}\t#{pane_width}\t#{pane_height}\t#{q:pane_title}\t#{window_zoomed_flag}\t#{window_active}'");
    Ok(command)
}

/// Captures a pane with its history, and reads its size, cursor and modes.
pub open spec fn capture_pane_for_session_text(session: Seq<char>, pane_id: u64) -> Result<Seq<char>, CommandArgumentError> {
    match quote::pane_only_target_text(session, pane_id) {
        Ok(target) => Ok("capture-pane -p -e -C -N -S -2000 -t "@ + target + " ; display-message -p -t "@ + target + " '#{pane_width},#{pane_height},#{cursor_x},#{cursor_y},#{alternate_on},#{cursor_flag},#{keypad_cursor_flag},#{keypad_flag},#{?bracket_paste_flag,1,0},#{insert_flag},#{origin_flag},#{wrap_flag}'"@),
        Err(e) => Err(e),
    }
}

pub fn capture_pane_command_for_session(session: &str, pane_id: u64) -> (r: Result<String, CommandArgumentError>)
    ensures
        quote::said(r) == capture_pane_for_session_text(session@, pane_id),
{
    let target = match pane_only_target(session, pane_id) {
        Ok(target) => target,
        Err(e) => {
            return Err(e);
        },
    };
    let mut command = String::from_str("capture-pane -p -e -C -N -S -2000 -t ");
    command.append(target.as_str());
    command.append(" ; display-message -p -t ");
    command.append(target.as_str());
    command.append(" '#{pane_width},#{pane_height},#{cursor_x},#{cursor_y},#{alternate_on},#{cursor_flag},#{keypad_cursor_flag},#{keypad_flag},#{?bracket_paste_flag,1,0},#{insert_flag},#{origin_flag},#{wrap_flag}'");
    Ok(command)
}

/// Creates a detached window in the managed session.
pub open spec fn create_workspace_text(name: Seq<char>) -> Result<Seq<char>, CommandArgumentError> {
    match quote::argument(name) {
        Ok(quoted) => Ok("new-window -d -t =meeterm -n "@ + quoted),
        Err(e) => Err(e),
    }
}

pub fn create_workspace_command(name: &str) -> (r: Result<String, CommandArgumentError>)
    ensures
        quote::said(r) == create_workspace_text(name@),
{
    let quoted = match quote_tmux_argument(name) {
        Ok(quoted) => quoted,
        Err(e) => {
            return Err(e);
        },
    };
    let mut command = String::from_str("new-window -d -t =meeterm -n ");
    command.append(quoted.as_str());
    Ok(command)
}

/// Creates a detached window in the exact session.
pub open spec fn create_workspace_for_session_text(session: Seq<char>, name: Seq<char>) -> Result<Seq<char>, CommandArgumentError> {
    match quote::session_target_text(session) {
        Err(e) => Err(e),
        Ok(target) => {
            match quote::argument(name) {
                Err(e) => Err(e),
                Ok(quoted) => {
                    Ok("new-window -d -t "@ + target + " -n "@ + quoted)
                },
            }
        },
    }
}

pub fn create_workspace_command_for_session(session: &str, name: &str) -> (r: Result<String, CommandArgumentError>)
    ensures
        quote::said(r) == create_workspace_for_session_text(session@, name@),
{
    let target = match session_target(session) {
        Ok(target) => target,
        Err(e) => {
            return Err(e);
        },
    };
    let quoted = match quote_tmux_argument(name) {
        Ok(quoted) => quoted,
        Err(e) => {
            return Err(e);
        },
    };
    let mut command = String::from_str("new-window -d -t ");
    command.append(target.as_str());
    command.append(" -n ");
    command.append(quoted.as_str());
    Ok(command)
}

/// Renames a window of the managed session.
pub open spec fn rename_workspace_text(window_id: u64, name: Seq<char>) -> Result<Seq<char>, CommandArgumentError> {
    match quote::argument(name) {
        Ok(quoted) => Ok("rename-window -t =meeterm:@"@ + text::decimal(window_id as nat) + " "@ + quoted),
        Err(e) => Err(e),
    }
}

pub fn rename_workspace_command(window_id: u64, name: &str) -> (r: Result<String, CommandArgumentError>)
    ensures
        quote::said(r) == rename_workspace_text(window_id, name@),
{
    let quoted = match quote_tmux_argument(name) {
        Ok(quoted) => quoted,
        Err(e) => {
            return Err(e);
        },
    };
    let mut command = String::from_str("rename-window -t =meeterm:@");
    push_decimal(&mut command, window_id);
    command.append(" ");
    command.append(quoted.as_str());
    Ok(command)
}

/// Renames a window of the exact session.
pub open spec fn rename_workspace_for_session_text(session: Seq<char>, window_id: u64, name: Seq<char>) -> Result<Seq<char>, CommandArgumentError> {
    match quote::window_target_text(session, window_id) {
        Err(e) => Err(e),
        Ok(target) => {
            match quote::argument(name) {
                Err(e) => Err(e),
                Ok(quoted) => {
                    Ok("rename-window -t "@ + target + " "@ + quoted)
                },
            }
        },
    }
}

pub fn rename_workspace_command_for_session(session: &str, window_id: u64, name: &str) -> (r: Result<String, CommandArgumentError>)
    ensures
        quote::said(r) == rename_workspace_for_session_text(session@, window_id, name@),
{
    let target = match window_target(session, window_id) {
        Ok(target) => target,
        Err(e) => {
            return Err(e);
        },
    };
    let quoted = match quote_tmux_argument(name) {
        Ok(quoted) => quoted,
        Err(e) => {
            return Err(e);
        },
    };
    let mut command = String::from_str("rename-window -t ");
    command.append(target.as_str());
    command.append(" ");
    command.append(quoted.as_str());
    Ok(command)
}

/// Closes a window of the managed session.
pub open spec fn close_workspace_text(window_id: u64) -> Seq<char> {
    "kill-window -t =meeterm:@"@ + text::decimal(window_id as nat)
}

pub fn close_workspace_command(window_id: u64) -> (r: String)
    ensures
        r@ == close_workspace_text(window_id),
{
    let mut command = String::from_str("kill-window -t =meeterm:@");
    push_decimal(&mut command, window_id);
    command
}

/// Closes a window of the exact session.
pub open spec fn close_workspace_for_session_text(session: Seq<char>, window_id: u64) -> Result<Seq<char>, CommandArgumentError> {
    match quote::window_target_text(session, window_id) {
        Ok(target) => Ok("kill-window -t "@ + target),
        Err(e) => Err(e),
    }
}

pub fn close_workspace_command_for_session(session: &str, window_id: u64) -> (r: Result<String, CommandArgumentError>)
    ensures
        quote::said(r) == close_workspace_for_session_text(session@, window_id),
{
    let target = match window_target(session, window_id) {
        Ok(target) => target,
        Err(e) => {
            return Err(e);
        },
    };
    let mut command = String::from_str("kill-window -t ");
    command.append(target.as_str());
    Ok(command)
}

/// Creates a detached pane in a window of the managed session.
pub open spec fn create_pane_text(window_id: u64) -> Seq<char> {
    "split-window -d -t =meeterm:@"@ + text::decimal(window_id as nat)
}

pub fn create_pane_command(window_id: u64) -> (r: String)
    ensures
        r@ == create_pane_text(window_id),
{
    let mut command = String::from_str("split-window -d -t =meeterm:@");
    push_decimal(&mut command, window_id);
    command
}

/// Creates a detached pane in a window of the exact session.
pub open spec fn create_pane_for_session_text(session: Seq<char>, window_id: u64) -> Result<Seq<char>, CommandArgumentError> {
    match quote::window_target_text(session, window_id) {
        Ok(target) => Ok("split-window -d -t "@ + target),
        Err(e) => Err(e),
    }
}

pub fn create_pane_command_for_session(session: &str, window_id: u64) -> (r: Result<String, CommandArgumentError>)
    ensures
        quote::said(r) == create_pane_for_session_text(session@, window_id),
{
    let target = match window_target(session, window_id) {
        Ok(target) => target,
        Err(e) => {
            return Err(e);
        },
    };
    let mut command = String::from_str("split-window -d -t ");
    command.append(target.as_str());
    Ok(command)
}

/// Gives a pane of the managed session a title.
pub open spec fn rename_pane_text(window_id: u64, pane_id: u64, name: Seq<char>) -> Result<Seq<char>, CommandArgumentError> {
    match quote::argument(name) {
        Ok(quoted) => Ok("select-pane -t =meeterm:@"@ + text::decimal(window_id as nat) + ".%"@ + text::decimal(pane_id as nat) + " -T "@ + quoted),
        Err(e) => Err(e),
    }
}

pub fn rename_pane_command(window_id: u64, pane_id: u64, name: &str) -> (r: Result<String, CommandArgumentError>)
    ensures
        quote::said(r) == rename_pane_text(window_id, pane_id, name@),
{
    let quoted = match quote_tmux_argument(name) {
        Ok(quoted) => quoted,
        Err(e) => {
            return Err(e);
        },
    };
    let mut command = String::from_str("select-pane -t =meeterm:@");
    push_decimal(&mut command, window_id);
    command.append(".%");
    push_decimal(&mut command, pane_id);
    command.append(" -T ");
    command.append(quoted.as_str());
    Ok(command)
}

/// Gives a pane of the exact session a title.
pub open spec fn rename_pane_for_session_text(session: Seq<char>, window_id: u64, pane_id: u64, name: Seq<char>) -> Result<Seq<char>, CommandArgumentError> {
    match quote::pane_target_text(session, window_id, pane_id) {
        Err(e) => Err(e),
        Ok(target) => {
            match quote::argument(name) {
                Err(e) => Err(e),
                Ok(quoted) => {
                    Ok("select-pane -t "@ + target + " -T "@ + quoted)
                },
            }
        },
    }
}

pub fn rename_pane_command_for_session(session: &str, window_id: u64, pane_id: u64, name: &str) -> (r: Result<String, CommandArgumentError>)
    ensures
        quote::said(r) == rename_pane_for_session_text(session@, window_id, pane_id, name@),
{
    let target = match pane_target(session, window_id, pane_id) {
        Ok(target) => target,
        Err(e) => {
            return Err(e);
        },
    };
    let quoted = match quote_tmux_argument(name) {
        Ok(quoted) => quoted,
        Err(e) => {
            return Err(e);
        },
    };
    let mut command = String::from_str("select-pane -t ");
    command.append(target.as_str());
    command.append(" -T ");
    command.append(quoted.as_str());
    Ok(command)
}

/// Closes a pane of the managed session.
pub open spec fn close_pane_text(window_id: u64, pane_id: u64) -> Seq<char> {
    "kill-pane -t =meeterm:@"@ + text::decimal(window_id as nat) + ".%"@ + text::decimal(pane_id as nat)
}

pub fn close_pane_command(window_id: u64, pane_id: u64) -> (r: String)
    ensures
        r@ == close_pane_text(window_id, pane_id),
{
    let mut command = String::from_str("kill-pane -t =meeterm:@");
    push_decimal(&mut command, window_id);
    command.append(".%");
    push_decimal(&mut command, pane_id);
    command
}

/// Closes a pane of the exact session.
pub open spec fn close_pane_for_session_text(session: Seq<char>, window_id: u64, pane_id: u64) -> Result<Seq<char>, CommandArgumentError> {
    match quote::pane_target_text(session, window_id, pane_id) {
        Ok(target) => Ok("kill-pane -t "@ + target),
        Err(e) => Err(e),
    }
}

pub fn close_pane_command_for_session(session: &str, window_id: u64, pane_id: u64) -> (r: Result<String, CommandArgumentError>)
    ensures
        quote::said(r) == close_pane_for_session_text(session@, window_id, pane_id),
{
    let target = match pane_target(session, window_id, pane_id) {
        Ok(target) => target,
        Err(e) => {
            return Err(e);
        },
    };
    let mut command = String::from_str("kill-pane -t ");
    command.append(target.as_str());
    Ok(command)
}

/// Tells tmux the size of the client.
pub open spec fn refresh_client_text(columns: u16, rows: u16) -> Seq<char> {
    "refresh-client -C "@ + text::decimal(columns as nat) + "x"@ + text::decimal(rows as nat)
}

pub fn refresh_client_command(columns: u16, rows: u16) -> (r: String)
    ensures
        r@ == refresh_client_text(columns, rows),
{
    let mut command = String::from_str("refresh-client -C ");
    push_decimal(&mut command, columns as u64);
    command.append("x");
    push_decimal(&mut command, rows as u64);
    command
}

/// Collapses the zoom of a pane, where there is one.
pub open spec fn restore_layout_text(pane_id: u64) -> Seq<char> {
    "if-shell -F -t %"@ + text::decimal(pane_id as nat) + " '#{window_zoomed_flag}' 'resize-pane -Z -t %"@ + text::decimal(pane_id as nat) + "' ''"@
}

pub fn restore_layout_command(pane_id: u64) -> (r: String)
    ensures
        r@ == restore_layout_text(pane_id),
{
    let mut command = String::from_str("if-shell -F -t %");
    push_decimal(&mut command, pane_id);
    command.append(" '#{window_zoomed_flag}' 'resize-pane -Z -t %");
    push_decimal(&mut command, pane_id);
    command.append("' ''");
    command
}

/// Collapses the zoom of a pane of the exact session, where there is one.
pub open spec fn restore_layout_for_session_text(session: Seq<char>, pane_id: u64) -> Result<Seq<char>, CommandArgumentError> {
    match quote::pane_only_target_text(session, pane_id) {
        Ok(target) => Ok("if-shell -F -t "@ + target + " '#{window_zoomed_flag}' 'resize-pane -Z -t "@ + target + "' ''"@),
        Err(e) => Err(e),
    }
}

pub fn restore_layout_command_for_session(session: &str, pane_id: u64) -> (r: Result<String, CommandArgumentError>)
    ensures
        quote::said(r) == restore_layout_for_session_text(session@, pane_id),
{
    let target = match pane_only_target(session, pane_id) {
        Ok(target) => target,
        Err(e) => {
            return Err(e);
        },
    };
    let mut command = String::from_str("if-shell -F -t ");
    command.append(target.as_str());
    command.append(" '#{window_zoomed_flag}' 'resize-pane -Z -t ");
    command.append(target.as_str());
    command.append("' ''");
    Ok(command)
}

/// Collapses the zoom of a window of the exact session, where there is one, when the pane that owned the zoom may be gone.
pub open spec fn restore_layout_for_session_window_text(session: Seq<char>, window_id: u64) -> Result<Seq<char>, CommandArgumentError> {
    match quote::window_target_text(session, window_id) {
        Ok(target) => Ok("if-shell -F -t "@ + target + " '#{window_zoomed_flag}' 'resize-pane -Z -t "@ + target + "' ''"@),
        Err(e) => Err(e),
    }
}

pub fn restore_layout_command_for_session_window(session: &str, window_id: u64) -> (r: Result<String, CommandArgumentError>)
    ensures
        quote::said(r) == restore_layout_for_session_window_text(session@, window_id),
{
    let target = match window_target(session, window_id) {
        Ok(target) => target,
        Err(e) => {
            return Err(e);
        },
    };
    let mut command = String::from_str("if-shell -F -t ");
    command.append(target.as_str());
    command.append(" '#{window_zoomed_flag}' 'resize-pane -Z -t ");
    command.append(target.as_str());
    command.append("' ''");
    Ok(command)
}

/// Selects a pane: a stale zoom is collapsed first, then the window and the
/// pane are selected, and the pane is zoomed unless its window is already.
pub open spec fn select_pane_text(
    previous_zoomed_pane: Option<u64>,
    window_id: u64,
    pane_id: u64,
) -> Seq<char> {
    let window = text::decimal(window_id as nat);
    let pane = text::decimal(pane_id as nat);
    (match previous_zoomed_pane {
        Some(id) => restore_layout_text(id) + " ; "@,
        None => seq![],
    }) + "select-window -t @"@ + window + " ; select-pane -t %"@ + pane + " ; if-shell -F -t %"@
        + pane + " '#{window_zoomed_flag}' '' 'resize-pane -Z -t %"@ + pane + "'"@
}

pub fn select_pane_command(
    previous_zoomed_pane: Option<u64>,
    window_id: u64,
    pane_id: u64,
) -> (r: String)
    ensures
        r@ == select_pane_text(previous_zoomed_pane, window_id, pane_id),
{
    let mut command = match previous_zoomed_pane {
        Some(id) => {
            let mut restore = restore_layout_command(id);
            restore.append(" ; ");
            restore
        },
        None => String::new(),
    };
    command.append("select-window -t @");
    push_decimal(&mut command, window_id);
    command.append(" ; select-pane -t %");
    push_decimal(&mut command, pane_id);
    command.append(" ; if-shell -F -t %");
    push_decimal(&mut command, pane_id);
    command.append(" '#{window_zoomed_flag}' '' 'resize-pane -Z -t %");
    push_decimal(&mut command, pane_id);
    command.append("'");
    command
}

/// The part of a selection that collapses a stale zoom.
pub open spec fn restore_part_text(session: Seq<char>, previous: Option<u64>) -> Result<
    Seq<char>,
    CommandArgumentError,
> {
    match previous {
        None => Ok(seq![]),
        Some(id) => match restore_layout_for_session_text(session, id) {
            Ok(restore) => Ok(restore + " ; "@),
            Err(e) => Err(e),
        },
    }
}

/// Like [`select_pane_text`], in the exact session.
pub open spec fn select_pane_for_session_text(
    session: Seq<char>,
    previous_zoomed_pane: Option<u64>,
    window_id: u64,
    pane_id: u64,
) -> Result<Seq<char>, CommandArgumentError> {
    match quote::pane_only_target_text(session, pane_id) {
        Err(e) => Err(e),
        Ok(target) => match quote::window_target_text(session, window_id) {
            Err(e) => Err(e),
            Ok(window) => match restore_part_text(session, previous_zoomed_pane) {
                Err(e) => Err(e),
                Ok(restore) => Ok(
                    restore + "select-window -t "@ + window + " ; select-pane -t "@ + target
                        + " ; if-shell -F -t "@ + target
                        + " '#{window_zoomed_flag}' '' 'resize-pane -Z -t "@ + target + "'"@,
                ),
            },
        },
    }
}

pub fn select_pane_command_for_session(
    session: &str,
    previous_zoomed_pane: Option<u64>,
    window_id: u64,
    pane_id: u64,
) -> (r: Result<String, CommandArgumentError>)
    ensures
        quote::said(r) == select_pane_for_session_text(session@, previous_zoomed_pane, window_id, pane_id),
{
    let target = match pane_only_target(session, pane_id) {
        Ok(target) => target,
        Err(e) => {
            return Err(e);
        },
    };
    let window = match window_target(session, window_id) {
        Ok(window) => window,
        Err(e) => {
            return Err(e);
        },
    };
    let mut command = match previous_zoomed_pane {
        Some(id) => match restore_layout_command_for_session(session, id) {
            Ok(text) => {
                let mut restore = text;
                restore.append(" ; ");
                restore
            },
            Err(e) => {
                return Err(e);
            },
        },
        None => String::new(),
    };
    command.append("select-window -t ");
    command.append(window.as_str());
    command.append(" ; select-pane -t ");
    command.append(target.as_str());
    command.append(" ; if-shell -F -t ");
    command.append(target.as_str());
    command.append(" '#{window_zoomed_flag}' '' 'resize-pane -Z -t ");
    command.append(target.as_str());
    command.append("'");
    Ok(command)
}

/// Bytes as hexadecimal words, each behind a space.
pub open spec fn hex_words(bytes: Seq<u8>) -> Seq<char>
    decreases bytes.len(),
{
    if bytes.len() == 0 {
        seq![]
    } else {
        hex_words(bytes.drop_last()) + " "@ + text::hex(bytes.last())
    }
}

fn push_hex_words(command: &mut String, bytes: &[u8])
    ensures
        final(command)@ == old(command)@ + hex_words(bytes@),
{
    let ghost start = command@;
    let mut i: usize = 0;
    assert(bytes@.take(0) == Seq::<u8>::empty());
    assert(start + Seq::<char>::empty() == start);
    while i < bytes.len()
        invariant
            i <= bytes@.len(),
            command@ == start + hex_words(bytes@.take(i as int)),
        decreases bytes@.len() - i,
    {
        assert(bytes@.take(i + 1).drop_last() == bytes@.take(i as int));
        command.append(" ");
        push_hex(command, bytes[i]);
        i = i + 1;
        assert(command@ =~= start + hex_words(bytes@.take(i as int)));
    }
    assert(bytes@.take(i as int) == bytes@);
}

/// Types bytes into a pane.
pub open spec fn send_bytes_text(pane_id: u64, bytes: Seq<u8>) -> Seq<char> {
    "send-keys -t %"@ + text::decimal(pane_id as nat) + " -H"@ + hex_words(bytes)
}

pub fn send_bytes_command(pane_id: u64, bytes: &[u8]) -> (r: String)
    ensures
        r@ == send_bytes_text(pane_id, bytes@),
{
    let mut command = String::from_str("send-keys -t %");
    push_decimal(&mut command, pane_id);
    command.append(" -H");
    push_hex_words(&mut command, bytes);
    command
}

/// Types bytes into a pane of the exact session.
pub open spec fn send_bytes_for_session_text(
    session: Seq<char>,
    pane_id: u64,
    bytes: Seq<u8>,
) -> Result<Seq<char>, CommandArgumentError> {
    match quote::pane_only_target_text(session, pane_id) {
        Ok(target) => Ok("send-keys -t "@ + target + " -H"@ + hex_words(bytes)),
        Err(e) => Err(e),
    }
}

pub fn send_bytes_command_for_session(session: &str, pane_id: u64, bytes: &[u8]) -> (r: Result<
    String,
    CommandArgumentError,
>)
    ensures
        quote::said(r) == send_bytes_for_session_text(session@, pane_id, bytes@),
{
    let target = match pane_only_target(session, pane_id) {
        Ok(target) => target,
        Err(e) => {
            return Err(e);
        },
    };
    let mut command = String::from_str("send-keys -t ");
    command.append(target.as_str());
    command.append(" -H");
    push_hex_words(&mut command, bytes);
    Ok(command)
}

/// The value of a hexadecimal digit.
pub open spec fn hex_digit_value(c: char) -> Option<nat> {
    if '0' <= c <= '9' {
        Some((c as u32 - '0' as u32) as nat)
    } else if 'a' <= c <= 'f' {
        Some((c as u32 - 'a' as u32 + 10) as nat)
    } else {
        None
    }
}

/// The bytes that hexadecimal words stand for.
pub open spec fn words_read(s: Seq<char>) -> Option<Seq<u8>>
    decreases s.len(),
{
    if s.len() == 0 {
        Some(seq![])
    } else if s.len() < 3 || s[s.len() - 3] != ' ' {
        None
    } else {
        match (
            words_read(s.take(s.len() - 3)),
            hex_digit_value(s[s.len() - 2]),
            hex_digit_value(s[s.len() - 1]),
        ) {
            (Some(front), Some(high), Some(low)) => Some(front.push((high * 16 + low) as u8)),
            _ => None,
        }
    }
}

/// Every byte that is typed reads back from the words of the command.
pub proof fn law_typed_bytes_read_back(bytes: Seq<u8>)
    ensures
        words_read(hex_words(bytes)) == Some(bytes),
    decreases bytes.len(),
{
    if bytes.len() == 0 {
        assert(bytes == Seq::<u8>::empty());
    } else {
        law_typed_bytes_read_back(bytes.drop_last());
        reveal_strlit(" ");
        let b = bytes.last();
        let front = hex_words(bytes.drop_last());
        let all = hex_words(bytes);
        assert(all.len() == front.len() + 3);
        assert(all.take(all.len() - 3) == front);
        assert(all[all.len() - 3] == ' ');
        assert(all[all.len() - 2] == text::hex(b)[0]);
        assert(all[all.len() - 1] == text::hex(b)[1]);
        assert((b / 16) * 16 + b % 16 == b);
        assert(bytes.drop_last().push(b) == bytes);
    }
}

} // verus!
