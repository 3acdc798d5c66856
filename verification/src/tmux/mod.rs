//! Byte-oriented tmux Control Mode support.
//!
//! The channel that carries a control-mode client is not a terminal stream:
//! tmux wraps pane output in `%output` notifications and escapes the payload
//! in octal.  These modules keep that framing apart from the terminal parser
//! and hand out decoded pane bytes and structured command results only.
pub mod command_laws;
pub mod commands;
pub mod decoder;
pub mod error;
pub mod escape;
pub mod format_laws;
pub mod hook_laws;
pub mod hook_run_laws;
pub mod hooks;
pub mod ids;
pub mod notice_laws;
pub mod quote;
pub mod record_laws;
pub mod records;
pub mod request_laws;
pub mod snapshot;
pub mod stream_laws;

pub use crate::diagnostics::{is_command_missing, is_session_collision, is_verified_no_server};
pub use commands::{
    attach_command_for_session, attached_session_epoch_command, capture_pane_command_for_session,
    close_pane_command, close_pane_command_for_session, close_workspace_command,
    close_workspace_command_for_session, create_pane_command, create_pane_command_for_session,
    create_session_command, create_workspace_command, create_workspace_command_for_session,
    list_panes_command, list_panes_command_for_session, list_sessions_command,
    list_topology_command, list_windows_command, list_windows_command_for_session,
    refresh_client_command, rename_pane_command, rename_pane_command_for_session,
    rename_workspace_command, rename_workspace_command_for_session, restore_layout_command,
    restore_layout_command_for_session, restore_layout_command_for_session_window,
    select_pane_command, select_pane_command_for_session, send_bytes_command,
    send_bytes_command_for_session,
};
pub use decoder::{CommandBlock, Decoder, Event};
pub use error::{CommandArgumentError, DecodeError};
pub use escape::{decode_capture, decode_octal};
pub use hooks::{
    choose_zoom_recovery_hook, cleanup_zoom_recovery_hooks_command,
    cleanup_zoom_recovery_hooks_command_for_session, install_zoom_recovery_hooks_command,
    install_zoom_recovery_hooks_command_for_session, remove_zoom_recovery_hooks_command,
    remove_zoom_recovery_hooks_command_for_session, zoom_recovery_hook_body_for_session,
    zoom_recovery_hooks_absent, zoom_recovery_hooks_state, ZoomRecoveryHookAllocation,
    ZoomRecoveryHookState, ZOOM_RECOVERY_HOOK_INDEX_LIMIT, ZOOM_RECOVERY_HOOK_INDEX_START,
};
pub use ids::{parse_pane_id, parse_window_id};
pub use quote::{quote_tmux_argument, validate_create_name, SESSION_NAME};
pub use records::{
    decode_tmux_quoted, parse_pane_line, parse_session_epoch_line, parse_session_line,
    parse_topology_line, parse_window_line, PaneInfo, SessionEpoch, SessionIdentity, WindowInfo,
    WindowTopology, MAX_SESSION_NAME_BYTES,
};
pub use snapshot::{PaneSnapshot, SessionSnapshot, WindowSnapshot, MAX_RUNTIME_SESSIONS};
