use meeterm_core::tmux::{
    CommandArgumentError, CommandBlock, DecodeError, Decoder, Event, ZoomRecoveryHookAllocation, ZoomRecoveryHookState, attach_command_for_session, attached_session_epoch_command, capture_pane_command_for_session, choose_zoom_recovery_hook, cleanup_zoom_recovery_hooks_command, close_pane_command, close_workspace_command, create_pane_command, create_session_command, create_workspace_command, create_workspace_command_for_session, decode_capture, decode_octal, decode_tmux_quoted, install_zoom_recovery_hooks_command, is_command_missing, is_session_collision, is_verified_no_server, list_panes_command_for_session, list_sessions_command, list_windows_command_for_session, parse_pane_id, parse_pane_line, parse_session_epoch_line, parse_session_line, parse_topology_line, parse_window_id, parse_window_line, quote_tmux_argument, rename_pane_command, rename_workspace_command, restore_layout_command, select_pane_command, validate_create_name, zoom_recovery_hook_body_for_session, zoom_recovery_hooks_state,
};

#[test]
fn capture_quotes_backslashes_differently_from_output_notifications() {
    assert_eq!(
        decode_capture(br"literal\\033 \\xyz \033[31m").unwrap(),
        b"literal\\033 \\xyz \x1b[31m"
    );
    assert_eq!(decode_octal(br"literal\134033").unwrap(), b"literal\\033");
}

#[test]
fn decodes_fragmented_output_and_preserves_spaces() {
    let mut decoder = Decoder::new();
    assert!(decoder.feed(b"%output %7 hello\\040").unwrap().is_empty());
    let events = decoder.feed(b"world\\012\\134\\141\n").unwrap();
    assert_eq!(
        events,
        vec![Event::Output {
            pane_id: 7,
            bytes: b"hello world\n\\a".to_vec()
        }]
    );
}

#[test]
fn output_payload_may_be_empty_or_only_spaces() {
    let mut decoder = Decoder::new();
    let events = decoder.feed(b"%output %0  \n%output %1 \n").unwrap();
    assert_eq!(
        events,
        vec![
            Event::Output {
                pane_id: 0,
                bytes: b" ".to_vec(),
            },
            Event::Output {
                pane_id: 1,
                bytes: Vec::new(),
            },
        ]
    );
}

#[test]
fn command_blocks_and_notifications_do_not_mix() {
    let mut decoder = Decoder::new();
    let events = decoder
        .feed(b"%begin 1 42 0\n@0\tmain\n%end 1 42 0\n%window-add @1\n")
        .unwrap();
    assert_eq!(
        events,
        vec![
            Event::Command(CommandBlock {
                number: 42,
                lines: vec![b"@0\tmain".to_vec()],
                error: false,
            }),
            Event::Notification {
                name: "window-add".to_owned(),
                arguments: vec![b"@1".to_vec()]
            }
        ]
    );
}

#[test]
fn marker_like_capture_lines_stay_inside_the_command_block() {
    let mut decoder = Decoder::new();
    let events = decoder
        .feed(
            b"%begin 10 42 0\n%begin 11 99 0\n%end 11 99 0\n%end 10 42 1\n%end 10 41 0\nbody\n%end 10 42 0\n",
        )
        .unwrap();
    assert_eq!(
        events,
        vec![Event::Command(CommandBlock {
            number: 42,
            lines: vec![
                b"%begin 11 99 0".to_vec(),
                b"%end 11 99 0".to_vec(),
                b"%end 10 42 1".to_vec(),
                b"%end 10 41 0".to_vec(),
                b"body".to_vec(),
            ],
            error: false,
        })]
    );
}

#[test]
fn adjacent_command_blocks_are_framed_independently() {
    let mut decoder = Decoder::new();
    let events = decoder
        .feed(b"%begin 1 1 0\nfirst\n%end 1 1 0\n%begin 2 2 0\nsecond\n%error 2 2 0\n")
        .unwrap();
    assert_eq!(
        events,
        vec![
            Event::Command(CommandBlock {
                number: 1,
                lines: vec![b"first".to_vec()],
                error: false,
            }),
            Event::Command(CommandBlock {
                number: 2,
                lines: vec![b"second".to_vec()],
                error: true,
            }),
        ]
    );
}

#[test]
fn extended_output_uses_the_first_protocol_colon() {
    let mut decoder = Decoder::new();
    let events = decoder
        .feed(b"%extended-output %7 12 : first:second\\040\n")
        .unwrap();
    assert_eq!(
        events,
        vec![Event::Output {
            pane_id: 7,
            bytes: b"first:second ".to_vec(),
        }]
    );
}

#[test]
fn rejects_malformed_escape_and_ids() {
    assert_eq!(
        decode_octal(b"bad\\08x"),
        Err(DecodeError::InvalidOctalEscape)
    );
    assert_eq!(parse_pane_id(b"%"), Err(DecodeError::InvalidPaneId));
    assert_eq!(parse_pane_id(b"%a"), Err(DecodeError::InvalidPaneId));
    assert_eq!(
        parse_window_id(b"%1"),
        Err(DecodeError::InvalidNotification)
    );
}

#[test]
fn selection_command_contains_only_validated_numeric_target() {
    assert_eq!(
        select_pane_command(None, 4, 12),
        "select-window -t @4 ; select-pane -t %12 ; if-shell -F -t %12 '#{window_zoomed_flag}' '' 'resize-pane -Z -t %12'"
    );
    assert_eq!(
        select_pane_command(Some(7), 4, 12),
        "if-shell -F -t %7 '#{window_zoomed_flag}' 'resize-pane -Z -t %7' '' ; select-window -t @4 ; select-pane -t %12 ; if-shell -F -t %12 '#{window_zoomed_flag}' '' 'resize-pane -Z -t %12'"
    );
    assert_eq!(
        restore_layout_command(12),
        "if-shell -F -t %12 '#{window_zoomed_flag}' 'resize-pane -Z -t %12' ''"
    );
}

#[test]
fn quoted_window_and_pane_fields_are_decoded_without_delimiter_loss() {
    let window = parse_window_line(b"@4\twork\\040desk\\011x\\012y\\134").unwrap();
    assert_eq!(window.name, "work desk\tx\ny\\");

    let pane = parse_pane_line(b"@4\t%8\t2\t0\t80\t24\ttab\\011line\\134q\t1\t0").unwrap();
    assert_eq!(pane.window_id, 4);
    assert_eq!(pane.pane_id, 8);
    assert_eq!(pane.title, "tab\tline\\q");
    assert_eq!(pane.pane_name, "tab\tline\\q");
    assert!(pane.zoomed);
    assert!(!pane.window_active);
}

#[test]
fn q_quoted_names_collapse_format_escapes_without_losing_backslashes() {
    // This is the byte shape emitted by tmux 3.4 for the name
    // `daily ; # $HOME \\ \" 日本語`. The four slashes before `$HOME`
    // are tmux's format-output escape layers, while the five before the
    // space are one literal backslash plus q:'s escaped space.
    let encoded = r##"daily\ \;\ \#\ \\\\$HOME\ \\\\\ \"\ 日本語"##.as_bytes();
    assert_eq!(decode_tmux_quoted(encoded), "daily ; # $HOME \\ \" 日本語");

    assert_eq!(decode_tmux_quoted(br"$"), "$");
    assert_eq!(decode_tmux_quoted(br"\$HOME"), "$HOME");
    assert_eq!(decode_tmux_quoted(br"\\$HOME"), "$HOME");
    assert_eq!(decode_tmux_quoted(br"\\\ "), "\\ ");
    assert_eq!(decode_tmux_quoted(br"\\\\$HOME"), "$HOME");
    assert_eq!(decode_tmux_quoted(br"\\\\\\\\$HOME"), "\\$HOME");
    assert_eq!(decode_tmux_quoted(br"\\\\"), "\\");
}

#[test]
fn user_names_are_quoted_as_one_tmux_argument() {
    let name = "desk; # comment $HOME ~root \\\\ \" ' 日本語";
    let quoted = quote_tmux_argument(name).unwrap();
    assert!(quoted.starts_with('\'') && quoted.ends_with('\''));
    assert!(quoted.contains("$HOME"));
    assert!(quoted.contains("## comment"));
    assert!(quoted.contains("'\\''"));
    assert!(quoted.contains("日本語"));
    assert!(
        !create_workspace_command(name)
            .unwrap()
            .contains("; # comment $HOME")
    );
    assert_eq!(
        rename_workspace_command(42, name).unwrap(),
        format!("rename-window -t =meeterm:@42 {quoted}")
    );
    assert_eq!(
        rename_pane_command(42, 7, name).unwrap(),
        format!("select-pane -t =meeterm:@42.%7 -T {quoted}")
    );
    assert_eq!(close_workspace_command(42), "kill-window -t =meeterm:@42");
    assert_eq!(create_pane_command(42), "split-window -d -t =meeterm:@42");
    assert_eq!(close_pane_command(42, 7), "kill-pane -t =meeterm:@42.%7");
}

#[test]
fn user_names_reject_line_controls_and_unbounded_values() {
    assert_eq!(quote_tmux_argument(""), Err(CommandArgumentError::Empty));
    assert_eq!(
        quote_tmux_argument("line\nfeed"),
        Err(CommandArgumentError::ControlCharacter)
    );
    assert_eq!(
        quote_tmux_argument(&"x".repeat(4097)),
        Err(CommandArgumentError::TooLong)
    );
}

#[test]
fn runtime_discovery_retains_opaque_id_server_identity_and_unicode_name() {
    let line = "$7|daily\\ \\;\\ \\#\\ $HOME\\ 日本語|4242|1700000000";
    let identity = parse_session_line(line.as_bytes()).unwrap();
    assert_eq!(identity.session_id, "$7");
    assert_eq!(identity.name, "daily ; # $HOME 日本語");
    assert_eq!(identity.server_pid, 4242);
    assert_eq!(identity.server_start_time, 1700000000);
    let mut same_pid_after_restart = identity.clone();
    same_pid_after_restart.server_start_time += 1;
    assert_ne!(identity, same_pid_after_restart);
    let mut renamed = identity.clone();
    renamed.name = "renamed-hint".into();
    assert_eq!(identity, renamed);

    let attach = attach_command_for_session(&identity.session_id).unwrap();
    assert_eq!(attach, "tmux -C -u attach-session -t '=$7'");
    assert!(!attach.contains("new-session -A"));

    let pipe_name = parse_session_line(b"$8|daily\\|ops|4242|1700000001").unwrap();
    assert_eq!(pipe_name.name, "daily|ops");
}

#[test]
fn attached_epoch_query_rejects_preflight_to_attach_server_replacements() {
    let preflight = parse_session_line(b"$7|meeterm|4242|1700000000").unwrap();
    let query = attached_session_epoch_command();
    assert_eq!(
        query,
        "display-message -p '#{session_id}|#{pid}|#{start_time}'"
    );

    // The same session ID and unchanged PID/start time prove that the
    // Control Mode stream reached the server observed by preflight.
    let attached = parse_session_epoch_line(b"$7|4242|1700000000").unwrap();
    assert!(attached.matches(&preflight));

    // A session replacement may retain the name, the ID, or even the OS
    // PID. The complete server epoch is required in every case.
    for replacement in [
        b"$8|4242|1700000000".as_slice(),
        b"$7|4243|1700000000".as_slice(),
        b"$7|4242|1700000001".as_slice(),
    ] {
        let replacement = parse_session_epoch_line(replacement).unwrap();
        assert!(!replacement.matches(&preflight));
    }

    for malformed in [
        b"$7|4242".as_slice(),
        b"$7|0|1700000000".as_slice(),
        b"$7|4242|0".as_slice(),
        b"$7|4242|1700000000|extra".as_slice(),
    ] {
        assert!(parse_session_epoch_line(malformed).is_err());
    }
}

#[test]
fn runtime_discovery_rejects_invalid_utf8_controls_and_server_identity() {
    assert!(parse_session_line(b"$1\t\xff\t1\t1").is_err());
    assert!(parse_session_line(b"$1\tbad\x01name\t1\t1").is_err());
    assert!(parse_session_line(b"$1\tname\\\t1\t1").is_err());
    assert!(parse_session_line(b"$1\tname\t0\t1").is_err());
    assert!(parse_session_line(b"$1\tname\t1\t0").is_err());
    assert!(parse_session_line(b"$1\tname\t1").is_err());
    assert!(parse_session_line(b"$1|name|1").is_err());
    assert!(parse_session_line(b"$1|name|0|1").is_err());
    assert!(parse_topology_line(b"$1\tname\t@2\t0").is_err());
    assert!(parse_topology_line(b"$1\t\xff\t@2\t1").is_err());
}

#[test]
fn discovery_exit_diagnostics_are_narrow_and_fail_closed() {
    assert!(is_verified_no_server(
        b"no server running on /tmp/tmux-1000/default\n"
    ));
    assert!(is_verified_no_server(b"no sessions\n"));
    assert!(!is_verified_no_server(b"fatal: no sessions\n"));
    assert!(!is_verified_no_server(b"permission denied\n"));
    assert!(is_command_missing(Some(127), b"sh: tmux: not found\n"));
    assert!(!is_command_missing(Some(1), b"not found in a data field\n"));
    assert!(is_session_collision(b"duplicate session: work\n"));
    assert!(!is_session_collision(b"permission denied\n"));
}

#[test]
fn runtime_commands_are_session_scoped_and_create_is_explicit() {
    let name = "desk-1";
    let create = create_session_command(name).unwrap();
    assert!(create.starts_with("tmux new-session -d -s '"));
    assert!(create.contains("-P -F"));
    assert!(create.contains("#{session_id}"));
    assert!(create.contains("#{pid}"));
    assert!(create.contains("#{start_time}"));
    assert!(create.contains("#{session_id}|#{q:session_name}|#{pid}|#{start_time}"));
    assert!(!create.contains('\t'));
    assert!(!create.contains("\\t"));
    assert!(!create.contains("new-session -A"));
    assert!(create_session_command("desk; # $HOME 日本語").is_err());
    assert_eq!(
        validate_create_name("."),
        Err(CommandArgumentError::ControlCharacter)
    );
    assert!(validate_create_name("日本語").is_err());
    assert!(validate_create_name("a.b_c-2").is_ok());
    assert!(validate_create_name("1-start").is_ok());
    assert!(validate_create_name("-start").is_err());
    assert!(validate_create_name("_start").is_err());
    assert!(validate_create_name(".start").is_err());
    assert!(validate_create_name(&"a".repeat(64)).is_ok());
    assert!(validate_create_name(&"a".repeat(65)).is_err());
    assert!(validate_create_name("a#b").is_err());
    assert!(validate_create_name("a\nb").is_err());

    let command = create_workspace_command_for_session("team; # 日本語", "work").unwrap();
    assert!(command.contains("new-window -d -t '"));
    assert!(command.contains("work"));
    assert!(list_sessions_command().contains("#{pid}"));
    assert!(list_sessions_command().contains("#{start_time}"));
    assert!(list_sessions_command().contains("#{session_id}|#{q:session_name}"));
    assert!(!list_sessions_command().contains('\t'));
    assert!(!list_sessions_command().contains("new-session"));

    let windows = list_windows_command_for_session("$7").unwrap();
    let panes = list_panes_command_for_session("$7").unwrap();
    assert!(windows.contains("#{window_id}\t#{q:window_name}"));
    assert!(panes.contains("#{window_id}\t#{pane_id}"));
    assert!(!windows.contains("\\t"));
    assert!(!panes.contains("\\t"));
    assert!(
        capture_pane_command_for_session("$7", 9)
            .unwrap()
            .contains("-t '=$7:.%9'")
    );
}

#[test]
fn hook_allocator_preserves_existing_indices_and_base_hooks() {
    let hooks = b"client-detached[0] display-message user\nclient-session-changed[1000] user\npane-died[1001] user\nwindow-renamed\n";
    let allocation = choose_zoom_recovery_hook(hooks).unwrap();
    assert_eq!(allocation.index, 1002);

    assert!(choose_zoom_recovery_hook(b"pane-died[message] user\n").is_some());
    assert!(choose_zoom_recovery_hook(b"pane-died[broken[1] user\n").is_none());
}

#[test]
fn zoom_recovery_commands_are_session_scoped_and_numeric() {
    let allocation = ZoomRecoveryHookAllocation { index: 1002 };
    let install = install_zoom_recovery_hooks_command(allocation, 23);
    assert!(install.starts_with("set-hook -t =meeterm: client-detached[1002] '"));
    assert!(install.contains("client-session-changed[1002]"));
    assert!(
        install
            .contains("if-shell -F -t '=meeterm:@23' \"#{window_zoomed_flag}\" \"resize-pane -Z -t '=meeterm:@23'\"")
    );
    assert!(install.contains("set-hook -u -t =meeterm: client-detached[1002]"));
    assert!(install.contains("set-hook -u -t =meeterm: client-session-changed[1002]"));
    assert!(!install.contains("set-hook -u -t =meeterm: client-detached'"));
    assert!(!install.contains("set-hook -u -t =meeterm: client-session-changed'"));

    let cleanup = cleanup_zoom_recovery_hooks_command(allocation, 23);
    assert!(cleanup.starts_with("if-shell -F -t %23"));
    assert!(cleanup.contains("client-detached[1002]"));
}

#[test]
fn zoom_recovery_hook_state_requires_both_exact_window_scoped_entries() {
    let allocation = ZoomRecoveryHookAllocation { index: 1003 };
    let session = "meeterm";
    let body =
        zoom_recovery_hook_body_for_session(session, allocation, 23).expect("owned hook body");
    let owned = format!(
        "client-detached[{}] {body}\nclient-session-changed[{}] {body}\n",
        allocation.index, allocation.index
    );
    assert_eq!(
        zoom_recovery_hooks_state(&owned.into_bytes(), allocation, session, 23),
        Ok(ZoomRecoveryHookState::Owned)
    );
    // tmux re-parses the stored body for `show-hooks`: outer single
    // quotes are normalized away while quotes inside double-quoted
    // arguments remain. This is the observed tmux 3.4 stored form.
    let normalized_body = format!(
        "if-shell -F -t =meeterm:@23 \"#{{window_zoomed_flag}}\" \"resize-pane -Z -t '=meeterm:@23'\" ; set-hook -u -t =meeterm: client-detached[{}] ; set-hook -u -t =meeterm: client-session-changed[{}]",
        allocation.index, allocation.index
    );
    let normalized = format!(
        "client-detached[{}] {normalized_body}\nclient-session-changed[{}] {normalized_body}\n",
        allocation.index, allocation.index
    );
    assert_eq!(
        zoom_recovery_hooks_state(&normalized.into_bytes(), allocation, session, 23),
        Ok(ZoomRecoveryHookState::Owned)
    );
    // A numeric `$N` session target is rendered with the colon inside
    // double quotes: `-t '=$0':` is stored as `-t "=$0:"`. Observed on
    // the real OpenSSH fixture, which selects runtimes by `$` identity.
    let numeric_session = "$0";
    let numeric_body = format!(
        "if-shell -F -t \"=$0:@0\" \"#{{window_zoomed_flag}}\" \"resize-pane -Z -t =$0:@0\" ; set-hook -u -t \"=$0:\" client-detached[{}] ; set-hook -u -t \"=$0:\" client-session-changed[{}]",
        allocation.index, allocation.index
    );
    let numeric = format!(
        "client-detached[{}] {numeric_body}\nclient-session-changed[{}] {numeric_body}\n",
        allocation.index, allocation.index
    );
    assert_eq!(
        zoom_recovery_hooks_state(&numeric.into_bytes(), allocation, numeric_session, 0),
        Ok(ZoomRecoveryHookState::Owned)
    );
    assert_eq!(
        zoom_recovery_hooks_state(b"", allocation, session, 23),
        Ok(ZoomRecoveryHookState::Absent)
    );
    assert_eq!(
        zoom_recovery_hooks_state(
            format!(
                "client-detached[{}] display-message third-party\n",
                allocation.index
            )
            .as_bytes(),
            allocation,
            session,
            23,
        ),
        Ok(ZoomRecoveryHookState::Replaced)
    );
}

fn shown_pair(first: &str, second: &str) -> Vec<u8> {
    format!(
        "pane-died[1003] display-message other\n{first}\nclient-detached[0] user\n{second}\n"
    )
    .into_bytes()
}

#[test]
fn hooks_of_another_window_are_replaced() {
    let allocation = ZoomRecoveryHookAllocation { index: 1003 };
    let body = "if-shell -F -t =meeterm:@23 \"#{window_zoomed_flag}\" \"resize-pane -Z -t =meeterm:@23\" ; set-hook -u -t =meeterm: client-detached[1003] ; set-hook -u -t =meeterm: client-session-changed[1003]";
    let detached = format!("client-detached[1003] {body}");
    let changed = format!("client-session-changed[1003] {body}");
    let pair = shown_pair(&detached, &changed);
    for (window, state) in [
        (23, ZoomRecoveryHookState::Owned),
        (2, ZoomRecoveryHookState::Replaced),
        (3, ZoomRecoveryHookState::Replaced),
        (230, ZoomRecoveryHookState::Replaced),
    ] {
        assert_eq!(
            zoom_recovery_hooks_state(&pair, allocation, "meeterm", window),
            Ok(state)
        );
    }
    // The order does not matter, and one hook is no pair.
    assert_eq!(
        zoom_recovery_hooks_state(&shown_pair(&changed, &detached), allocation, "meeterm", 23),
        Ok(ZoomRecoveryHookState::Owned)
    );
    for line in [&detached, &changed] {
        assert_eq!(
            zoom_recovery_hooks_state(line.as_bytes(), allocation, "meeterm", 23),
            Ok(ZoomRecoveryHookState::Replaced)
        );
    }
    // Another session, and a body that does more.
    assert_eq!(
        zoom_recovery_hooks_state(&pair, allocation, "term", 23),
        Ok(ZoomRecoveryHookState::Replaced)
    );
    let longer = shown_pair(&detached, &format!("{changed} ; display-message more"));
    assert_eq!(
        zoom_recovery_hooks_state(&longer, allocation, "meeterm", 23),
        Ok(ZoomRecoveryHookState::Replaced)
    );
}

#[test]
fn a_stream_that_is_cut_off_is_noticed_at_its_end() {
    let whole: &[u8] = b"%begin 1 7 0\nline\n%end 1 7 0\n%exit\n";
    for (length, expected) in [
        (0, Ok(())),
        (6, Err(DecodeError::UnexpectedCommandEnd)),
        (13, Err(DecodeError::UnexpectedCommandEnd)),
        (18, Err(DecodeError::UnexpectedCommandEnd)),
        (28, Err(DecodeError::UnexpectedCommandEnd)),
        (29, Ok(())),
        (34, Err(DecodeError::UnexpectedCommandEnd)),
        (35, Ok(())),
    ] {
        for chunk in [1, 5, 64] {
            let mut decoder = Decoder::new();
            for piece in whole[..length].chunks(chunk) {
                decoder.feed(piece).expect("a well-formed stream");
            }
            assert_eq!(decoder.finish(), expected, "{length} bytes by {chunk}");
        }
    }
}
