use meeterm_core::input::{
    encode_key, encode_special_key, encode_text, modify_text, KeyCode, Modifiers, SpecialKey,
};
use meeterm_core::terminal::{Terminal, TerminalError, FIXED_DEMO_BYTES, SCROLLING_HISTORY};

#[test]
fn fixed_demo_exercises_the_required_terminal_features() {
    let demo = std::str::from_utf8(FIXED_DEMO_BYTES.as_bytes()).expect("demo must be UTF-8");

    assert!(demo.contains("ASCII:"));
    assert!(demo.contains("ANSI bold red"));
    assert!(demo.contains("indexed cyan underline"));
    assert!(demo.contains("\x1b[4C"));
    assert!(demo.contains("wrap:"));
    assert!(demo.contains("scrollback-history-48"));
    assert!(demo.contains("日本語"));
    assert!(demo.contains("CJK-ASCII"));
    assert!(demo.contains("e\u{301}"));
    assert!(demo.contains("か\u{3099}"));
    assert!(demo.contains("😀"));
}

#[test]
fn resize_updates_snapshot_dimensions_deterministically() {
    let mut terminal = Terminal::new(12, 3).expect("valid dimensions");
    assert_eq!(terminal.dimensions(), (12, 3));

    terminal.resize(20, 5).expect("resize should succeed");
    assert_eq!(terminal.dimensions(), (20, 5));
}

#[test]
fn term_owns_scrollback_and_demo_is_fed_during_creation() {
    let terminal = Terminal::new(80, 8).expect("valid dimensions");

    assert!(terminal.total_lines() > usize::from(terminal.dimensions().1));
    assert_eq!(terminal.input_commit_count(), 0);
}

#[test]
fn the_history_of_a_terminal_is_limited() {
    let mut terminal = Terminal::new(80, 8).expect("valid dimensions");
    for _ in 0..2 * SCROLLING_HISTORY {
        terminal.feed(b"line\r\n");
    }
    assert_eq!(terminal.total_lines(), 8 + SCROLLING_HISTORY);
    terminal.resize(80, 20).expect("valid dimensions");
    assert!(terminal.total_lines() <= 20 + SCROLLING_HISTORY);
    terminal.feed(b"\x1b[3J");
    assert_eq!(terminal.total_lines(), 20);
}

#[test]
fn special_key_encoding_is_explicit_and_stable() {
    let cases = [
        (SpecialKey::Escape, b"\x1b".as_slice()),
        (SpecialKey::Tab, b"\t".as_slice()),
        (SpecialKey::Enter, b"\r".as_slice()),
        (SpecialKey::Backspace, b"\x7f".as_slice()),
        (SpecialKey::Up, b"\x1b[A".as_slice()),
        (SpecialKey::Down, b"\x1b[B".as_slice()),
        (SpecialKey::Left, b"\x1b[D".as_slice()),
        (SpecialKey::Right, b"\x1b[C".as_slice()),
        (SpecialKey::Interrupt, b"\x03".as_slice()),
    ];

    for (key, expected) in cases {
        assert_eq!(encode_special_key(key), expected);
    }
}

#[test]
fn commit_utf8_is_counted_once_and_looped_back_natively() {
    let mut terminal = Terminal::new(24, 4).expect("valid dimensions");
    terminal.feed(b"\x1b[2J\x1b[H");

    assert_eq!(terminal.commit_utf8("日本語".as_bytes()).unwrap(), 1);
    assert_eq!(terminal.input_commit_count(), 1);
    assert_eq!(terminal.commit_utf8(&[]).unwrap(), 1);
    assert_eq!(
        terminal.commit_utf8(&[0xff]),
        Err(TerminalError::InvalidUtf8)
    );
    assert_eq!(terminal.input_commit_count(), 1);

    // What is committed reaches the terminal: it sets a mode.
    assert_eq!(terminal.special_key_input(SpecialKey::Up), b"\x1b[A");
    assert_eq!(terminal.commit_utf8(b"\x1b[?1h").unwrap(), 2);
    assert_eq!(terminal.special_key_input(SpecialKey::Up), b"\x1bOA");
}

#[test]
fn application_cursor_mode_is_encoded_by_rust_terminal_state() {
    let mut terminal = Terminal::new(24, 4).expect("valid dimensions");
    terminal.feed(b"\x1b[?1h");
    assert_eq!(terminal.special_key_input(SpecialKey::Up), b"\x1bOA");
    assert_eq!(terminal.send_special_key(SpecialKey::Up), 3);
    terminal.feed(b"\x1b[?1l");
    assert_eq!(terminal.special_key_input(SpecialKey::Up), b"\x1b[A");
    assert_eq!(terminal.send_special_key(SpecialKey::Interrupt), 1);
}

#[test]
fn a_terminal_refuses_dimensions_out_of_range() {
    for (columns, rows) in [(1, 24), (80, 0), (4097, 24), (80, 4097), (0, 0)] {
        assert_eq!(
            Terminal::new(columns, rows).err(),
            Some(TerminalError::InvalidDimensions)
        );
    }
    let mut terminal = Terminal::new(2, 1).expect("the smallest terminal");
    assert_eq!(
        terminal.resize(1, 1),
        Err(TerminalError::InvalidDimensions)
    );
    assert_eq!(terminal.dimensions(), (2, 1));
    assert_eq!(
        TerminalError::InvalidDimensions.message(),
        "terminal dimensions are invalid"
    );
}

#[test]
fn generic_modifier_encoding_covers_text_navigation_and_decckm() {
    assert_eq!(encode_text("c", Modifiers::ctrl()), b"\x03");
    assert_eq!(encode_text("a", Modifiers::alt()), b"\x1ba");
    assert_eq!(encode_text("日本", Modifiers::shift()), "日本".as_bytes());
    assert_eq!(
        encode_key(KeyCode::Home, Modifiers::none(), false),
        b"\x1b[H"
    );
    assert_eq!(
        encode_key(KeyCode::Delete, Modifiers::shift(), false),
        b"\x1b[3;2~"
    );
    assert_eq!(
        encode_key(KeyCode::Up, Modifiers::ctrl(), false),
        b"\x1b[1;5A"
    );
    assert_eq!(encode_key(KeyCode::Up, Modifiers::none(), true), b"\x1bOA");
    assert_eq!(
        encode_key(KeyCode::PageDown, Modifiers::alt(), false),
        b"\x1b[6;3~"
    );
}

#[test]
fn modified_function_keys_use_xterm_f1_through_f4_sequences() {
    let function_keys = [
        (KeyCode::F1, 'P'),
        (KeyCode::F2, 'Q'),
        (KeyCode::F3, 'R'),
        (KeyCode::F4, 'S'),
    ];
    let modifiers = [
        (Modifiers::shift(), 2),
        (Modifiers::alt(), 3),
        (Modifiers::ctrl(), 5),
    ];

    for (key, final_byte) in function_keys {
        for (modifier, parameter) in modifiers {
            assert_eq!(
                encode_key(key, modifier, false),
                format!("\x1b[1;{parameter}{final_byte}").into_bytes(),
                "unexpected sequence for {key:?} with {modifier:?}",
            );
        }
    }
    assert_eq!(
        encode_key(KeyCode::F5, Modifiers::ctrl(), false),
        b"\x1b[15;5~"
    );
}

#[test]
fn toolbar_keys_are_keys_without_modifiers() {
    for key in [SpecialKey::Escape, SpecialKey::Left, SpecialKey::Interrupt] {
        assert_eq!(
            encode_special_key(key),
            encode_key(key.key(), Modifiers::none(), false)
        );
    }
}

#[test]
fn modifiers_change_each_character() {
    assert_eq!(modify_text("ab", Modifiers::none()), "ab");
    assert_eq!(encode_text("", Modifiers::ctrl()), b"");
}
