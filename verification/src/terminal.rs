//! One native terminal and its input bookkeeping.

use alacritty_terminal::event::VoidListener;
use alacritty_terminal::grid::Dimensions;
use alacritty_terminal::term::test::TermSize;
use alacritty_terminal::term::{Config, Term, TermMode};
use alacritty_terminal::vte::ansi::Processor;
use vstd::prelude::*;
use vstd::utf8::valid_utf8;

use crate::input;
use crate::input::{encode_key, Modifiers, SpecialKey};

verus! {

/// What a new terminal shows.
///
/// It exercises ordinary text, colours and styles, cursor movement, wrapping,
/// scrollback, CJK, combining marks and emoji.
pub const FIXED_DEMO_BYTES: &'static str =
    "\x1b[2J\x1b[H\
     scrollback-history-01\r\n\
     scrollback-history-02\r\n\
     scrollback-history-03\r\n\
     scrollback-history-04\r\n\
     scrollback-history-05\r\n\
     scrollback-history-06\r\n\
     scrollback-history-07\r\n\
     scrollback-history-08\r\n\
     scrollback-history-09\r\n\
     scrollback-history-10\r\n\
     scrollback-history-11\r\n\
     scrollback-history-12\r\n\
     scrollback-history-13\r\n\
     scrollback-history-14\r\n\
     scrollback-history-15\r\n\
     scrollback-history-16\r\n\
     scrollback-history-17\r\n\
     scrollback-history-18\r\n\
     scrollback-history-19\r\n\
     scrollback-history-20\r\n\
     scrollback-history-21\r\n\
     scrollback-history-22\r\n\
     scrollback-history-23\r\n\
     scrollback-history-24\r\n\
     scrollback-history-25\r\n\
     scrollback-history-26\r\n\
     scrollback-history-27\r\n\
     scrollback-history-28\r\n\
     scrollback-history-29\r\n\
     scrollback-history-30\r\n\
     scrollback-history-31\r\n\
     scrollback-history-32\r\n\
     scrollback-history-33\r\n\
     scrollback-history-34\r\n\
     scrollback-history-35\r\n\
     scrollback-history-36\r\n\
     scrollback-history-37\r\n\
     scrollback-history-38\r\n\
     scrollback-history-39\r\n\
     scrollback-history-40\r\n\
     scrollback-history-41\r\n\
     scrollback-history-42\r\n\
     scrollback-history-43\r\n\
     scrollback-history-44\r\n\
     scrollback-history-45\r\n\
     scrollback-history-46\r\n\
     scrollback-history-47\r\n\
     scrollback-history-48\r\n\
     \x1b[2J\x1b[H\
     meeterm native terminal demo\r\n\
     ASCII: The quick brown fox jumps over the lazy dog.\r\n\
     \x1b[1;31mANSI bold red\x1b[0m + \
     \x1b[4;38;5;45mindexed cyan underline\x1b[0m\r\n\
     \x1b[30;47mblack on white\x1b[0m and \
     \x1b[44;97mbright white on blue\x1b[0m\r\n\
     cursor: home\x1b[4Cmove\x1b[2Dok\r\n\
     日本語 / CJK-ASCII: 日本語 ABC 123\r\n\
     combining: e\u{301} cafe\u{301} / か\u{3099}\r\n\
     emoji: 😀 🦊\r\n\
     wrap: 0123456789 abcdefghijklmnopqrstuvwxyz \
     0123456789 abcdefghijklmnopqrstuvwxyz\r\n";

/// The widest and the tallest terminal.
pub const MAX_COLUMNS: u16 = 4096;

pub const MAX_ROWS: u16 = 4096;

/// The lines of history that a terminal keeps.
pub const SCROLLING_HISTORY: usize = 256;

#[derive(Clone, Copy, Debug, PartialEq, Eq, Structural)]
pub enum TerminalError {
    InvalidDimensions,
    InvalidUtf8,
    UnknownTerminal,
    RegistryPoisoned,
    SnapshotTooLarge,
}

impl TerminalError {
    pub open spec fn text(self) -> Seq<char> {
        match self {
            TerminalError::InvalidDimensions => "terminal dimensions are invalid"@,
            TerminalError::InvalidUtf8 => "input is not valid UTF-8"@,
            TerminalError::UnknownTerminal => "terminal ID is not registered"@,
            TerminalError::RegistryPoisoned => "terminal registry lock is poisoned"@,
            TerminalError::SnapshotTooLarge => "snapshot exceeds the ABI size limit"@,
        }
    }

    pub fn message(self) -> (r: &'static str)
        ensures
            r@ == self.text(),
    {
        match self {
            TerminalError::InvalidDimensions => "terminal dimensions are invalid",
            TerminalError::InvalidUtf8 => "input is not valid UTF-8",
            TerminalError::UnknownTerminal => "terminal ID is not registered",
            TerminalError::RegistryPoisoned => "terminal registry lock is poisoned",
            TerminalError::SnapshotTooLarge => "snapshot exceeds the ABI size limit",
        }
    }
}

/// The grid of cells of an `alacritty_terminal` terminal, with the parser that
/// writes to it.
#[verifier::external_body]
pub struct Emulator {
    term: Term<VoidListener>,
    processor: Processor,
}

/// The bytes that an emulator was fed, from its start.  What the grid holds
/// follows from them and from the resizes in between, but for synchronized
/// updates, which also end by time.
pub uninterp spec fn fed_bytes(emulator: Emulator) -> Seq<u8>;

/// The columns and rows of an emulator's screen.
pub uninterp spec fn screen_size(emulator: Emulator) -> (u16, u16);

/// The most lines of history that an emulator keeps.
pub uninterp spec fn history_limit(emulator: Emulator) -> usize;

/// The lines that an emulator holds, the history above the screen and the
/// screen itself.
pub uninterp spec fn held_lines(emulator: Emulator) -> usize;

/// The cursor keys of an emulator are in the application mode.
pub uninterp spec fn application_cursor(emulator: Emulator) -> bool;

/// `Term::new` and `Processor::new`: a screen of the given size that was fed
/// nothing, with the configured limit on its history and the cursor keys in
/// the normal mode.
#[verifier::external_body]
fn new_emulator(columns: u16, rows: u16, history: usize) -> (r: Emulator)
    requires
        columns >= 2,
        rows >= 1,
    ensures
        fed_bytes(r) == Seq::<u8>::empty(),
        screen_size(r) == (columns, rows),
        history_limit(r) == history,
        !application_cursor(r),
{
    let config = Config { scrolling_history: history, ..Config::default() };
    let size = TermSize::new(columns as usize, rows as usize);
    Emulator { term: Term::new(config, &size, VoidListener), processor: Processor::new() }
}

/// `Processor::advance`: the parser takes the bytes and writes to the grid,
/// whose size and limit on the history stay.  What the bytes do to the grid and
/// to the modes is not said.
#[verifier::external_body]
fn advance(emulator: &mut Emulator, bytes: &[u8])
    ensures
        fed_bytes(*final(emulator)) == fed_bytes(*old(emulator)) + bytes@,
        screen_size(*final(emulator)) == screen_size(*old(emulator)),
        history_limit(*final(emulator)) == history_limit(*old(emulator)),
{
    emulator.processor.advance(&mut emulator.term, bytes);
}

/// `Term::resize`: the screen takes the size; the limit on the history and the
/// modes stay.  How the lines are wrapped anew is not said.
#[verifier::external_body]
fn resize_screen(emulator: &mut Emulator, columns: u16, rows: u16)
    requires
        columns >= 2,
        rows >= 1,
    ensures
        fed_bytes(*final(emulator)) == fed_bytes(*old(emulator)),
        screen_size(*final(emulator)) == (columns, rows),
        history_limit(*final(emulator)) == history_limit(*old(emulator)),
        application_cursor(*final(emulator)) == application_cursor(*old(emulator)),
{
    emulator.term.resize(TermSize::new(columns as usize, rows as usize));
}

/// `Dimensions::columns` and `Dimensions::screen_lines` of the grid.
#[verifier::external_body]
fn measure(emulator: &Emulator) -> (r: (u16, u16))
    ensures
        r == screen_size(*emulator),
{
    (emulator.term.columns() as u16, emulator.term.screen_lines() as u16)
}

/// `Dimensions::total_lines` of the grid: the screen, and as much history as
/// there is, which is never more than the limit.
#[verifier::external_body]
fn count_lines(emulator: &Emulator) -> (r: usize)
    ensures
        r == held_lines(*emulator),
        screen_size(*emulator).1 <= r <= screen_size(*emulator).1 + history_limit(*emulator),
{
    emulator.term.total_lines()
}

/// `Term::mode`: the cursor-key mode.
#[verifier::external_body]
fn reads_application_cursor(emulator: &Emulator) -> (r: bool)
    ensures
        r == application_cursor(*emulator),
{
    emulator.term.mode().contains(TermMode::APP_CURSOR)
}

/// The size is one that a terminal can have.
pub open spec fn valid_dimensions(columns: u16, rows: u16) -> bool {
    2 <= columns <= MAX_COLUMNS && 1 <= rows <= MAX_ROWS
}

fn validate_dimensions(columns: u16, rows: u16) -> (r: Result<(), TerminalError>)
    ensures
        r == (if valid_dimensions(columns, rows) {
            Ok::<(), TerminalError>(())
        } else {
            Err(TerminalError::InvalidDimensions)
        }),
{
    if columns < 2 || rows == 0 || columns > MAX_COLUMNS || rows > MAX_ROWS {
        return Err(TerminalError::InvalidDimensions);
    }
    Ok(())
}

/// One native terminal.
pub struct Terminal {
    emulator: Emulator,
    input_commit_count: u64,
}

/// What a terminal went through.
#[verifier::ext_equal]
pub struct TerminalView {
    /// The bytes that it was fed.
    pub fed: Seq<u8>,
    pub size: (u16, u16),
    /// The most lines of history that it keeps.
    pub history: usize,
    /// The lines that it holds, with the history.
    pub lines: usize,
    /// The texts that were committed to it.
    pub commits: u64,
    /// The cursor keys are in the application mode.
    pub application_cursor: bool,
}

impl View for Terminal {
    type V = TerminalView;

    closed spec fn view(&self) -> TerminalView {
        TerminalView {
            fed: fed_bytes(self.emulator),
            size: screen_size(self.emulator),
            history: history_limit(self.emulator),
            lines: held_lines(self.emulator),
            commits: self.input_commit_count,
            application_cursor: application_cursor(self.emulator),
        }
    }
}

/// The terminal was fed the bytes, and nothing else happened to it.  They may
/// add lines and set the cursor-key mode.
pub open spec fn was_fed(now: TerminalView, before: TerminalView, bytes: Seq<u8>) -> bool {
    &&& now.fed == before.fed + bytes
    &&& now.size == before.size
    &&& now.history == before.history
    &&& now.commits == before.commits
}

/// The terminal took the size, and nothing else happened to it.  Lines that are
/// wrapped anew may become more or fewer.
pub open spec fn was_resized(now: TerminalView, before: TerminalView, size: (u16, u16)) -> bool {
    now == (TerminalView { size, lines: now.lines, ..before })
}

/// The bytes of a toolbar key in a terminal's mode.
pub open spec fn special_key_input(terminal: TerminalView, key: SpecialKey) -> Seq<u8> {
    input::key_bytes(
        input::key_of(key),
        Modifiers { shift: false, alt: false, ctrl: false },
        terminal.application_cursor,
    )
}

/// One more commit; the count stays at its end.
pub open spec fn counted(commits: u64) -> u64 {
    if commits == u64::MAX {
        commits
    } else {
        (commits + 1) as u64
    }
}

impl Terminal {
    /// A terminal that shows the demo.
    pub fn new(columns: u16, rows: u16) -> (r: Result<Self, TerminalError>)
        ensures
            match r {
                Ok(terminal) => {
                    &&& valid_dimensions(columns, rows)
                    &&& terminal@.fed == crate::text::utf8(FIXED_DEMO_BYTES@)
                    &&& terminal@.size == (columns, rows)
                    &&& terminal@.history == SCROLLING_HISTORY
                    &&& terminal@.commits == 0
                },
                Err(e) => !valid_dimensions(columns, rows) && e
                    == TerminalError::InvalidDimensions,
            },
    {
        match validate_dimensions(columns, rows) {
            Ok(_) => {},
            Err(e) => {
                return Err(e);
            },
        }
        let emulator = new_emulator(columns, rows, SCROLLING_HISTORY);
        let mut terminal = Terminal { emulator, input_commit_count: 0 };
        terminal.feed(FIXED_DEMO_BYTES.as_bytes());
        assert(terminal@.fed =~= crate::text::utf8(FIXED_DEMO_BYTES@));
        Ok(terminal)
    }

    /// Feeds bytes of the terminal data plane.
    pub fn feed(&mut self, bytes: &[u8])
        ensures
            was_fed(final(self)@, old(self)@, bytes@),
    {
        advance(&mut self.emulator, bytes);
    }

    pub fn resize(&mut self, columns: u16, rows: u16) -> (r: Result<(), TerminalError>)
        ensures
            r == (if valid_dimensions(columns, rows) {
                Ok::<(), TerminalError>(())
            } else {
                Err(TerminalError::InvalidDimensions)
            }),
            if valid_dimensions(columns, rows) {
                was_resized(final(self)@, old(self)@, (columns, rows))
            } else {
                final(self)@ == old(self)@
            },
    {
        match validate_dimensions(columns, rows) {
            Ok(_) => {
                resize_screen(&mut self.emulator, columns, rows);
                Ok(())
            },
            Err(e) => Err(e),
        }
    }

    /// Commits text once and loops it back.  Nothing is not a commit, and what
    /// is not UTF-8 is refused.
    pub fn commit_utf8(&mut self, bytes: &[u8]) -> (r: Result<u64, TerminalError>)
        ensures
            r == (if bytes@.len() == 0 {
                Ok::<u64, TerminalError>(old(self)@.commits)
            } else if valid_utf8(bytes@) {
                Ok(counted(old(self)@.commits))
            } else {
                Err(TerminalError::InvalidUtf8)
            }),
            if bytes@.len() > 0 && valid_utf8(bytes@) {
                was_fed(
                    final(self)@,
                    TerminalView { commits: counted(old(self)@.commits), ..old(self)@ },
                    bytes@,
                )
            } else {
                final(self)@ == old(self)@
            },
    {
        if bytes.len() == 0 {
            return Ok(self.input_commit_count);
        }
        match core::str::from_utf8(bytes) {
            Ok(_) => {},
            Err(_) => {
                return Err(TerminalError::InvalidUtf8);
            },
        }
        if self.input_commit_count < u64::MAX {
            self.input_commit_count = self.input_commit_count + 1;
        }
        self.feed(bytes);
        Ok(self.input_commit_count)
    }

    /// The bytes that a toolbar key sends in the terminal's mode.
    pub fn special_key_input(&self, key: SpecialKey) -> (r: Vec<u8>)
        ensures
            r@ == special_key_input(self@, key),
    {
        encode_key(key.key(), Modifiers::none(), reads_application_cursor(&self.emulator))
    }

    /// Loops a toolbar key back.  Gives the number of its bytes.
    pub fn send_special_key(&mut self, key: SpecialKey) -> (r: usize)
        ensures
            r == special_key_input(old(self)@, key).len(),
            was_fed(final(self)@, old(self)@, special_key_input(old(self)@, key)),
    {
        let bytes = self.special_key_input(key);
        self.feed(bytes.as_slice());
        bytes.len()
    }

    pub fn input_commit_count(&self) -> (r: u64)
        ensures
            r == self@.commits,
    {
        self.input_commit_count
    }

    /// The columns and rows of the screen.
    pub fn dimensions(&self) -> (r: (u16, u16))
        ensures
            r == self@.size,
    {
        measure(&self.emulator)
    }

    /// The lines of the screen and of the history above it.
    pub fn total_lines(&self) -> (r: usize)
        ensures
            r == self@.lines,
            self@.size.1 <= r <= self@.size.1 + self@.history,
    {
        count_lines(&self.emulator)
    }
}

} // verus!
