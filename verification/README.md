# meeterm core

The transport-independent core of a mobile terminal client: a phone is another
viewport into a tmux session or a Herdr session that a desktop keeps using.

The library is written in Verus. It decides what is sent to the remote host,
what an answer means and what is shown. Its functions are verified against their
contracts, except for the few marked `external_body`, which call
`alacritty_terminal`, `serde_json` or the standard library. Their contracts, and
those given to standard functions by `assume_specification`, are trusted: each
says in its doc comment what it claims of the function behind it.

- `src/tmux/` reads and writes tmux Control Mode: the stream decoder, the
  escapes, the commands and the hooks that undo a zoom.
- `src/ssh/` holds the controllers as state machines. Each machine takes what
  came back and gives the next action. `run` and `herdr::run` are the lives of
  the two controllers, `plan`, `sync` and `herdr::project` bring the shown topology up
  to date, `cleanup` and `select_flow` own the zoom of a window, and
  `herdr::recovery` and `herdr::terminal` take a Herdr terminal back.
- `src/workspace.rs` is the common model of both backends.
- `src/terminal.rs` and `src/input.rs` are the native terminal and its keys.
- `app/` performs the actions: it opens channels, waits, and turns JSON into
  values of the library.

Laws that relate several functions are public proof functions whose names begin
with `law_`, beside what they speak of.
