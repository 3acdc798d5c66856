//! Transport-independent core of a mobile terminal client for tmux and Herdr.
pub mod bytes;
pub mod diagnostics;
pub mod input;
pub mod input_laws;
pub mod maps;
pub mod ssh;
pub mod terminal;
pub mod text;
pub mod tmux;
pub mod workspace;
pub mod workspace_laws;
