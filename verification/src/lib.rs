//! The rules behind a terminal panel for coding sessions in tmux: what it lists, what
//! it shows, what it does with a key, and which tmux commands that takes. Everything
//! here is verified; talking to tmux, the PTY and the terminal is left to the program
//! around it.

pub mod embed;
pub mod keys;
pub mod layout;
pub mod paint;
pub mod pane;
pub mod panel;
pub mod selection;
pub mod status;
pub mod text;
pub mod tmux;
