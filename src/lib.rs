//! Core of a project launcher: an index of project directories, a search over
//! it, a bounded selection cursor, a key dispatcher, and the protocol that
//! opens (or reuses) a terminal-multiplexer session for the chosen directory.
pub mod config;
pub mod text;
pub mod tmux;
pub mod search;
pub mod index;
pub mod input;
pub mod state;
