//! The core of initiative.sh, a game-master's assistant driven by typed commands: in-game time
//! and intervals, command parsing and autocompletion, the journal's recent-entry bookkeeping, and
//! the text editing and wrapping of the terminal interface.

pub mod text;
pub mod time;
pub mod app;
pub mod world;
pub mod account;
pub mod cli;
pub mod storage;
pub mod sorting;
