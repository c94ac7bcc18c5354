//! A verified core for a "now playing" daemon: time-synced lyric lookup,
//! LRC timestamp parsing, playback progress extrapolation, a line-delimited
//! JSON wire protocol, command dispatch decisions, and the process
//! lifecycle state machines.
pub mod cli;
pub mod client;
pub mod command;
pub mod config;
pub mod daemon;
pub mod lifecycle;
pub mod lyrics;
pub mod spotify;
pub mod text;
pub mod watch;
pub mod wire;
