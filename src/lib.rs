//! Control-surface interpretation: mapping tables, per-control state
//! machines and the rules that turn hardware events into OSC and MIDI
//! messages and back.

pub mod config;
pub mod interpreter;
pub mod report;
pub mod text;
