//! Compilation and scheduling engine for chains of musical cards.
//!
//! A chain of cards (note generators, note effects, one tone generator and
//! audio effects) is validated against a small grammar, folded into one flat
//! loop of note events, and stamped with wall-clock times far enough ahead of
//! "now" that playback never runs dry. A delayed-event queue decides when the
//! compiler and the playback controls run.
//!
//! Wall-clock time is counted in whole microseconds throughout.

pub mod time;
pub mod notes;
pub mod effects;
pub mod grammar;
pub mod audio;
pub mod cards;
pub mod graph;
pub mod compile;
pub mod scheduler;
pub mod engine;
pub mod errors;
pub mod session;
pub mod store;
