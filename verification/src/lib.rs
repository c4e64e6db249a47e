//! Core engine of a URL-crawling pipeline: job parsing and queueing,
//! per-tag frequency aggregation, the crawler worker state machine,
//! the pool supervisor with its respawn policy, the versioned shutdown
//! broadcast, and the status-observer model.
//!
//! Everything here is verified with Verus. The unverified surroundings
//! (process spawning, WebDriver traffic, the terminal dashboard) live
//! outside this crate and talk to it through plain values.

pub mod assigner;
pub mod crawler;
pub mod queue;
pub mod pool;
pub mod shutdown;
pub mod state;
pub mod tag;
pub mod tui;

pub use tag::Tag;
