//! A two-phase price oracle: every node fetches a quote for an asset pair and
//! reveals it as a fixed-point integer, and the tally reduces the revealed
//! values to their median.
//!
//! The library holds the rules of both phases as functions on plain values.
//! Talking to the host (reading inputs, fetching, reporting) is left to the
//! caller.

pub mod codec;
pub mod consensus;
pub mod execution;
pub mod fetch;
pub mod input;
pub mod program;
pub mod reveals;
pub mod tally;
pub mod text;
