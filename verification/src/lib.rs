//! A verified model of a round-trip latency benchmark: two endpoints exchange
//! messages through a relay that forwards bytes in fixed-size chunks with an
//! injected per-chunk delay, while a spin barrier drives both endpoints
//! through lock-step rounds and a sweep collects the mean latency for every
//! (chunk size, delay) pair into a 2D surface.
//!
//! The socket and thread plumbing lives outside this crate; here stand the
//! parts that decide and compute: the chunking of the forwarded byte stream,
//! the barrier's decision logic with its synchronization invariants, and the
//! sweep that lays trial results out as a grid.

pub mod barrier;
pub mod chunking;
pub mod surface;
pub mod sweep;
pub mod trial;
