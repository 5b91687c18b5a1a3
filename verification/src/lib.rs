//! Staged growth of a bounded scalar progress value, with hierarchical
//! unit accounting and staged dimensional compression of numeric vectors.
//!
//! Every scalar quantity is carried as a fixed-point integer: a `u64` or
//! `i64` counting multiples of 10^-9 (see [`phi::SCALE`]).  All arithmetic
//! is therefore exact integer arithmetic, and every public operation is
//! specified and verified down to the numeric value it returns.

pub mod phi;
pub mod stage;
pub mod recurrence;
pub mod progress;
pub mod navigator;
pub mod compress;
pub mod coherence;
pub mod session;
