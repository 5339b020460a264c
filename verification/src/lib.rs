use vstd::prelude::*;

pub mod charge;
pub mod conf;
pub mod control;
pub mod detail;
pub mod message;
pub mod price;
pub mod time;

verus! {

/// The failure kinds a station operation can report.
///
/// Tariff-construction failures (`Overlap`, `MultipleMidnightCrossings`) are
/// unrecoverable at bootstrap; every other kind marks a rejected operation
/// that leaves the state untouched.
#[derive(Clone, Copy, Debug, PartialEq, Eq, Structural)]
pub enum ErrorKind {
    /// A session operation was called outside its legal state.
    InvalidState,
    /// A pricing query's span is empty or reversed.
    InvalidRange,
    /// A pricing query hit a table that was never normalized.
    NotOptimized,
    /// Two tariff periods overlap with different prices.
    Overlap,
    /// More than one tariff period crosses midnight.
    MultipleMidnightCrossings,
    /// No queued session carries the requested id.
    NotFound,
    /// The station queue is full.
    CapacityExceeded,
    /// A session's charge type does not match the station's.
    TypeMismatch,
}

} // verus!
