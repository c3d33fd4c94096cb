//! Interval algebra over fixed-width integer domains.
//!
//! A range is a pair of bounds, each inclusive, exclusive or unbounded.  The
//! crate decides emptiness, normalises a range to inclusive form, tests
//! containment, equality and overlap, computes set difference, and tracks what
//! is left of a domain as sub-ranges are removed from it.

pub mod integer;
pub mod interval;
pub mod laws;
pub mod partition;

pub use integer::Integer;
pub use interval::{expr_to_range, Bound, Error, Inclusive, IntRange, RangeExpr, RangeLimits};
pub use partition::RangeSubtracter;
