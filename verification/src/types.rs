//! Physical native types and their byte representations.
use vstd::prelude::*;

pub mod bytes;
pub mod native;

verus! {

/// The set of physical types that can be stored in fixed-width slots.
#[derive(Debug, Clone, Copy, PartialEq, Eq, Structural, Hash)]
pub enum PrimitiveType {
    /// A signed 16-bit integer.
    Int16,
    /// A signed 32-bit integer.
    Int32,
    /// A signed 64-bit integer.
    Int64,
    /// A signed 128-bit integer.
    Int128,
    /// A signed 256-bit integer.
    Int256,
    /// Two i32 representing days and milliseconds.
    DaysMs,
    /// months_days_ns(i32, i32, i64)
    MonthDayNano,
}

} // verus!
