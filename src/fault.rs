//! The fatal conditions of the machine.
use vstd::prelude::*;

verus! {

/// Why execution (or loading a program image) stopped abnormally.
#[derive(PartialEq, Eq, Structural, Clone, Copy, Debug)]
pub enum Fault {
    /// The program image is not a whole number of 32-bit words.
    MalformedImage,
    /// A segment identifier that is not live (never allocated, already
    /// abandoned, or segment 0 where it may not be abandoned).
    InvalidSegmentAccess,
    /// An offset at or past the end of a segment, or a finger at or past the
    /// end of segment 0 at fetch time.
    SegmentBoundsViolation,
    /// Division with a zero divisor.
    DivisionByZero,
    /// Output of a value that is not a Unicode scalar value.
    InvalidOutputValue,
    /// Operation number 14 or 15.
    UnsupportedOpcode,
    /// Allocation with no free identifier left and every 32-bit identifier in
    /// use.
    SegmentTableFull,
}

} // verus!
