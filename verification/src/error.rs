//! The errors that the library reports.

use vstd::prelude::*;

verus! {

/// Why a key or a value was rejected.
#[derive(Copy, Clone, PartialEq, Eq, Structural, Hash, Debug)]
pub enum ValidationError {
    /// The text is longer, in bytes, than its kind allows.
    TooLong,
    /// The text is empty where a non-empty one is required.
    Empty,
    /// The first character is not a lowercase letter.
    InvalidFirstChar,
    /// A character is outside the set that the kind allows.
    InvalidChar,
}

/// A trace state would hold more entries than it may.
#[derive(Copy, Clone, PartialEq, Eq, Structural, Hash, Debug)]
pub struct CapacityError {
    /// The number of entries that was asked for.
    pub entries: usize,
}

} // verus!
