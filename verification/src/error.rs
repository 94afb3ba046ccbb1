//! The errors that the checked entry points return.

use vstd::prelude::*;

verus! {

/// Why a checked operation refused its input.
#[derive(Clone, Copy, Debug, PartialEq, Eq, Structural)]
pub enum GeoArrowError {
    /// The parts handed to a checked constructor do not form a valid array.
    InvariantViolation,
    /// A slice reaches past the end of the array.
    BoundsViolation,
    /// A columnar value does not have the nesting of the expected geometry kind.
    IncompatibleLayout,
}

} // verus!
