//! Line strings: one level of offsets above the coordinates.

pub mod array;
pub mod mutable;
pub mod scalar;

pub use array::LineStringArray;
pub use mutable::MutableLineStringArray;
pub use scalar::LineString;
