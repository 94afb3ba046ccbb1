//! Multi line strings: line strings above the coordinates.

pub mod array;
pub mod mutable;
pub mod scalar;

pub use array::MultiLineStringArray;
pub use mutable::MutableMultiLineStringArray;
pub use scalar::MultiLineString;
