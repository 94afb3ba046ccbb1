//! Arrays of multi points: one level of offsets above the coordinates.

pub mod array;
pub mod mutable;
pub mod scalar;

pub use array::MultiPointArray;
pub use mutable::MutableMultiPointArray;
pub use scalar::MultiPoint;
