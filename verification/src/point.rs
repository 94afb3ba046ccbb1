//! Points: one coordinate each, with no level of offsets.

pub mod array;
pub mod mutable;
pub mod scalar;

pub use array::PointArray;
pub use mutable::MutablePointArray;
pub use scalar::Point;
