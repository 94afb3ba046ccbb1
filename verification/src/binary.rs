//! Geometries in a binary encoding that the library carries and never reads.

pub mod array;
pub mod mutable;
pub mod scalar;

pub use array::WKBArray;
pub use mutable::MutableWKBArray;
pub use scalar::WKB;
