//! Multi polygons: polygons above rings above the coordinates.

pub mod array;
pub mod mutable;
pub mod scalar;

pub use array::MultiPolygonArray;
pub use mutable::MutableMultiPolygonArray;
pub use scalar::MultiPolygon;
