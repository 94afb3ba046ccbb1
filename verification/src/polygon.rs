//! Polygons: rings above the coordinates, the exterior ring first.

pub mod array;
pub mod mutable;
pub mod scalar;

pub use array::PolygonArray;
pub use mutable::MutablePolygonArray;
pub use scalar::Polygon;
