//! What algorithms may ask of a geometry, whichever way it is stored.

pub mod linestring;
pub mod multilinestring;
pub mod point;

pub use linestring::LineStringTrait;
pub use multilinestring::MultiLineStringTrait;
pub use point::PointTrait;
