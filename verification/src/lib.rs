//! Geometry arrays in a nested offset-buffer layout, with verified contracts.
//!
//! An array holds the coordinates of all its geometries in two pools, and one
//! level of offsets for each level of nesting: none for points, one for line
//! strings and multi points, two for polygons and multi line strings, three for
//! multi polygons. Arrays are immutable and share their buffers: a slice is a
//! new array over the same buffers.
//!
//! A coordinate is carried as the bit pattern of a 64-bit IEEE 754 number, in a
//! `u64`: the library moves coordinates and never computes with them.
//!
//! - `layout` is the model that the contracts speak of, with the laws of
//!   slicing; `buffers` states what is taken on trust from `arrow2`.
//! - `point`, `linestring`, `polygon`, `multipoint`, `multilinestring`,
//!   `multipolygon` and `binary` hold one kind each: the array, the view of one
//!   geometry, and the builder. `enum_` holds an array or a geometry of any kind.
//! - `mutable` and `encoding` say what a builder lays out and that it reads back
//!   as what went in.
//! - `columnar` is the exchange encoding, and `event` and `traversal` the walk
//!   that exports geometries without holding them as values.

pub mod binary;
pub mod buffers;
pub mod columnar;
pub mod encoding;
pub mod enum_;
pub mod error;
pub mod event;
pub mod geo_traits;
pub mod layout;
pub mod linestring;
pub mod multilinestring;
pub mod multipoint;
pub mod multipolygon;
pub mod mutable;
pub mod offsets;
pub mod owned;
pub mod point;
pub mod polygon;
pub mod slice;
pub mod traversal;

pub use binary::{MutableWKBArray, WKBArray, WKB};
pub use buffers::Offsets;
pub use enum_::{Geometry, GeometryArray, GeometryValue};
pub use error::GeoArrowError;
pub use event::Event;
pub use geo_traits::MultiLineStringTrait;
pub use layout::{Coord, Layout};
pub use linestring::{LineString, LineStringArray, MutableLineStringArray};
pub use multilinestring::{MultiLineString, MultiLineStringArray, MutableMultiLineStringArray};
pub use multipoint::{MultiPoint, MultiPointArray, MutableMultiPointArray};
pub use multipolygon::{MultiPolygon, MultiPolygonArray, MutableMultiPolygonArray};
pub use point::{MutablePointArray, Point, PointArray};
pub use polygon::{MutablePolygonArray, Polygon, PolygonArray};
