//! One geometry, or one array, of any kind.

use crate::binary::array::{column_binary, BinaryLayout};
use crate::binary::{WKBArray, WKB};
use crate::columnar::{column_layout, column_view, layout_column, Column, ColumnView};
use crate::error::GeoArrowError;
use crate::layout::{Coord, Layout};
use crate::linestring::{LineString, LineStringArray};
use crate::multilinestring::{MultiLineString, MultiLineStringArray};
use crate::multipoint::{MultiPoint, MultiPointArray};
use crate::multipolygon::{MultiPolygon, MultiPolygonArray};
use crate::point::{Point, PointArray};
use crate::polygon::{Polygon, PolygonArray};
use arrow2::bitmap::Bitmap;
use vstd::prelude::*;

verus! {

/// A view of one geometry of any kind.
pub enum Geometry<'a> {
    Point(Point<'a>),
    LineString(LineString<'a>),
    Polygon(Polygon<'a>),
    MultiPoint(MultiPoint<'a>),
    MultiLineString(MultiLineString<'a>),
    MultiPolygon(MultiPolygon<'a>),
    WKB(WKB<'a>),
}

/// One geometry of any kind as an owned value.
pub enum GeometryValue {
    Point(Coord),
    LineString(Vec<Coord>),
    Polygon(Vec<Vec<Coord>>),
    MultiPoint(Vec<Coord>),
    MultiLineString(Vec<Vec<Coord>>),
    MultiPolygon(Vec<Vec<Vec<Coord>>>),
    WKB(Vec<u8>),
}

/// What a geometry of any kind is.
pub enum GeometryView {
    Point(Coord),
    LineString(Seq<Coord>),
    Polygon(Seq<Seq<Coord>>),
    MultiPoint(Seq<Coord>),
    MultiLineString(Seq<Seq<Coord>>),
    MultiPolygon(Seq<Seq<Seq<Coord>>>),
    WKB(Seq<u8>),
}

impl<'a> View for Geometry<'a> {
    type V = GeometryView;

    open spec fn view(&self) -> GeometryView {
        match *self {
            Geometry::Point(g) => GeometryView::Point(g@),
            Geometry::LineString(g) => GeometryView::LineString(g@),
            Geometry::Polygon(g) => GeometryView::Polygon(g@),
            Geometry::MultiPoint(g) => GeometryView::MultiPoint(g@),
            Geometry::MultiLineString(g) => GeometryView::MultiLineString(g@),
            Geometry::MultiPolygon(g) => GeometryView::MultiPolygon(g@),
            Geometry::WKB(g) => GeometryView::WKB(g@),
        }
    }
}

impl View for GeometryValue {
    type V = GeometryView;

    open spec fn view(&self) -> GeometryView {
        match *self {
            GeometryValue::Point(g) => GeometryView::Point(g),
            GeometryValue::LineString(g) => GeometryView::LineString(g@),
            GeometryValue::Polygon(g) => GeometryView::Polygon(g.deep_view()),
            GeometryValue::MultiPoint(g) => GeometryView::MultiPoint(g@),
            GeometryValue::MultiLineString(g) => GeometryView::MultiLineString(g.deep_view()),
            GeometryValue::MultiPolygon(g) => GeometryView::MultiPolygon(g.deep_view()),
            GeometryValue::WKB(g) => GeometryView::WKB(g@),
        }
    }
}

impl<'a> Geometry<'a> {
    /// Whether the view points at a geometry that its buffers hold.
    pub open spec fn wf(&self) -> bool {
        match *self {
            Geometry::Point(g) => g.wf(),
            Geometry::LineString(g) => g.wf(),
            Geometry::Polygon(g) => g.wf(),
            Geometry::MultiPoint(g) => g.wf(),
            Geometry::MultiLineString(g) => g.wf(),
            Geometry::MultiPolygon(g) => g.wf(),
            Geometry::WKB(g) => g.wf(),
        }
    }

    /// The geometry as an owned value of the same kind.
    pub fn to_geo(&self) -> (r: GeometryValue)
        requires
            self.wf(),
        ensures
            r@ == self@,
    {
        match self {
            Geometry::Point(geom) => GeometryValue::Point(geom.to_geo()),
            Geometry::LineString(geom) => GeometryValue::LineString(geom.to_geo()),
            Geometry::Polygon(geom) => GeometryValue::Polygon(geom.to_geo()),
            Geometry::MultiPoint(geom) => GeometryValue::MultiPoint(geom.to_geo()),
            Geometry::MultiLineString(geom) => GeometryValue::MultiLineString(geom.to_geo()),
            Geometry::MultiPolygon(geom) => GeometryValue::MultiPolygon(geom.to_geo()),
            Geometry::WKB(geom) => GeometryValue::WKB(geom.to_vec()),
        }
    }
}

/// An immutable geometry array of any kind.
pub enum GeometryArray {
    Point(PointArray),
    LineString(LineStringArray),
    Polygon(PolygonArray),
    MultiPoint(MultiPointArray),
    MultiLineString(MultiLineStringArray),
    MultiPolygon(MultiPolygonArray),
    WKB(WKBArray),
}

/// What a geometry array of any kind holds.
pub enum GeometryArrayView {
    Point(Layout),
    LineString(Layout),
    Polygon(Layout),
    MultiPoint(Layout),
    MultiLineString(Layout),
    MultiPolygon(Layout),
    WKB(BinaryLayout),
}

impl GeometryArrayView {
    /// The number of geometries.
    pub open spec fn len(self) -> int {
        match self {
            GeometryArrayView::Point(a) => a.len(),
            GeometryArrayView::LineString(a) => a.len(),
            GeometryArrayView::Polygon(a) => a.len(),
            GeometryArrayView::MultiPoint(a) => a.len(),
            GeometryArrayView::MultiLineString(a) => a.len(),
            GeometryArrayView::MultiPolygon(a) => a.len(),
            GeometryArrayView::WKB(a) => a.len(),
        }
    }

    /// The invariant of the array, with the number of levels of its kind.
    pub open spec fn wf(self) -> bool {
        match self {
            GeometryArrayView::Point(a) => a.wf() && a.levels.len() == 0,
            GeometryArrayView::LineString(a) => a.wf() && a.levels.len() == 1,
            GeometryArrayView::Polygon(a) => a.wf() && a.levels.len() == 2,
            GeometryArrayView::MultiPoint(a) => a.wf() && a.levels.len() == 1,
            GeometryArrayView::MultiLineString(a) => a.wf() && a.levels.len() == 2,
            GeometryArrayView::MultiPolygon(a) => a.wf() && a.levels.len() == 3,
            GeometryArrayView::WKB(a) => a.wf(),
        }
    }

    /// Whether geometry `i` is present.
    pub open spec fn is_valid(self, i: int) -> bool {
        match self.validity() {
            None => true,
            Some(bits) => bits[i],
        }
    }

    /// The validity mask.
    pub open spec fn validity(self) -> Option<Seq<bool>> {
        match self {
            GeometryArrayView::Point(a) => a.validity,
            GeometryArrayView::LineString(a) => a.validity,
            GeometryArrayView::Polygon(a) => a.validity,
            GeometryArrayView::MultiPoint(a) => a.validity,
            GeometryArrayView::MultiLineString(a) => a.validity,
            GeometryArrayView::MultiPolygon(a) => a.validity,
            GeometryArrayView::WKB(a) => a.validity,
        }
    }

    /// Geometry `i`.
    pub open spec fn value(self, i: int) -> GeometryView {
        match self {
            GeometryArrayView::Point(a) => GeometryView::Point(a.point(i)),
            GeometryArrayView::LineString(a) => GeometryView::LineString(a.line(i)),
            GeometryArrayView::Polygon(a) => GeometryView::Polygon(a.lines(i)),
            GeometryArrayView::MultiPoint(a) => GeometryView::MultiPoint(a.line(i)),
            GeometryArrayView::MultiLineString(a) => GeometryView::MultiLineString(a.lines(i)),
            GeometryArrayView::MultiPolygon(a) => GeometryView::MultiPolygon(a.polygons(i)),
            GeometryArrayView::WKB(a) => GeometryView::WKB(a.bytes(i)),
        }
    }

    /// The `length` geometries from `offset` on.
    pub open spec fn slice(self, offset: int, length: int) -> GeometryArrayView {
        match self {
            GeometryArrayView::Point(a) => GeometryArrayView::Point(a.slice(offset, length)),
            GeometryArrayView::LineString(a) => GeometryArrayView::LineString(
                a.slice(offset, length),
            ),
            GeometryArrayView::Polygon(a) => GeometryArrayView::Polygon(a.slice(offset, length)),
            GeometryArrayView::MultiPoint(a) => GeometryArrayView::MultiPoint(
                a.slice(offset, length),
            ),
            GeometryArrayView::MultiLineString(a) => GeometryArrayView::MultiLineString(
                a.slice(offset, length),
            ),
            GeometryArrayView::MultiPolygon(a) => GeometryArrayView::MultiPolygon(
                a.slice(offset, length),
            ),
            GeometryArrayView::WKB(a) => GeometryArrayView::WKB(a.slice(offset, length)),
        }
    }

    /// The columnar encoding of the array.
    pub open spec fn column(self) -> ColumnView {
        match self {
            GeometryArrayView::Point(a) => layout_column(a, Seq::empty(), true),
            GeometryArrayView::LineString(a) => layout_column(a, seq!["vertices"@], true),
            GeometryArrayView::Polygon(a) => layout_column(a, seq!["rings"@, "vertices"@], true),
            GeometryArrayView::MultiPoint(a) => layout_column(a, seq!["vertices"@], true),
            GeometryArrayView::MultiLineString(a) => layout_column(
                a,
                seq!["rings"@, "vertices"@],
                true,
            ),
            GeometryArrayView::MultiPolygon(a) => layout_column(
                a,
                seq!["polygons"@, "rings"@, "vertices"@],
                true,
            ),
            GeometryArrayView::WKB(a) => a.column(),
        }
    }
}

/// The layout that a column encodes at nesting `depth`, if it encodes a valid
/// one.
pub open spec fn decode_nested(c: ColumnView, depth: nat) -> Result<Layout, GeoArrowError> {
    match column_layout(c, depth) {
        None => Err(GeoArrowError::IncompatibleLayout),
        Some(a) => if a.wf() {
            Ok(a)
        } else {
            Err(GeoArrowError::InvariantViolation)
        },
    }
}

/// What the declared shape of a column says of the geometries in it.
#[derive(Clone, Copy, Debug, PartialEq, Eq, Structural)]
pub enum Shape {
    /// Byte strings: encoded geometries.
    Binary,
    /// A struct: points.
    Depth0,
    /// One list around a struct: line strings or multi points.
    Depth1,
    /// Two lists around a struct: polygons or multi line strings.
    Depth2,
    /// Three lists: multi polygons.
    Depth3,
    /// Anything else: no geometries.
    Unknown,
}

/// The shape of a column, read off its outer three levels.
pub open spec fn shape_of(c: ColumnView) -> Shape {
    match c {
        ColumnView::LargeBinary { .. } => Shape::Binary,
        ColumnView::Struct { .. } => Shape::Depth0,
        ColumnView::LargeList { values, .. } => match *values {
            ColumnView::Struct { .. } => Shape::Depth1,
            ColumnView::LargeList { values: inner, .. } => match *inner {
                ColumnView::Struct { .. } => Shape::Depth2,
                ColumnView::LargeList { .. } => Shape::Depth3,
                _ => Shape::Unknown,
            },
            _ => Shape::Unknown,
        },
        _ => Shape::Unknown,
    }
}

/// The array of encoded geometries that a column encodes, if it encodes a
/// valid one.
pub open spec fn decode_binary(c: ColumnView) -> Result<BinaryLayout, GeoArrowError> {
    match column_binary(c) {
        None => Err(GeoArrowError::IncompatibleLayout),
        Some(a) => if a.wf() {
            Ok(a)
        } else {
            Err(GeoArrowError::InvariantViolation)
        },
    }
}

/// The array that a column encodes. The kind follows from the declared shape of
/// the column alone. Where two kinds share a shape, `is_multi` chooses the one
/// with many parts.
pub open spec fn decode(c: ColumnView, is_multi: bool) -> Result<GeometryArrayView, GeoArrowError> {
    match shape_of(c) {
        Shape::Binary => match decode_binary(c) {
            Ok(a) => Ok(GeometryArrayView::WKB(a)),
            Err(e) => Err(e),
        },
        Shape::Depth0 => match decode_nested(c, 0) {
            Ok(a) => Ok(GeometryArrayView::Point(a)),
            Err(e) => Err(e),
        },
        Shape::Depth1 => match decode_nested(c, 1) {
            Ok(a) => Ok(
                if is_multi {
                    GeometryArrayView::MultiPoint(a)
                } else {
                    GeometryArrayView::LineString(a)
                },
            ),
            Err(e) => Err(e),
        },
        Shape::Depth2 => match decode_nested(c, 2) {
            Ok(a) => Ok(
                if is_multi {
                    GeometryArrayView::MultiLineString(a)
                } else {
                    GeometryArrayView::Polygon(a)
                },
            ),
            Err(e) => Err(e),
        },
        Shape::Depth3 => match decode_nested(c, 3) {
            Ok(a) => Ok(GeometryArrayView::MultiPolygon(a)),
            Err(e) => Err(e),
        },
        Shape::Unknown => Err(GeoArrowError::IncompatibleLayout),
    }
}

/// The shape of a column.
pub fn column_shape(c: &Column) -> (r: Shape)
    ensures
        r == shape_of(c@),
{
    proof {
        reveal_with_fuel(column_view, 4);
    }
    match c {
        Column::LargeBinary { .. } => Shape::Binary,
        Column::Struct { .. } => Shape::Depth0,
        Column::LargeList { values, .. } => match &**values {
            Column::Struct { .. } => Shape::Depth1,
            Column::LargeList { values: inner, .. } => match &**inner {
                Column::Struct { .. } => Shape::Depth2,
                Column::LargeList { .. } => Shape::Depth3,
                _ => Shape::Unknown,
            },
            _ => Shape::Unknown,
        },
        _ => Shape::Unknown,
    }
}

impl View for GeometryArray {
    type V = GeometryArrayView;

    open spec fn view(&self) -> GeometryArrayView {
        match *self {
            GeometryArray::Point(a) => GeometryArrayView::Point(a@),
            GeometryArray::LineString(a) => GeometryArrayView::LineString(a@),
            GeometryArray::Polygon(a) => GeometryArrayView::Polygon(a@),
            GeometryArray::MultiPoint(a) => GeometryArrayView::MultiPoint(a@),
            GeometryArray::MultiLineString(a) => GeometryArrayView::MultiLineString(a@),
            GeometryArray::MultiPolygon(a) => GeometryArrayView::MultiPolygon(a@),
            GeometryArray::WKB(a) => GeometryArrayView::WKB(a@),
        }
    }
}

impl GeometryArray {
    /// Convert a columnar value to a [`GeometryArray`].
    pub fn from_arrow(arr: Column, is_multi: bool) -> (r: Result<Self, GeoArrowError>)
        ensures
            r matches Ok(a) ==> decode(
                arr@,
                is_multi,
            ) == Ok::<GeometryArrayView, GeoArrowError>(a@),
            r matches Err(e) ==> decode(arr@, is_multi) == Err::<GeometryArrayView, GeoArrowError>(
                e,
            ),
    {
        let shape = column_shape(&arr);
        match shape {
            Shape::Binary => match WKBArray::try_from(arr) {
                Ok(a) => Ok(GeometryArray::WKB(a)),
                Err(e) => Err(e),
            },
            Shape::Depth0 => match PointArray::try_from(arr) {
                Ok(a) => Ok(GeometryArray::Point(a)),
                Err(e) => Err(e),
            },
            Shape::Depth1 => {
                if is_multi {
                    match MultiPointArray::try_from(arr) {
                        Ok(a) => Ok(GeometryArray::MultiPoint(a)),
                        Err(e) => Err(e),
                    }
                } else {
                    match LineStringArray::try_from(arr) {
                        Ok(a) => Ok(GeometryArray::LineString(a)),
                        Err(e) => Err(e),
                    }
                }
            },
            Shape::Depth2 => {
                if is_multi {
                    match MultiLineStringArray::try_from(arr) {
                        Ok(a) => Ok(GeometryArray::MultiLineString(a)),
                        Err(e) => Err(e),
                    }
                } else {
                    match PolygonArray::try_from(arr) {
                        Ok(a) => Ok(GeometryArray::Polygon(a)),
                        Err(e) => Err(e),
                    }
                }
            },
            Shape::Depth3 => match MultiPolygonArray::try_from(arr) {
                Ok(a) => Ok(GeometryArray::MultiPolygon(a)),
                Err(e) => Err(e),
            },
            Shape::Unknown => Err(GeoArrowError::IncompatibleLayout),
        }
    }

    /// The geometry at `i` as a view, whether it is null or not.
    pub fn value(&self, i: usize) -> (r: Geometry<'_>)
        requires
            i < self@.len(),
        ensures
            r.wf(),
            r@ == self@.value(i as int),
    {
        match self {
            GeometryArray::Point(arr) => Geometry::Point(arr.value(i)),
            GeometryArray::LineString(arr) => Geometry::LineString(arr.value(i)),
            GeometryArray::Polygon(arr) => Geometry::Polygon(arr.value(i)),
            GeometryArray::MultiPoint(arr) => Geometry::MultiPoint(arr.value(i)),
            GeometryArray::MultiLineString(arr) => Geometry::MultiLineString(arr.value(i)),
            GeometryArray::MultiPolygon(arr) => Geometry::MultiPolygon(arr.value(i)),
            GeometryArray::WKB(arr) => Geometry::WKB(arr.value(i)),
        }
    }

    /// Whether geometry `i` is null.
    pub fn is_null(&self, i: usize) -> (r: bool)
        requires
            i < self@.len(),
        ensures
            r == !self@.is_valid(i as int),
    {
        match self {
            GeometryArray::Point(arr) => arr.is_null(i),
            GeometryArray::LineString(arr) => arr.is_null(i),
            GeometryArray::Polygon(arr) => arr.is_null(i),
            GeometryArray::MultiPoint(arr) => arr.is_null(i),
            GeometryArray::MultiLineString(arr) => arr.is_null(i),
            GeometryArray::MultiPolygon(arr) => arr.is_null(i),
            GeometryArray::WKB(arr) => arr.is_null(i),
        }
    }

    /// The geometry at `i` as a view, or `None` when it is null.
    pub fn get(&self, i: usize) -> (r: Option<Geometry<'_>>)
        requires
            i < self@.len(),
        ensures
            r is None <==> !self@.is_valid(i as int),
            r matches Some(g) ==> g.wf() && g@ == self@.value(i as int),
    {
        if self.is_null(i) {
            return None;
        }
        Some(self.value(i))
    }

    /// The array in its columnar encoding, which shares all buffers with it.
    pub fn into_arrow(self) -> (c: Column)
        ensures
            c@ == self@.column(),
    {
        match self {
            GeometryArray::Point(arr) => arr.into_arrow(),
            GeometryArray::LineString(arr) => arr.into_arrow(),
            GeometryArray::Polygon(arr) => arr.into_arrow(),
            GeometryArray::MultiPoint(arr) => arr.into_arrow(),
            GeometryArray::MultiLineString(arr) => arr.into_arrow(),
            GeometryArray::MultiPolygon(arr) => arr.into_arrow(),
            GeometryArray::WKB(arr) => arr.into_arrow(),
        }
    }

    /// The length of the [`GeometryArray`]. Every array has a length corresponding to the number
    /// of geometries it contains.
    pub fn len(&self) -> (n: usize)
        ensures
            n == self@.len(),
            self@.wf(),
    {
        match self {
            GeometryArray::Point(arr) => arr.len(),
            GeometryArray::LineString(arr) => arr.len(),
            GeometryArray::Polygon(arr) => arr.len(),
            GeometryArray::MultiPoint(arr) => arr.len(),
            GeometryArray::MultiLineString(arr) => arr.len(),
            GeometryArray::MultiPolygon(arr) => arr.len(),
            GeometryArray::WKB(arr) => arr.len(),
        }
    }

    /// The validity of the [`GeometryArray`]: every array has an optional [`Bitmap`] that, when
    /// available specifies whether the geometry at a given slot is valid or not (null). When the
    /// validity is [`None`], all slots are valid.
    pub fn validity(&self) -> (r: Option<&Bitmap>)
        ensures
            r matches Some(bitmap) ==> self@.validity() == Some(
                crate::buffers::bitmap_bits(*bitmap),
            ),
            r is None ==> self@.validity() is None,
    {
        match self {
            GeometryArray::Point(arr) => arr.validity(),
            GeometryArray::LineString(arr) => arr.validity(),
            GeometryArray::Polygon(arr) => arr.validity(),
            GeometryArray::MultiPoint(arr) => arr.validity(),
            GeometryArray::MultiLineString(arr) => arr.validity(),
            GeometryArray::MultiPolygon(arr) => arr.validity(),
            GeometryArray::WKB(arr) => arr.validity(),
        }
    }

    /// The `length` geometries from `offset` on, sharing all buffers with this
    /// array, or a bounds error when they pass its end.
    pub fn slice(&self, offset: usize, length: usize) -> (r: Result<Self, GeoArrowError>)
        ensures
            r is Ok <==> offset + length <= self@.len(),
            r matches Ok(a) ==> a@ == self@.slice(offset as int, length as int),
            r matches Err(e) ==> e == GeoArrowError::BoundsViolation,
    {
        let len = self.len();
        if length > len || offset > len - length {
            return Err(GeoArrowError::BoundsViolation);
        }
        Ok(self.slice_unchecked(offset, length))
    }

    /// The `length` geometries from `offset` on, sharing all buffers with this
    /// array. The caller sees to it that they lie within the array.
    pub fn slice_unchecked(&self, offset: usize, length: usize) -> (a: Self)
        requires
            offset + length <= self@.len(),
        ensures
            a@ == self@.slice(offset as int, length as int),
    {
        match self {
            GeometryArray::Point(arr) => GeometryArray::Point(arr.slice_unchecked(offset, length)),
            GeometryArray::LineString(arr) => GeometryArray::LineString(
                arr.slice_unchecked(offset, length),
            ),
            GeometryArray::Polygon(arr) => GeometryArray::Polygon(
                arr.slice_unchecked(offset, length),
            ),
            GeometryArray::MultiPoint(arr) => GeometryArray::MultiPoint(
                arr.slice_unchecked(offset, length),
            ),
            GeometryArray::MultiLineString(arr) => GeometryArray::MultiLineString(
                arr.slice_unchecked(offset, length),
            ),
            GeometryArray::MultiPolygon(arr) => GeometryArray::MultiPolygon(
                arr.slice_unchecked(offset, length),
            ),
            GeometryArray::WKB(arr) => GeometryArray::WKB(arr.slice_unchecked(offset, length)),
        }
    }

    /// Clone a [`GeometryArray`] to an owned `Box<GeometryArray>`.
    pub fn to_boxed(&self) -> (r: Box<GeometryArray>)
        ensures
            r@ == self@,
    {
        Box::new(
            match self {
                GeometryArray::Point(arr) => GeometryArray::Point(arr.clone()),
                GeometryArray::LineString(arr) => GeometryArray::LineString(arr.clone()),
                GeometryArray::Polygon(arr) => GeometryArray::Polygon(arr.clone()),
                GeometryArray::MultiPoint(arr) => GeometryArray::MultiPoint(arr.clone()),
                GeometryArray::MultiLineString(arr) => GeometryArray::MultiLineString(arr.clone()),
                GeometryArray::MultiPolygon(arr) => GeometryArray::MultiPolygon(arr.clone()),
                GeometryArray::WKB(arr) => GeometryArray::WKB(arr.clone()),
            },
        )
    }
}

} // verus!
