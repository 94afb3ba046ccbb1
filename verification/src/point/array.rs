use crate::buffers::{
    bitmap_bits, bitmap_clone, bitmap_get_bit, bitmap_len, buffer_as_slice, buffer_clone,
    buffer_slice, buffer_values,
};
use crate::columnar::{
    column_into_coords, column_layout, coords_to_column, layout_column, lemma_layout_column, Column,
};
use crate::error::GeoArrowError;
use crate::event::{collection_events, concat_events, point_array_events, point_events, Event};
use crate::layout::{lemma_slice_wf, Coord, Layout};
use crate::point::scalar::Point;
use crate::slice::{slice_validity_unchecked, validity_bits};
use arrow2::bitmap::Bitmap;
use arrow2::buffer::Buffer;
use vstd::prelude::*;

verus! {

/// An array of points, each possibly null: the coordinates in two pools, one
/// coordinate per point.
pub struct PointArray {
    /// Buffer of x coordinates
    x: Buffer<u64>,
    /// Buffer of y coordinates
    y: Buffer<u64>,
    /// Validity bitmap
    validity: Option<Bitmap>,
}

/// What an array made of these parts holds.
pub open spec fn point_layout(x: Buffer<u64>, y: Buffer<u64>, validity: Option<Bitmap>) -> Layout {
    Layout {
        x: buffer_values(x),
        y: buffer_values(y),
        levels: Seq::empty(),
        validity: validity_bits(validity),
    }
}

/// Whether the parts form a valid array: the mask, if there is one, has one bit
/// per point, and the pools have one length.
pub(super) fn check(x: &Buffer<u64>, y: &Buffer<u64>, validity_len: Option<usize>) -> (r: Result<
    (),
    GeoArrowError,
>)
    ensures
        r is Ok <==> {
            &&& validity_len matches Some(n) ==> n == buffer_values(*x).len()
            &&& buffer_values(*x).len() == buffer_values(*y).len()
        },
        r matches Err(e) ==> e == GeoArrowError::InvariantViolation,
        buffer_values(*x).len() <= usize::MAX,
{
    let x_len = buffer_as_slice(x).len();
    if let Some(len) = validity_len {
        if len != x_len {
            return Err(GeoArrowError::InvariantViolation);
        }
    }
    if x_len != buffer_as_slice(y).len() {
        return Err(GeoArrowError::InvariantViolation);
    }
    Ok(())
}

impl View for PointArray {
    type V = Layout;

    closed spec fn view(&self) -> Layout {
        point_layout(self.x, self.y, self.validity)
    }
}

impl Clone for PointArray {
    /// A second handle on the same buffers.
    fn clone(&self) -> (a: Self)
        ensures
            a@ == self@,
    {
        proof {
            use_type_invariant(self);
        }
        Self {
            x: buffer_clone(&self.x),
            y: buffer_clone(&self.y),
            validity: match &self.validity {
                Some(bitmap) => Some(bitmap_clone(bitmap)),
                None => None,
            },
        }
    }
}

impl PointArray {
    #[verifier::type_invariant]
    spec fn inv(self) -> bool {
        self@.wf()
    }

    /// Makes an array of parts that the caller knows to be valid.
    pub fn new(x: Buffer<u64>, y: Buffer<u64>, validity: Option<Bitmap>) -> (a: Self)
        requires
            point_layout(x, y, validity).wf(),
        ensures
            a@ == point_layout(x, y, validity),
    {
        Self { x, y, validity }
    }

    /// Makes an array of the parts if they are valid, in constant time.
    pub fn try_new(x: Buffer<u64>, y: Buffer<u64>, validity: Option<Bitmap>) -> (r: Result<
        Self,
        GeoArrowError,
    >)
        ensures
            r is Ok <==> point_layout(x, y, validity).wf(),
            r matches Ok(a) ==> a@ == point_layout(x, y, validity),
            r matches Err(e) ==> e == GeoArrowError::InvariantViolation,
    {
        let validity_len = match &validity {
            Some(bitmap) => Some(bitmap_len(bitmap)),
            None => None,
        };
        match check(&x, &y, validity_len) {
            Ok(()) => Ok(Self { x, y, validity }),
            Err(e) => Err(e),
        }
    }

    /// Returns the number of geometries in this array
    pub fn len(&self) -> (n: usize)
        ensures
            n == self@.len(),
            self@.wf(),
            self@.levels.len() == 0,
    {
        proof {
            use_type_invariant(self);
        }
        buffer_as_slice(&self.x).len()
    }

    /// Returns true if the array is empty
    pub fn is_empty(&self) -> (r: bool)
        ensures
            r == (self@.len() == 0),
    {
        self.len() == 0
    }

    /// Returns the optional validity.
    pub fn validity(&self) -> (r: Option<&Bitmap>)
        ensures
            r matches Some(bitmap) ==> self@.validity == Some(bitmap_bits(*bitmap)),
            r is None ==> self@.validity is None,
    {
        self.validity.as_ref()
    }

    /// Whether geometry `i` is null.
    pub fn is_null(&self, i: usize) -> (r: bool)
        requires
            i < self@.len(),
        ensures
            r == !self@.is_valid(i as int),
    {
        proof {
            use_type_invariant(self);
        }
        match &self.validity {
            None => false,
            Some(bitmap) => !bitmap_get_bit(bitmap, i),
        }
    }

    /// The `length` geometries from `offset` on, sharing all buffers with this
    /// array, or a bounds error when they pass its end.
    pub fn slice(&self, offset: usize, length: usize) -> (r: Result<Self, GeoArrowError>)
        ensures
            r is Ok <==> offset + length <= self@.len(),
            r matches Ok(a) ==> a@ == self@.slice(offset as int, length as int),
            r matches Err(e) ==> e == GeoArrowError::BoundsViolation,
    {
        let len = self.len();
        if length > len || offset > len - length {
            return Err(GeoArrowError::BoundsViolation);
        }
        Ok(self.slice_unchecked(offset, length))
    }

    /// The `length` geometries from `offset` on, sharing all buffers with this
    /// array. The caller sees to it that they lie within the array.
    pub fn slice_unchecked(&self, offset: usize, length: usize) -> (a: Self)
        requires
            offset + length <= self@.len(),
        ensures
            a@ == self@.slice(offset as int, length as int),
    {
        proof {
            use_type_invariant(self);
            lemma_slice_wf(self@, offset as int, length as int);
        }
        let validity = slice_validity_unchecked(&self.validity, offset, length);
        let mut x = buffer_clone(&self.x);
        buffer_slice(&mut x, offset, length);
        let mut y = buffer_clone(&self.y);
        buffer_slice(&mut y, offset, length);
        Self { x, y, validity }
    }

    /// The geometry at `i` as a view, whether it is null or not.
    pub fn value(&self, i: usize) -> (r: Point<'_>)
        requires
            i < self@.len(),
        ensures
            r.wf(),
            r@ == self@.point(i as int),
    {
        proof {
            use_type_invariant(self);
        }
        Point { x: &self.x, y: &self.y, geom_index: i }
    }

    /// The geometry at `i` as a view, or `None` when it is null.
    pub fn get(&self, i: usize) -> (r: Option<Point<'_>>)
        requires
            i < self@.len(),
        ensures
            r is None <==> !self@.is_valid(i as int),
            r matches Some(g) ==> g.wf() && g@ == self@.point(i as int),
    {
        if self.is_null(i) {
            return None;
        }
        Some(self.value(i))
    }

    /// The views of all geometries, not looking at validity.
    pub fn iter_values(&self) -> (r: Vec<Point<'_>>)
        ensures
            r@.len() == self@.len(),
            forall|i: int|
                0 <= i < r@.len() ==> (#[trigger] r@[i]).wf() && r@[i]@ == self@.point(i),
    {
        let n = self.len();
        let mut r: Vec<Point<'_>> = Vec::new();
        let mut i: usize = 0;
        while i < n
            invariant
                n == self@.len(),
                i <= n,
                r@.len() == i,
                forall|k: int|
                    0 <= k < r@.len() ==> (#[trigger] r@[k]).wf() && r@[k]@ == self@.point(k),
            decreases n - i,
        {
            r.push(self.value(i));
            i += 1;
        }
        r
    }

    /// The views of all geometries, with `None` in the place of each null.
    pub fn iter(&self) -> (r: Vec<Option<Point<'_>>>)
        ensures
            r@.len() == self@.len(),
            forall|i: int| 0 <= i < r@.len() ==> (#[trigger] r@[i] is None <==> !self@.is_valid(i)),
            forall|i: int|
                0 <= i < r@.len() ==> (#[trigger] r@[i] matches Some(g) ==> g.wf() && g@
                    == self@.point(i)),
    {
        let n = self.len();
        let mut r: Vec<Option<Point<'_>>> = Vec::new();
        let mut i: usize = 0;
        while i < n
            invariant
                n == self@.len(),
                i <= n,
                r@.len() == i,
                forall|k: int|
                    0 <= k < r@.len() ==> (#[trigger] r@[k] is None <==> !self@.is_valid(k)),
                forall|k: int|
                    0 <= k < r@.len() ==> (#[trigger] r@[k] matches Some(g) ==> g.wf() && g@
                        == self@.point(k)),
            decreases n - i,
        {
            r.push(self.get(i));
            i += 1;
        }
        r
    }

    /// Returns the value at slot `i` as an owned geometry.
    pub fn value_as_geo(&self, i: usize) -> (r: Coord)
        requires
            i < self@.len(),
        ensures
            r == self@.point(i as int),
    {
        self.value(i).to_geo()
    }

    /// Gets the value at slot `i` as an owned geometry, additionally checking the
    /// validity bitmap
    pub fn get_as_geo(&self, i: usize) -> (r: Option<Coord>)
        requires
            i < self@.len(),
        ensures
            r is None <==> !self@.is_valid(i as int),
            r matches Some(g) ==> g == self@.point(i as int),
    {
        if self.is_null(i) {
            return None;
        }
        Some(self.value_as_geo(i))
    }

    /// The array in its columnar encoding, which shares all buffers with it: the
    /// struct of the coordinates, with the mask.
    pub fn into_arrow(self) -> (c: Column)
        ensures
            c@ == layout_column(self@, Seq::empty(), true),
    {
        proof {
            use_type_invariant(&self);
            lemma_layout_column(self@, Seq::empty(), true);
        }
        coords_to_column(self.x, self.y, self.validity)
    }

    /// The array that a columnar value encodes. The value must be a struct of
    /// two columns of coordinates, and its parts must form a valid array.
    pub fn try_from(value: Column) -> (r: Result<Self, GeoArrowError>)
        ensures
            r is Ok <==> (column_layout(value@, 0) matches Some(a) && a.wf()),
            r matches Ok(a) ==> column_layout(value@, 0) == Some(a@),
            r matches Err(e) ==> e == (if column_layout(value@, 0) is None {
                GeoArrowError::IncompatibleLayout
            } else {
                GeoArrowError::InvariantViolation
            }),
    {
        let (x, y, validity) = match column_into_coords(value) {
            Ok(parts) => parts,
            Err(e) => return Err(e),
        };
        Self::try_new(x, y, validity)
    }

    /// Clone this array to an owned box.
    pub fn to_boxed(&self) -> (r: Box<Self>)
        ensures
            r@ == self@,
    {
        Box::new(self.clone())
    }

    /// Walks the array and returns the events of the walk: the collection, and
    /// each point in it with its one coordinate.
    pub fn process_geom(&self) -> (events: Vec<Event>)
        ensures
            events@ == point_array_events(self@),
    {
        let num_geometries = self.len();
        let x = buffer_as_slice(&self.x);
        let y = buffer_as_slice(&self.y);
        let mut events: Vec<Event> = Vec::new();
        events.push(Event::GeometryCollectionBegin { size: num_geometries, idx: 0 });
        let ghost head = events@;
        let ghost item = |i: int| point_events(self@.x, self@.y, i, i);
        let mut geom_idx: usize = 0;
        while geom_idx < num_geometries
            invariant
                self@.wf(),
                self@.levels.len() == 0,
                x@ == self@.x,
                y@ == self@.y,
                num_geometries == self@.len(),
                geom_idx <= num_geometries,
                item == |i: int| point_events(self@.x, self@.y, i, i),
                events@ == head + concat_events(geom_idx as int, item),
            decreases num_geometries - geom_idx,
        {
            events.push(Event::PointBegin { idx: geom_idx });
            events.push(Event::Xy { x: x[geom_idx], y: y[geom_idx], idx: 0 });
            events.push(Event::PointEnd { idx: geom_idx });
            geom_idx += 1;
            assert(events@ =~= head + concat_events(geom_idx as int, item));
        }
        let last = if num_geometries == 0 {
            0
        } else {
            num_geometries - 1
        };
        events.push(Event::GeometryCollectionEnd { idx: last });
        assert(events@ =~= point_array_events(self@));
        events
    }
}

} // verus!
