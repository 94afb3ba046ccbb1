use crate::buffers::{
    bitmap_bits, bitmap_clone, bitmap_get_bit, bitmap_len, buffer_as_slice, buffer_clone,
    buffer_values, is_offsets, offsets_clone, Offsets,
};
use crate::columnar::{
    column_into_coords, column_into_list, column_layout, coords_to_column, layout_column,
    lemma_layout_column, list_to_column, Column,
};
use crate::error::GeoArrowError;
use crate::event::{
    collection_events, concat_events, multipoint_array_events, multipoint_events,
    push_multipoint, Event,
};
use crate::layout::{lemma_slice_wf, Coord, Layout};
use crate::multipoint::scalar::MultiPoint;
use crate::slice::{slice_offsets_unchecked, slice_validity_unchecked, validity_bits};
use arrow2::bitmap::Bitmap;
use arrow2::buffer::Buffer;
use vstd::prelude::*;

verus! {

/// An array of multi points, each possibly null: the coordinates of all of
/// them in two pools, and one level of offsets for each level of nesting.
pub struct MultiPointArray {
    /// Buffer of x coordinates
    x: Buffer<u64>,
    /// Buffer of y coordinates
    y: Buffer<u64>,
    /// Offsets into the coordinate array where each geometry starts
    geom_offsets: Offsets,
    /// Validity bitmap
    validity: Option<Bitmap>,
}

/// What an array made of these parts holds.
pub open spec fn multipoint_layout(
    x: Buffer<u64>,
    y: Buffer<u64>,
    geom_offsets: Offsets,
    validity: Option<Bitmap>,
) -> Layout {
    Layout {
        x: buffer_values(x),
        y: buffer_values(y),
        levels: seq![geom_offsets@],
        validity: validity_bits(validity),
    }
}

/// Whether the parts form a valid array: the mask, if there is one, has one bit
/// per geometry, the pools have one length, and no offset passes the end of
/// what it points into.
pub(super) fn check(
    x: &Buffer<u64>,
    y: &Buffer<u64>,
    validity_len: Option<usize>,
    geom_offsets: &Offsets,
) -> (r: Result<(), GeoArrowError>)
    ensures
        r is Ok <==> {
            &&& validity_len matches Some(n) ==> n == geom_offsets@.len() - 1
            &&& buffer_values(*x).len() == buffer_values(*y).len()
            &&& geom_offsets@.last() <= buffer_values(*x).len()
        },
        r matches Err(e) ==> e == GeoArrowError::InvariantViolation,
        is_offsets(geom_offsets@),
        geom_offsets@.len() <= usize::MAX,
        buffer_values(*x).len() <= usize::MAX,
{
    let num_geometries = geom_offsets.len_proxy();
    let x_len = buffer_as_slice(x).len();
    if let Some(len) = validity_len {
        if len != num_geometries {
            return Err(GeoArrowError::InvariantViolation);
        }
    }
    if x_len != buffer_as_slice(y).len() {
        return Err(GeoArrowError::InvariantViolation);
    }
    if !geom_offsets.fits(x_len) {
        return Err(GeoArrowError::InvariantViolation);
    }
    Ok(())
}

impl View for MultiPointArray {
    type V = Layout;

    closed spec fn view(&self) -> Layout {
        multipoint_layout(self.x, self.y, self.geom_offsets, self.validity)
    }
}

impl Clone for MultiPointArray {
    /// A second handle on the same buffers.
    fn clone(&self) -> (a: Self)
        ensures
            a@ == self@,
    {
        proof {
            use_type_invariant(self);
        }
        Self {
            x: buffer_clone(&self.x),
            y: buffer_clone(&self.y),
            geom_offsets: offsets_clone(&self.geom_offsets),
            validity: match &self.validity {
                Some(bitmap) => Some(bitmap_clone(bitmap)),
                None => None,
            },
        }
    }
}

impl MultiPointArray {
    #[verifier::type_invariant]
    spec fn inv(self) -> bool {
        self@.wf()
    }

    /// Makes an array of parts that the caller knows to be valid.
    pub fn new(
        x: Buffer<u64>,
        y: Buffer<u64>,
        geom_offsets: Offsets,
        validity: Option<Bitmap>,
    ) -> (a: Self)
        requires
            multipoint_layout(x, y, geom_offsets, validity).wf(),
        ensures
            a@ == multipoint_layout(x, y, geom_offsets, validity),
    {
        Self { x, y, geom_offsets, validity }
    }

    /// Makes an array of the parts if they are valid, in constant time.
    pub fn try_new(
        x: Buffer<u64>,
        y: Buffer<u64>,
        geom_offsets: Offsets,
        validity: Option<Bitmap>,
    ) -> (r: Result<Self, GeoArrowError>)
        ensures
            r is Ok <==> multipoint_layout(x, y, geom_offsets, validity).wf(),
            r matches Ok(a) ==> a@ == multipoint_layout(x, y, geom_offsets, validity),
            r matches Err(e) ==> e == GeoArrowError::InvariantViolation,
    {
        let validity_len = match &validity {
            Some(bitmap) => Some(bitmap_len(bitmap)),
            None => None,
        };
        proof {
            assert(multipoint_layout(x, y, geom_offsets, validity).levels[0] == geom_offsets@);
        }
        match check(&x, &y, validity_len, &geom_offsets) {
            Ok(()) => Ok(Self { x, y, geom_offsets, validity }),
            Err(e) => Err(e),
        }
    }

    /// Returns the number of geometries in this array
    pub fn len(&self) -> (n: usize)
        ensures
            n == self@.len(),
            self@.wf(),
            self@.levels.len() == 1,
    {
        proof {
            use_type_invariant(self);
        }
        self.geom_offsets.len_proxy()
    }

    /// Returns true if the array is empty
    pub fn is_empty(&self) -> (r: bool)
        ensures
            r == (self@.len() == 0),
    {
        self.len() == 0
    }

    /// Returns the optional validity.
    pub fn validity(&self) -> (r: Option<&Bitmap>)
        ensures
            r matches Some(bitmap) ==> self@.validity == Some(bitmap_bits(*bitmap)),
            r is None ==> self@.validity is None,
    {
        self.validity.as_ref()
    }

    /// Whether geometry `i` is null.
    pub fn is_null(&self, i: usize) -> (r: bool)
        requires
            i < self@.len(),
        ensures
            r == !self@.is_valid(i as int),
    {
        proof {
            use_type_invariant(self);
        }
        match &self.validity {
            None => false,
            Some(bitmap) => !bitmap_get_bit(bitmap, i),
        }
    }

    /// The `length` geometries from `offset` on, sharing all buffers with this
    /// array, or a bounds error when they pass its end.
    pub fn slice(&self, offset: usize, length: usize) -> (r: Result<Self, GeoArrowError>)
        ensures
            r is Ok <==> offset + length <= self@.len(),
            r matches Ok(a) ==> a@ == self@.slice(offset as int, length as int),
            r matches Err(e) ==> e == GeoArrowError::BoundsViolation,
    {
        let len = self.len();
        if length > len || offset > len - length {
            return Err(GeoArrowError::BoundsViolation);
        }
        Ok(self.slice_unchecked(offset, length))
    }

    /// The `length` geometries from `offset` on, sharing all buffers with this
    /// array. The caller sees to it that they lie within the array.
    pub fn slice_unchecked(&self, offset: usize, length: usize) -> (a: Self)
        requires
            offset + length <= self@.len(),
        ensures
            a@ == self@.slice(offset as int, length as int),
    {
        proof {
            use_type_invariant(self);
            lemma_slice_wf(self@, offset as int, length as int);
        }
        let validity = slice_validity_unchecked(&self.validity, offset, length);
        let geom_offsets = slice_offsets_unchecked(&self.geom_offsets, offset, length);
        let a = Self {
            x: buffer_clone(&self.x),
            y: buffer_clone(&self.y),
            geom_offsets,
            validity,
        };
        assert(a@.levels =~= self@.slice(offset as int, length as int).levels);
        a
    }

    /// The geometry at `i` as a view, whether it is null or not.
    pub fn value(&self, i: usize) -> (r: MultiPoint<'_>)
        requires
            i < self@.len(),
        ensures
            r.wf(),
            r@ == self@.line(i as int),
    {
        proof {
            use_type_invariant(self);
            assert(self@.levels[0] == self.geom_offsets@);
        }
        MultiPoint {
            x: &self.x,
            y: &self.y,
            geom_offsets: &self.geom_offsets,
            geom_index: i,
        }
    }

    /// The geometry at `i` as a view, or `None` when it is null.
    pub fn get(&self, i: usize) -> (r: Option<MultiPoint<'_>>)
        requires
            i < self@.len(),
        ensures
            r is None <==> !self@.is_valid(i as int),
            r matches Some(g) ==> g.wf() && g@ == self@.line(i as int),
    {
        if self.is_null(i) {
            return None;
        }
        Some(self.value(i))
    }

    /// The views of all geometries, not looking at validity.
    pub fn iter_values(&self) -> (r: Vec<MultiPoint<'_>>)
        ensures
            r@.len() == self@.len(),
            forall|i: int|
                0 <= i < r@.len() ==> (#[trigger] r@[i]).wf() && r@[i]@ == self@.line(i),
    {
        let n = self.len();
        let mut r: Vec<MultiPoint<'_>> = Vec::new();
        let mut i: usize = 0;
        while i < n
            invariant
                n == self@.len(),
                i <= n,
                r@.len() == i,
                forall|k: int|
                    0 <= k < r@.len() ==> (#[trigger] r@[k]).wf() && r@[k]@ == self@.line(k),
            decreases n - i,
        {
            r.push(self.value(i));
            i += 1;
        }
        r
    }

    /// The views of all geometries, with `None` in the place of each null.
    pub fn iter(&self) -> (r: Vec<Option<MultiPoint<'_>>>)
        ensures
            r@.len() == self@.len(),
            forall|i: int| 0 <= i < r@.len() ==> (#[trigger] r@[i] is None <==> !self@.is_valid(i)),
            forall|i: int|
                0 <= i < r@.len() ==> (#[trigger] r@[i] matches Some(g) ==> g.wf() && g@
                    == self@.line(i)),
    {
        let n = self.len();
        let mut r: Vec<Option<MultiPoint<'_>>> = Vec::new();
        let mut i: usize = 0;
        while i < n
            invariant
                n == self@.len(),
                i <= n,
                r@.len() == i,
                forall|k: int|
                    0 <= k < r@.len() ==> (#[trigger] r@[k] is None <==> !self@.is_valid(k)),
                forall|k: int|
                    0 <= k < r@.len() ==> (#[trigger] r@[k] matches Some(g) ==> g.wf() && g@
                        == self@.line(k)),
            decreases n - i,
        {
            r.push(self.get(i));
            i += 1;
        }
        r
    }

    /// Returns the value at slot `i` as an owned geometry.
    pub fn value_as_geo(&self, i: usize) -> (r: Vec<Coord>)
        requires
            i < self@.len(),
        ensures
            r@ == self@.line(i as int),
    {
        self.value(i).to_geo()
    }

    /// Gets the value at slot `i` as an owned geometry, additionally checking the
    /// validity bitmap
    pub fn get_as_geo(&self, i: usize) -> (r: Option<Vec<Coord>>)
        requires
            i < self@.len(),
        ensures
            r is None <==> !self@.is_valid(i as int),
            r matches Some(g) ==> g@ == self@.line(i as int),
    {
        if self.is_null(i) {
            return None;
        }
        Some(self.value_as_geo(i))
    }

    /// All geometries as owned values, not looking at validity
    pub fn iter_geo_values(&self) -> (r: Vec<Vec<Coord>>)
        ensures
            r@.len() == self@.len(),
            forall|i: int| 0 <= i < r@.len() ==> (#[trigger] r@[i])@ == self@.line(i),
    {
        let n = self.len();
        let mut r: Vec<Vec<Coord>> = Vec::new();
        let mut i: usize = 0;
        while i < n
            invariant
                n == self@.len(),
                i <= n,
                r@.len() == i,
                forall|k: int| 0 <= k < r@.len() ==> (#[trigger] r@[k])@ == self@.line(k),
            decreases n - i,
        {
            r.push(self.value_as_geo(i));
            i += 1;
        }
        r
    }

    /// All geometries as owned values, taking into account validity
    pub fn iter_geo(&self) -> (r: Vec<Option<Vec<Coord>>>)
        ensures
            r@.len() == self@.len(),
            forall|i: int| 0 <= i < r@.len() ==> (#[trigger] r@[i] is None <==> !self@.is_valid(i)),
            forall|i: int|
                0 <= i < r@.len() ==> (#[trigger] r@[i] matches Some(g) ==> g@
                    == self@.line(i)),
    {
        let n = self.len();
        let mut r: Vec<Option<Vec<Coord>>> = Vec::new();
        let mut i: usize = 0;
        while i < n
            invariant
                n == self@.len(),
                i <= n,
                r@.len() == i,
                forall|k: int|
                    0 <= k < r@.len() ==> (#[trigger] r@[k] is None <==> !self@.is_valid(k)),
                forall|k: int|
                    0 <= k < r@.len() ==> (#[trigger] r@[k] matches Some(g) ==> g@
                        == self@.line(k)),
            decreases n - i,
        {
            r.push(self.get_as_geo(i));
            i += 1;
        }
        r
    }

    /// The array in its columnar encoding, which shares all buffers with it: one
    /// list per level around the struct of the coordinates, the items of the
    /// lists named `vertices` from the outside in.
    pub fn into_arrow(self) -> (c: Column)
        ensures
            c@ == layout_column(self@, seq!["vertices"@], true),
    {
        proof {
            use_type_invariant(&self);
            lemma_layout_column(self@, seq!["vertices"@], true);
        }
        let column = coords_to_column(self.x, self.y, None);
        let column = list_to_column("vertices", true, self.geom_offsets, column, self.validity);
        column
    }

    /// The array that a columnar value encodes. The value must have the nesting
    /// of multi points, and its parts must form a valid array.
    pub fn try_from(value: Column) -> (r: Result<Self, GeoArrowError>)
        ensures
            r is Ok <==> (column_layout(value@, 1) matches Some(a) && a.wf()),
            r matches Ok(a) ==> column_layout(value@, 1) == Some(a@),
            r matches Err(e) ==> e == (if column_layout(value@, 1) is None {
                GeoArrowError::IncompatibleLayout
            } else {
                GeoArrowError::InvariantViolation
            }),
    {
        proof {
            reveal_with_fuel(column_layout, 5);
        }
        let (geom_offsets, column, validity) = match column_into_list(value) {
            Ok(parts) => parts,
            Err(e) => return Err(e),
        };
        let (x, y, _) = match column_into_coords(column) {
            Ok(parts) => parts,
            Err(e) => return Err(e),
        };
        proof {
            assert(column_layout(value@, 1) matches Some(a) && a.levels =~= multipoint_layout(
                x,
                y,
                geom_offsets,
                validity,
            ).levels);
        }
        Self::try_new(x, y, geom_offsets, validity)
    }

    /// Clone this array to an owned box.
    pub fn to_boxed(&self) -> (r: Box<Self>)
        ensures
            r@ == self@,
    {
        Box::new(self.clone())
    }

    /// The same array read as line strings: the two kinds have one layout.
    pub fn into_linestring_array(self) -> (a: crate::linestring::LineStringArray)
        ensures
            a@ == self@,
    {
        proof {
            use_type_invariant(&self);
        }
        crate::linestring::LineStringArray::new(self.x, self.y, self.geom_offsets, self.validity)
    }

    /// Walks the array depth first and returns the events of the walk: the
    /// collection, each multi point in it and each of its parts, down to the
    /// coordinates.
    pub fn process_geom(&self) -> (events: Vec<Event>)
        ensures
            events@ == multipoint_array_events(self@),
    {
        proof {
            use_type_invariant(self);
            assert(self@.levels[0] == self.geom_offsets@);
        }
        let num_geometries = self.len();
        let x = buffer_as_slice(&self.x);
        let y = buffer_as_slice(&self.y);
        let mut events: Vec<Event> = Vec::new();
        events.push(Event::GeometryCollectionBegin { size: num_geometries, idx: 0 });
        let ghost head = events@;
        let ghost item = |i: int| multipoint_events(self@.x, self@.y, self@.levels[0], i, i);
        let mut geom_idx: usize = 0;
        while geom_idx < num_geometries
            invariant
                self@.wf(),
                self@ == multipoint_layout(self.x, self.y, self.geom_offsets, self.validity),
                x@ == self@.x,
                y@ == self@.y,
                num_geometries == self@.len(),
                geom_idx <= num_geometries,
                item == |i: int| multipoint_events(self@.x, self@.y, self@.levels[0], i, i),
                events@ == head + concat_events(geom_idx as int, item),
            decreases num_geometries - geom_idx,
        {
            proof {
            assert(self@.levels[0] == self.geom_offsets@);
            }
            push_multipoint(&mut events, x, y, &self.geom_offsets, geom_idx, geom_idx);
            geom_idx += 1;
            assert(events@ =~= head + concat_events(geom_idx as int, item));
        }
        let last = if num_geometries == 0 {
            0
        } else {
            num_geometries - 1
        };
        events.push(Event::GeometryCollectionEnd { idx: last });
        assert(events@ =~= multipoint_array_events(self@));
        events
    }
}

} // verus!
