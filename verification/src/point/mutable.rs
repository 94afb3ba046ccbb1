use crate::buffers::buffer_from_vec;
use crate::layout::{Coord, Layout};
use crate::mutable::{mask_from_bits, MutableLayout};
use crate::point::array::PointArray;
use vstd::prelude::*;

verus! {

/// The builder of an array of points: it takes one point or one null at a time,
/// and is made into an array when all are in.
pub struct MutablePointArray {
    inner: MutableLayout,
}

impl View for MutablePointArray {
    type V = Layout;

    closed spec fn view(&self) -> Layout {
        self.inner@
    }
}

/// What a sequence of points without a null is, handed to the builder.
pub open spec fn point_present(values: Seq<Coord>) -> Seq<Option<Coord>> {
    Seq::new(values.len(), |i: int| Some(values[i]))
}

impl MutablePointArray {
    /// Whether the builder is between two points: the mask has one bit per
    /// point.
    pub closed spec fn wf(&self) -> bool {
        &&& self.inner.wf()
        &&& self@.levels.len() == 0
        &&& self@.validity matches Some(bits) && bits.len() == self@.len()
    }

    /// Creates a new empty builder.
    pub fn new() -> (r: Self)
        ensures
            r.wf(),
            r@ == Layout::empty(0),
    {
        Self { inner: MutableLayout::new(0) }
    }

    /// Creates a new empty builder. The capacity is a hint and changes nothing of
    /// what the builder holds.
    pub fn with_capacity(capacity: usize) -> (r: Self)
        ensures
            r.wf(),
            r@ == Layout::empty(0),
    {
        Self::new()
    }

    /// The number of points pushed so far, nulls included.
    pub fn len(&self) -> (n: usize)
        requires
            self.wf(),
        ensures
            n == self@.len(),
    {
        self.inner.marked()
    }

    /// Adds a point, or a null where `value` is `None`.
    pub fn push_geometry(&mut self, value: Option<Coord>)
        requires
            old(self).wf(),
        ensures
            final(self).wf(),
            final(self)@ == old(self)@.push_point(value),
    {
        match value {
            Some(c) => {
                self.inner.push_coord(c);
                self.inner.mark(true);
            },
            None => {
                self.inner.push_coord(Coord { x: 0, y: 0 });
                self.inner.mark(false);
            },
        }
    }

    /// Adds a null.
    pub fn push_null(&mut self)
        requires
            old(self).wf(),
        ensures
            final(self).wf(),
            final(self)@ == old(self)@.push_point(None),
    {
        self.push_geometry(None);
    }

    /// Makes the array of all that was pushed. The mask is kept only if a null
    /// was pushed.
    pub fn finish(self) -> (a: PointArray)
        requires
            self.wf(),
        ensures
            a@ == self@.finished(),
    {
        let ghost raw = self@;
        let (x, y, _, _, _, bits) = self.inner.into_parts();
        let validity = mask_from_bits(bits);
        let x = buffer_from_vec(x);
        let y = buffer_from_vec(y);
        proof {
            let a = crate::point::array::point_layout(x, y, validity);
            assert(a.levels =~= raw.levels);
            assert(a == raw.finished());
        }
        PointArray::new(x, y, validity)
    }

    /// The builder that holds `values`, none of them null.
    pub fn from_geo(values: &Vec<Coord>) -> (r: Self)
        ensures
            r.wf(),
            r@ == Layout::encode_points(point_present(values@)),
    {
        let ghost all = point_present(values@);
        let mut r = Self::new();
        let mut i: usize = 0;
        while i < values.len()
            invariant
                i <= values@.len(),
                all == point_present(values@),
                r.wf(),
                r@ == Layout::encode_points(all.subrange(0, i as int)),
            decreases values@.len() - i,
        {
            r.push_geometry(Some(values[i]));
            i += 1;
            proof {
                assert(all.subrange(0, i as int).drop_last() =~= all.subrange(0, i - 1));
            }
        }
        assert(all.subrange(0, i as int) =~= all);
        r
    }

    /// The builder that holds `values`, with a null for each `None`.
    pub fn from_geo_options(values: &Vec<Option<Coord>>) -> (r: Self)
        ensures
            r.wf(),
            r@ == Layout::encode_points(values@),
    {
        let mut r = Self::new();
        let mut i: usize = 0;
        while i < values.len()
            invariant
                i <= values@.len(),
                r.wf(),
                r@ == Layout::encode_points(values@.subrange(0, i as int)),
            decreases values@.len() - i,
        {
            r.push_geometry(values[i]);
            i += 1;
            proof {
                assert(values@.subrange(0, i as int).drop_last() =~= values@.subrange(0, i - 1));
            }
        }
        assert(values@.subrange(0, i as int) =~= values@);
        r
    }
}

impl PointArray {
    /// The array of `values`, none of them null.
    pub fn from_geo(values: &Vec<Coord>) -> (a: Self)
        ensures
            a@ == Layout::encode_points(point_present(values@)).finished(),
    {
        MutablePointArray::from_geo(values).finish()
    }

    /// The array of `values`, with a null for each `None`.
    pub fn from_geo_options(values: &Vec<Option<Coord>>) -> (a: Self)
        ensures
            a@ == Layout::encode_points(values@).finished(),
    {
        MutablePointArray::from_geo_options(values).finish()
    }
}

} // verus!
