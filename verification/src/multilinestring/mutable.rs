use crate::buffers::buffer_from_vec;
use crate::layout::{Coord, Layout};
use crate::multilinestring::array::MultiLineStringArray;
use crate::mutable::{
    lemma_push_coords_levels, lemma_push_lines_levels, lemma_push_polygons_levels,
    mask_from_bits, offsets_from_vec, MutableLayout,
};
use vstd::prelude::*;

verus! {

/// The builder of an array of multi line strings: it takes one geometry or one null at a
/// time, and is made into an array when all are in.
pub struct MutableMultiLineStringArray {
    inner: MutableLayout,
}

impl View for MutableMultiLineStringArray {
    type V = Layout;

    closed spec fn view(&self) -> Layout {
        self.inner@
    }
}

/// What a geometry handed to the builder is.
pub open spec fn multilinestring_value(value: Option<&Vec<Vec<Coord>>>) -> Option<Seq<Seq<Coord>>> {
    match value {
        Some(g) => Some(g.deep_view()),
        None => None,
    }
}

/// What a sequence of geometries handed to the builder is.
pub open spec fn multilinestring_values(values: Seq<Option<Vec<Vec<Coord>>>>) -> Seq<Option<Seq<Seq<Coord>>>> {
    Seq::new(
        values.len(),
        |i: int|
            match values[i] {
                Some(g) => Some(g.deep_view()),
                None => None,
            },
    )
}

/// What a sequence of geometries without a null is, handed to the builder.
pub open spec fn multilinestring_present(values: Seq<Vec<Vec<Coord>>>) -> Seq<Option<Seq<Seq<Coord>>>> {
    Seq::new(values.len(), |i: int| Some(values[i].deep_view()))
}

impl MutableMultiLineStringArray {
    /// Whether the builder is between two geometries: the mask has one bit per
    /// geometry.
    pub closed spec fn wf(&self) -> bool {
        &&& self.inner.wf()
        &&& self@.levels.len() == 2
        &&& self@.validity matches Some(bits) && bits.len() == self@.len()
    }

    /// Creates a new empty builder.
    pub fn new() -> (r: Self)
        ensures
            r.wf(),
            r@ == Layout::empty(2),
    {
        Self { inner: MutableLayout::new(2) }
    }

    /// Creates a new empty builder. The capacity is a hint and changes nothing of
    /// what the builder holds.
    pub fn with_capacity(capacity: usize) -> (r: Self)
        ensures
            r.wf(),
            r@ == Layout::empty(2),
    {
        Self::new()
    }

    /// The number of geometries pushed so far, nulls included.
    pub fn len(&self) -> (n: usize)
        requires
            self.wf(),
        ensures
            n == self@.len(),
    {
        self.inner.marked()
    }

    /// Adds a geometry, or a null where `value` is `None`.
    pub fn push_geometry(&mut self, value: Option<&Vec<Vec<Coord>>>)
        requires
            old(self).wf(),
        ensures
            final(self).wf(),
            final(self)@ == old(self)@.push_lines_geometry(multilinestring_value(value)),
    {
        match value {
            Some(geometry) => {
                proof {
                    lemma_push_lines_levels(self@, 1, geometry.deep_view());
                }
                self.inner.push_lines(1, geometry);
                self.inner.close(0);
                self.inner.mark(true);
            },
            None => {
                self.inner.close(0);
                self.inner.mark(false);
            },
        }
    }

    /// Adds a null.
    pub fn push_null(&mut self)
        requires
            old(self).wf(),
        ensures
            final(self).wf(),
            final(self)@ == old(self)@.push_lines_geometry(None),
    {
        self.push_geometry(None);
    }

    /// Makes the array of all that was pushed. The mask is kept only if a null
    /// was pushed.
    pub fn finish(self) -> (a: MultiLineStringArray)
        requires
            self.wf(),
        ensures
            a@ == self@.finished(),
    {
        let ghost raw = self@;
        let (x, y, level0, level1, level2, bits) = self.inner.into_parts();
        proof {
            assert(crate::buffers::is_offsets(raw.levels[0]));
            assert(crate::buffers::is_offsets(raw.levels[1]));
        }
        let ghost levels = raw.levels;
        let geom_offsets = offsets_from_vec(level0);
        let ring_offsets = offsets_from_vec(level1);
        let validity = mask_from_bits(bits);
        let x = buffer_from_vec(x);
        let y = buffer_from_vec(y);
        proof {
            let a = crate::multilinestring::array::multilinestring_layout(
                x,
                y,
                geom_offsets,
                ring_offsets,
                validity,
            );
            assert(a.levels =~= raw.levels);
            assert(a == raw.finished());
            assert forall|k: int| 0 <= k < a.levels.len() implies crate::buffers::is_offsets(
                #[trigger] a.levels[k],
            ) && a.levels[k].len() <= usize::MAX && a.levels[k].last() <= a.child_len(k) by {
                assert(crate::buffers::is_offsets(raw.levels[k]));
                assert(raw.child_len(k) == a.child_len(k));
            }
        }
        MultiLineStringArray::new(x, y, geom_offsets, ring_offsets, validity)
    }

    /// The builder that holds `values`, none of them null.
    pub fn from_geo(values: &Vec<Vec<Vec<Coord>>>) -> (r: Self)
        ensures
            r.wf(),
            r@ == Layout::encode_nested_lines(multilinestring_present(values@)),
    {
        let ghost all = multilinestring_present(values@);
        let mut r = Self::new();
        let mut i: usize = 0;
        while i < values.len()
            invariant
                i <= values@.len(),
                all == multilinestring_present(values@),
                r.wf(),
                r@ == Layout::encode_nested_lines(all.subrange(0, i as int)),
            decreases values@.len() - i,
        {
            r.push_geometry(Some(&values[i]));
            i += 1;
            proof {
                assert(all.subrange(0, i as int).drop_last() =~= all.subrange(0, i - 1));
            }
        }
        assert(all.subrange(0, i as int) =~= all);
        r
    }

    /// The builder that holds `values`, with a null for each `None`.
    pub fn from_geo_options(values: &Vec<Option<Vec<Vec<Coord>>>>) -> (r: Self)
        ensures
            r.wf(),
            r@ == Layout::encode_nested_lines(multilinestring_values(values@)),
    {
        let ghost all = multilinestring_values(values@);
        let mut r = Self::new();
        let mut i: usize = 0;
        while i < values.len()
            invariant
                i <= values@.len(),
                all == multilinestring_values(values@),
                r.wf(),
                r@ == Layout::encode_nested_lines(all.subrange(0, i as int)),
            decreases values@.len() - i,
        {
            r.push_geometry(values[i].as_ref());
            i += 1;
            proof {
                assert(all.subrange(0, i as int).drop_last() =~= all.subrange(0, i - 1));
            }
        }
        assert(all.subrange(0, i as int) =~= all);
        r
    }
}

impl MultiLineStringArray {
    /// The array of `values`, none of them null.
    pub fn from_geo(values: &Vec<Vec<Vec<Coord>>>) -> (a: Self)
        ensures
            a@ == Layout::encode_nested_lines(multilinestring_present(values@)).finished(),
    {
        MutableMultiLineStringArray::from_geo(values).finish()
    }

    /// The array of `values`, with a null for each `None`.
    pub fn from_geo_options(values: &Vec<Option<Vec<Vec<Coord>>>>) -> (a: Self)
        ensures
            a@ == Layout::encode_nested_lines(multilinestring_values(values@)).finished(),
    {
        MutableMultiLineStringArray::from_geo_options(values).finish()
    }
}

} // verus!
