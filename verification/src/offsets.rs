//! Offsets of one nesting level, as callers make and read them.

use crate::buffers::{
    is_offsets, offsets_as_slice, offsets_clone, offsets_len_proxy, offsets_seq,
    offsets_start_end, offsets_try_from, Offsets,
};
use crate::error::GeoArrowError;
use vstd::prelude::*;
use vstd::slice::slice_to_vec;

verus! {

impl View for Offsets {
    type V = Seq<i64>;

    open spec fn view(&self) -> Seq<i64> {
        offsets_seq(*self)
    }
}

impl Clone for Offsets {
    /// A second handle on the same offsets.
    fn clone(&self) -> (r: Self)
        ensures
            r@ == self@,
    {
        offsets_clone(self)
    }
}

impl Offsets {
    /// Takes `offsets` as the offsets of one level. They are accepted when there
    /// is at least one, the first is not negative and none is below the one
    /// before it.
    pub fn try_new(offsets: Vec<i64>) -> (r: Result<Offsets, GeoArrowError>)
        ensures
            r is Ok <==> is_offsets(offsets@),
            r matches Ok(b) ==> b@ == offsets@,
            r matches Err(e) ==> e == GeoArrowError::InvariantViolation,
    {
        match offsets_try_from(offsets) {
            Ok(b) => Ok(b),
            Err(_) => Err(GeoArrowError::InvariantViolation),
        }
    }

    /// The number of items that these offsets delimit: one less than the number
    /// of offsets.
    pub fn len_proxy(&self) -> (n: usize)
        ensures
            n == self@.len() - 1,
            self@.len() <= usize::MAX,
            is_offsets(self@),
    {
        // The slice is taken for the guarantee that comes with it.
        let offsets = offsets_as_slice(self);
        assert(offsets@.len() == offsets.len());
        offsets_len_proxy(self)
    }

    /// Where item `j` starts and ends in the level below.
    pub fn start_end(&self, j: usize) -> (r: (usize, usize))
        requires
            j + 1 < self@.len(),
            self@.last() <= usize::MAX,
        ensures
            r.0 == self@[j as int],
            r.1 == self@[j + 1],
            r.0 <= r.1,
            is_offsets(self@),
    {
        // The slice is taken for the guarantee that comes with it.
        let offsets = offsets_as_slice(self);
        assert(offsets@[j as int] <= offsets@[j + 1]);
        offsets_start_end(self, j)
    }

    /// The last offset: where the last item ends.
    pub fn last(&self) -> (r: i64)
        ensures
            r == self@.last(),
            is_offsets(self@),
    {
        let offsets = offsets_as_slice(self);
        offsets[offsets.len() - 1]
    }

    /// A copy of the offsets, first to last.
    pub fn to_vec(&self) -> (v: Vec<i64>)
        ensures
            v@ == self@,
            is_offsets(self@),
    {
        slice_to_vec(offsets_as_slice(self))
    }

    /// Whether every offset points into a level of `child_len` items.
    pub fn fits(&self, child_len: usize) -> (r: bool)
        ensures
            r == (self@.last() <= child_len),
            is_offsets(self@),
    {
        let last = self.last();
        last as u64 <= child_len as u64
    }
}

} // verus!
