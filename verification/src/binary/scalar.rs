use crate::buffers::{buffer_bytes, bytes_as_slice, is_offsets, Offsets};
use arrow2::buffer::Buffer;
use vstd::prelude::*;
use vstd::slice::slice_subrange;
use vstd::slice::slice_to_vec;

verus! {

/// One encoded geometry of an array: a view into the array's buffers that owns
/// nothing.
#[derive(Clone, Copy, Debug)]
pub struct WKB<'a> {
    /// Offsets into the bytes where each geometry starts
    pub offsets: &'a Offsets,
    /// The bytes of all geometries
    pub values: &'a Buffer<u8>,
    /// The position of the geometry in the offsets
    pub geom_index: usize,
}

impl<'a> View for WKB<'a> {
    type V = Seq<u8>;

    open spec fn view(&self) -> Seq<u8> {
        buffer_bytes(*self.values).subrange(
            self.offsets@[self.geom_index as int] as int,
            self.offsets@[self.geom_index + 1] as int,
        )
    }
}

impl<'a> WKB<'a> {
    /// Whether the view points at a geometry whose bytes the buffer holds.
    pub open spec fn wf(&self) -> bool {
        &&& is_offsets(self.offsets@)
        &&& self.offsets@.last() <= buffer_bytes(*self.values).len() <= usize::MAX
        &&& self.geom_index + 1 < self.offsets@.len()
    }

    /// The number of bytes of the encoded geometry.
    pub fn len(&self) -> (n: usize)
        requires
            self.wf(),
        ensures
            n == self@.len(),
    {
        let (start, end) = self.offsets.start_end(self.geom_index);
        end - start
    }

    /// The bytes of the encoded geometry, copied out.
    pub fn to_vec(&self) -> (r: Vec<u8>)
        requires
            self.wf(),
        ensures
            r@ == self@,
    {
        let bytes = bytes_as_slice(self.values);
        let (start, end) = self.offsets.start_end(self.geom_index);
        slice_to_vec(slice_subrange(bytes, start, end))
    }
}

} // verus!
