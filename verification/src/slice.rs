//! Cutting a window out of the parts of an array.

use crate::buffers::{
    bitmap_bits, bitmap_clone, bitmap_slice, bitmap_unset_bits, offsets_as_slice, offsets_clone,
    offsets_slice, Offsets,
};
use crate::layout::{slice_offsets, slice_validity};
use arrow2::bitmap::Bitmap;
use vstd::prelude::*;

verus! {

/// The bits of an optional mask.
pub open spec fn validity_bits(validity: Option<Bitmap>) -> Option<Seq<bool>> {
    match validity {
        None => None,
        Some(bitmap) => Some(bitmap_bits(bitmap)),
    }
}

/// The mask of the `length` geometries from `offset` on. A window in which every
/// bit is set is dropped: no mask means that no geometry is null.
pub fn slice_validity_unchecked(validity: &Option<Bitmap>, offset: usize, length: usize) -> (r:
    Option<Bitmap>)
    requires
        validity matches Some(bitmap) ==> offset + length <= bitmap_bits(*bitmap).len(),
    ensures
        validity_bits(r) == slice_validity(validity_bits(*validity), offset as int, length as int),
{
    match validity {
        None => None,
        Some(bitmap) => {
            let mut window = bitmap_clone(bitmap);
            bitmap_slice(&mut window, offset, length);
            if bitmap_unset_bits(&window) > 0 {
                Some(window)
            } else {
                None
            }
        },
    }
}

/// The offsets of the `length` items from `offset` on, sharing the buffer.
pub fn slice_offsets_unchecked(offsets: &Offsets, offset: usize, length: usize) -> (r: Offsets)
    requires
        offset + length < offsets@.len(),
    ensures
        r@ == slice_offsets(offsets@, offset as int, length as int),
{
    let count = offsets_as_slice(offsets).len();
    assert(length < count);
    let mut window = offsets_clone(offsets);
    offsets_slice(&mut window, offset, length + 1);
    window
}

} // verus!
