//! The shared, immutable buffers of `arrow2` that every geometry array is built on.
//!
//! Nothing in this module is proved. Each function states what the `arrow2`
//! function it calls does, and the rest of the crate is verified against these
//! statements.

use arrow2::bitmap::Bitmap;
use arrow2::buffer::Buffer;
use vstd::prelude::*;

verus! {

/// `arrow2::buffer::Buffer`: a shared, immutable run of values. Nothing is
/// known of a buffer but what the functions below state.
#[verifier::external_type_specification]
#[verifier::external_body]
#[verifier::reject_recursive_types(T)]
pub struct ExBuffer<T>(Buffer<T>);

/// `arrow2::bitmap::Bitmap`: a shared, immutable run of bits. Nothing is known
/// of a bitmap but what the functions below state.
#[verifier::external_type_specification]
#[verifier::external_body]
pub struct ExBitmap(Bitmap);

/// `arrow2::error::Error`: why `arrow2` refused a value. It is carried, never
/// read.
#[verifier::external_type_specification]
#[verifier::external_body]
pub struct ExArrowError(arrow2::error::Error);

/// The offsets of one nesting level, held in an `arrow2::offset::OffsetsBuffer<i64>`.
///
/// `arrow2` guarantees of every such buffer that it holds at least one offset,
/// that no offset is negative and that the offsets never decrease.
#[verifier::external_body]
#[derive(Debug)]
pub struct Offsets {
    inner: arrow2::offset::OffsetsBuffer<i64>,
}

/// The offsets that an `Offsets` holds, first to last.
pub uninterp spec fn offsets_seq(b: Offsets) -> Seq<i64>;

/// The bits that a `Bitmap` holds, first to last; `true` is a set bit.
pub uninterp spec fn bitmap_bits(b: Bitmap) -> Seq<bool>;

/// The values that a `Buffer<u64>` holds, first to last.
pub uninterp spec fn buffer_values(b: Buffer<u64>) -> Seq<u64>;

/// The bytes that a `Buffer<u8>` holds, first to last.
pub uninterp spec fn buffer_bytes(b: Buffer<u8>) -> Seq<u8>;

/// What `arrow2` guarantees of the contents of an offsets buffer.
pub open spec fn is_offsets(s: Seq<i64>) -> bool {
    &&& s.len() > 0
    &&& s[0] >= 0
    &&& forall|i: int, j: int| 0 <= i <= j < s.len() ==> s[i] <= s[j]
}

/// The number of unset bits among `bits`.
pub open spec fn count_unset(bits: Seq<bool>) -> nat {
    bits.filter(|b: bool| !b).len()
}

/// `OffsetsBuffer::as_slice`: the offsets held, as a slice. What the slice holds
/// meets the guarantee that `arrow2` documents for the type.
#[verifier::external_body]
pub(crate) fn offsets_as_slice(b: &Offsets) -> (s: &[i64])
    ensures
        s@ == offsets_seq(*b),
        is_offsets(s@),
{
    b.inner.as_slice()
}

/// `OffsetsBuffer::len_proxy`: one less than the number of offsets held.
#[verifier::external_body]
pub(crate) fn offsets_len_proxy(b: &Offsets) -> (n: usize)
    ensures
        n + 1 == offsets_seq(*b).len(),
{
    b.inner.len_proxy()
}

/// `OffsetsBuffer::start_end`: the offsets at `i` and `i + 1`, each converted to
/// `usize`. It panics unless `i` is below `len_proxy`; the second condition keeps
/// the conversion exact.
#[verifier::external_body]
pub(crate) fn offsets_start_end(b: &Offsets, i: usize) -> (r: (usize, usize))
    requires
        i + 1 < offsets_seq(*b).len(),
        offsets_seq(*b)[i + 1] <= usize::MAX,
    ensures
        r.0 == offsets_seq(*b)[i as int],
        r.1 == offsets_seq(*b)[i + 1],
{
    b.inner.start_end(i)
}

/// `OffsetsBuffer::slice`: keeps the `length` offsets from `offset` on. It panics
/// when `length` is zero or the range passes the end.
#[verifier::external_body]
pub(crate) fn offsets_slice(b: &mut Offsets, offset: usize, length: usize)
    requires
        length > 0,
        offset + length <= offsets_seq(*old(b)).len(),
    ensures
        offsets_seq(*final(b)) == offsets_seq(*old(b)).subrange(offset as int, offset + length),
{
    b.inner.slice(offset, length)
}

/// `OffsetsBuffer::clone`: a second handle on the same offsets.
#[verifier::external_body]
pub(crate) fn offsets_clone(b: &Offsets) -> (r: Offsets)
    ensures
        offsets_seq(r) == offsets_seq(*b),
{
    Offsets { inner: b.inner.clone() }
}

/// `OffsetsBuffer::try_from` on a `Vec<i64>`: accepts exactly the vectors that
/// are not empty, start at zero or above and never decrease, and holds them
/// unchanged.
#[verifier::external_body]
pub(crate) fn offsets_try_from(v: Vec<i64>) -> (r: Result<Offsets, arrow2::error::Error>)
    ensures
        r is Ok <==> is_offsets(v@),
        r matches Ok(b) ==> offsets_seq(b) == v@,
{
    match arrow2::offset::OffsetsBuffer::try_from(v) {
        Ok(inner) => Ok(Offsets { inner }),
        Err(e) => Err(e),
    }
}

/// `Bitmap::len`: the number of bits held.
#[verifier::external_body]
pub(crate) fn bitmap_len(b: &Bitmap) -> (n: usize)
    ensures
        n == bitmap_bits(*b).len(),
{
    b.len()
}

/// `Bitmap::get_bit`: whether bit `i` is set. Past the end it may panic.
#[verifier::external_body]
pub(crate) fn bitmap_get_bit(b: &Bitmap, i: usize) -> (r: bool)
    requires
        i < bitmap_bits(*b).len(),
    ensures
        r == bitmap_bits(*b)[i as int],
{
    b.get_bit(i)
}

/// `Bitmap::unset_bits`: the number of unset bits.
#[verifier::external_body]
pub(crate) fn bitmap_unset_bits(b: &Bitmap) -> (n: usize)
    ensures
        n == count_unset(bitmap_bits(*b)),
{
    b.unset_bits()
}

/// `Bitmap::slice`: keeps the `length` bits from `offset` on. It panics when the
/// range passes the end.
#[verifier::external_body]
pub(crate) fn bitmap_slice(b: &mut Bitmap, offset: usize, length: usize)
    requires
        offset + length <= bitmap_bits(*old(b)).len(),
    ensures
        bitmap_bits(*final(b)) == bitmap_bits(*old(b)).subrange(offset as int, offset + length),
{
    b.slice(offset, length)
}

/// `Bitmap::clone`: a second handle on the same bits.
#[verifier::external_body]
pub(crate) fn bitmap_clone(b: &Bitmap) -> (r: Bitmap)
    ensures
        bitmap_bits(r) == bitmap_bits(*b),
{
    b.clone()
}

/// `Bitmap::from` on a vector of `bool`: one bit for each, in order.
#[verifier::external_body]
pub(crate) fn bitmap_from_bools(v: Vec<bool>) -> (r: Bitmap)
    ensures
        bitmap_bits(r) == v@,
{
    Bitmap::from(v)
}

/// `Buffer::as_slice`: the values held, as a slice.
#[verifier::external_body]
pub(crate) fn buffer_as_slice(b: &Buffer<u64>) -> (s: &[u64])
    ensures
        s@ == buffer_values(*b),
{
    b.as_slice()
}

/// `Buffer::clone`: a second handle on the same values.
#[verifier::external_body]
pub(crate) fn buffer_clone(b: &Buffer<u64>) -> (r: Buffer<u64>)
    ensures
        buffer_values(r) == buffer_values(*b),
{
    b.clone()
}

/// `Buffer::slice`: keeps the `length` values from `offset` on. It panics when
/// the range passes the end.
#[verifier::external_body]
pub(crate) fn buffer_slice(b: &mut Buffer<u64>, offset: usize, length: usize)
    requires
        offset + length <= buffer_values(*old(b)).len(),
    ensures
        buffer_values(*final(b)) == buffer_values(*old(b)).subrange(offset as int, offset + length),
{
    b.slice(offset, length)
}

/// `Buffer::from` on a `Vec<u64>`: the same values, in order.
#[verifier::external_body]
pub(crate) fn buffer_from_vec(v: Vec<u64>) -> (r: Buffer<u64>)
    ensures
        buffer_values(r) == v@,
{
    Buffer::from(v)
}

/// `Buffer::as_slice` on bytes: the bytes held, as a slice.
#[verifier::external_body]
pub(crate) fn bytes_as_slice(b: &Buffer<u8>) -> (s: &[u8])
    ensures
        s@ == buffer_bytes(*b),
{
    b.as_slice()
}

/// `Buffer::clone` on bytes: a second handle on the same bytes.
#[verifier::external_body]
pub(crate) fn bytes_clone(b: &Buffer<u8>) -> (r: Buffer<u8>)
    ensures
        buffer_bytes(r) == buffer_bytes(*b),
{
    b.clone()
}

/// `Buffer::from` on a `Vec<u8>`: the same bytes, in order.
#[verifier::external_body]
pub(crate) fn bytes_from_vec(v: Vec<u8>) -> (r: Buffer<u8>)
    ensures
        buffer_bytes(r) == v@,
{
    Buffer::from(v)
}

} // verus!
