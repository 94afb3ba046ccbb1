use crate::binary::scalar::WKB;
use crate::buffers::{
    bitmap_bits, bitmap_clone, bitmap_get_bit, bitmap_len, buffer_bytes, bytes_as_slice,
    bytes_clone, count_unset, is_offsets, offsets_clone, Offsets,
};
use crate::columnar::{Column, ColumnView};
use crate::error::GeoArrowError;
use crate::layout::{lemma_count_unset, lemma_slice_offsets, slice_offsets, slice_validity};
use crate::slice::{slice_offsets_unchecked, slice_validity_unchecked, validity_bits};
use arrow2::bitmap::Bitmap;
use arrow2::buffer::Buffer;
use vstd::prelude::*;

verus! {

/// What an array of encoded geometries holds.
pub struct BinaryLayout {
    /// Where each geometry starts in the bytes, and where the last one ends.
    pub offsets: Seq<i64>,
    /// The bytes of all geometries.
    pub values: Seq<u8>,
    /// One bit per geometry, unset for a null; `None` when no geometry is null.
    pub validity: Option<Seq<bool>>,
}

impl BinaryLayout {
    /// The number of geometries.
    pub open spec fn len(self) -> int {
        self.offsets.len() - 1
    }

    /// The invariant of every array: the offsets never decrease and stay within
    /// the bytes, and a mask has one bit per geometry.
    pub open spec fn wf(self) -> bool {
        &&& is_offsets(self.offsets)
        &&& self.offsets.len() <= usize::MAX
        &&& self.offsets.last() <= self.values.len() <= usize::MAX
        &&& self.validity matches Some(bits) ==> bits.len() == self.len()
    }

    /// Whether geometry `i` is present.
    pub open spec fn is_valid(self, i: int) -> bool {
        match self.validity {
            None => true,
            Some(bits) => bits[i],
        }
    }

    /// The bytes of geometry `i`.
    pub open spec fn bytes(self, i: int) -> Seq<u8> {
        self.values.subrange(self.offsets[i] as int, self.offsets[i + 1] as int)
    }

    /// The `length` geometries from `offset` on; the bytes are not cut.
    pub open spec fn slice(self, offset: int, length: int) -> BinaryLayout {
        BinaryLayout {
            offsets: slice_offsets(self.offsets, offset, length),
            values: self.values,
            validity: slice_validity(self.validity, offset, length),
        }
    }

    /// The columnar encoding: byte strings with 64-bit offsets.
    pub open spec fn column(self) -> ColumnView {
        ColumnView::LargeBinary {
            offsets: self.offsets,
            values: self.values,
            validity: self.validity,
        }
    }
}

/// Slicing twice is slicing once at the sum of the two offsets: for a valid
/// layout, a first slice within its bounds and a second slice within the
/// first, `a.slice(o1, l1).slice(o2, l2) == a.slice(o1 + o2, l2)`.
pub proof fn lemma_binary_slice_composition(a: BinaryLayout, o1: int, l1: int, o2: int, l2: int)
    requires
        a.wf(),
        0 <= o1,
        0 <= l1,
        o1 + l1 <= a.len(),
        0 <= o2,
        0 <= l2,
        o2 + l2 <= l1,
    ensures
        a.slice(o1, l1).slice(o2, l2) == a.slice(o1 + o2, l2),
{
    let twice = a.slice(o1, l1).slice(o2, l2);
    let once = a.slice(o1 + o2, l2);
    assert(twice.offsets =~= once.offsets);
    assert(twice.validity == once.validity) by {
        if let Some(bits) = a.validity {
            let w1 = bits.subrange(o1, o1 + l1);
            let w = bits.subrange(o1 + o2, o1 + o2 + l2);
            assert(w1.subrange(o2, o2 + l2) =~= w);
            lemma_count_unset(w1);
            lemma_count_unset(w);
            if count_unset(w1) == 0 {
                assert forall|i: int| 0 <= i < w.len() implies w[i] by {
                    assert(w[i] == w1[o2 + i]);
                }
            }
        }
    }
}

/// The layout that a column of byte strings with 64-bit offsets encodes.
pub open spec fn column_binary(c: ColumnView) -> Option<BinaryLayout> {
    match c {
        ColumnView::LargeBinary { offsets, values, validity } => Some(
            BinaryLayout { offsets, values, validity },
        ),
        _ => None,
    }
}

/// An array of geometries in a binary encoding, each possibly null.
pub struct WKBArray {
    /// Offsets into the bytes where each geometry starts
    offsets: Offsets,
    /// The bytes of all geometries
    values: Buffer<u8>,
    /// Validity bitmap
    validity: Option<Bitmap>,
}

/// What an array made of these parts holds.
pub open spec fn binary_layout(
    offsets: Offsets,
    values: Buffer<u8>,
    validity: Option<Bitmap>,
) -> BinaryLayout {
    BinaryLayout {
        offsets: offsets@,
        values: buffer_bytes(values),
        validity: validity_bits(validity),
    }
}

impl View for WKBArray {
    type V = BinaryLayout;

    closed spec fn view(&self) -> BinaryLayout {
        binary_layout(self.offsets, self.values, self.validity)
    }
}

impl Clone for WKBArray {
    /// A second handle on the same buffers.
    fn clone(&self) -> (a: Self)
        ensures
            a@ == self@,
    {
        proof {
            use_type_invariant(self);
        }
        Self {
            offsets: offsets_clone(&self.offsets),
            values: bytes_clone(&self.values),
            validity: match &self.validity {
                Some(bitmap) => Some(bitmap_clone(bitmap)),
                None => None,
            },
        }
    }
}

impl WKBArray {
    #[verifier::type_invariant]
    spec fn inv(self) -> bool {
        self@.wf()
    }

    /// Makes an array of parts that the caller knows to be valid.
    pub fn new(offsets: Offsets, values: Buffer<u8>, validity: Option<Bitmap>) -> (a: Self)
        requires
            binary_layout(offsets, values, validity).wf(),
        ensures
            a@ == binary_layout(offsets, values, validity),
    {
        Self { offsets, values, validity }
    }

    /// Makes an array of the parts if they are valid, in constant time.
    pub fn try_new(offsets: Offsets, values: Buffer<u8>, validity: Option<Bitmap>) -> (r: Result<
        Self,
        GeoArrowError,
    >)
        ensures
            r is Ok <==> binary_layout(offsets, values, validity).wf(),
            r matches Ok(a) ==> a@ == binary_layout(offsets, values, validity),
            r matches Err(e) ==> e == GeoArrowError::InvariantViolation,
    {
        let num_geometries = offsets.len_proxy();
        let num_bytes = bytes_as_slice(&values).len();
        if let Some(bitmap) = &validity {
            if bitmap_len(bitmap) != num_geometries {
                return Err(GeoArrowError::InvariantViolation);
            }
        }
        if !offsets.fits(num_bytes) {
            return Err(GeoArrowError::InvariantViolation);
        }
        Ok(Self { offsets, values, validity })
    }

    /// Returns the number of geometries in this array
    pub fn len(&self) -> (n: usize)
        ensures
            n == self@.len(),
            self@.wf(),
    {
        proof {
            use_type_invariant(self);
        }
        self.offsets.len_proxy()
    }

    /// Returns true if the array is empty
    pub fn is_empty(&self) -> (r: bool)
        ensures
            r == (self@.len() == 0),
    {
        self.len() == 0
    }

    /// Returns the optional validity.
    pub fn validity(&self) -> (r: Option<&Bitmap>)
        ensures
            r matches Some(bitmap) ==> self@.validity == Some(bitmap_bits(*bitmap)),
            r is None ==> self@.validity is None,
    {
        self.validity.as_ref()
    }

    /// Whether geometry `i` is null.
    pub fn is_null(&self, i: usize) -> (r: bool)
        requires
            i < self@.len(),
        ensures
            r == !self@.is_valid(i as int),
    {
        proof {
            use_type_invariant(self);
        }
        match &self.validity {
            None => false,
            Some(bitmap) => !bitmap_get_bit(bitmap, i),
        }
    }

    /// The `length` geometries from `offset` on, sharing all buffers with this
    /// array, or a bounds error when they pass its end.
    pub fn slice(&self, offset: usize, length: usize) -> (r: Result<Self, GeoArrowError>)
        ensures
            r is Ok <==> offset + length <= self@.len(),
            r matches Ok(a) ==> a@ == self@.slice(offset as int, length as int),
            r matches Err(e) ==> e == GeoArrowError::BoundsViolation,
    {
        let len = self.len();
        if length > len || offset > len - length {
            return Err(GeoArrowError::BoundsViolation);
        }
        Ok(self.slice_unchecked(offset, length))
    }

    /// The `length` geometries from `offset` on, sharing all buffers with this
    /// array. The caller sees to it that they lie within the array.
    pub fn slice_unchecked(&self, offset: usize, length: usize) -> (a: Self)
        requires
            offset + length <= self@.len(),
        ensures
            a@ == self@.slice(offset as int, length as int),
    {
        proof {
            use_type_invariant(self);
            lemma_slice_offsets(self@.offsets, offset as int, length as int);
        }
        let validity = slice_validity_unchecked(&self.validity, offset, length);
        let offsets = slice_offsets_unchecked(&self.offsets, offset, length);
        Self { offsets, values: bytes_clone(&self.values), validity }
    }

    /// The geometry at `i` as a view, whether it is null or not.
    pub fn value(&self, i: usize) -> (r: WKB<'_>)
        requires
            i < self@.len(),
        ensures
            r.wf(),
            r@ == self@.bytes(i as int),
    {
        proof {
            use_type_invariant(self);
        }
        WKB { offsets: &self.offsets, values: &self.values, geom_index: i }
    }

    /// The geometry at `i` as a view, or `None` when it is null.
    pub fn get(&self, i: usize) -> (r: Option<WKB<'_>>)
        requires
            i < self@.len(),
        ensures
            r is None <==> !self@.is_valid(i as int),
            r matches Some(g) ==> g.wf() && g@ == self@.bytes(i as int),
    {
        if self.is_null(i) {
            return None;
        }
        Some(self.value(i))
    }

    /// The views of all geometries, with `None` in the place of each null.
    pub fn iter(&self) -> (r: Vec<Option<WKB<'_>>>)
        ensures
            r@.len() == self@.len(),
            forall|i: int| 0 <= i < r@.len() ==> (#[trigger] r@[i] is None <==> !self@.is_valid(i)),
            forall|i: int|
                0 <= i < r@.len() ==> (#[trigger] r@[i] matches Some(g) ==> g.wf() && g@
                    == self@.bytes(i)),
    {
        let n = self.len();
        let mut r: Vec<Option<WKB<'_>>> = Vec::new();
        let mut i: usize = 0;
        while i < n
            invariant
                n == self@.len(),
                i <= n,
                r@.len() == i,
                forall|k: int|
                    0 <= k < r@.len() ==> (#[trigger] r@[k] is None <==> !self@.is_valid(k)),
                forall|k: int|
                    0 <= k < r@.len() ==> (#[trigger] r@[k] matches Some(g) ==> g.wf() && g@
                        == self@.bytes(k)),
            decreases n - i,
        {
            r.push(self.get(i));
            i += 1;
        }
        r
    }

    /// Clone this array to an owned box.
    pub fn to_boxed(&self) -> (r: Box<Self>)
        ensures
            r@ == self@,
    {
        Box::new(self.clone())
    }

    /// The array in its columnar encoding, which shares all buffers with it.
    pub fn into_arrow(self) -> (c: Column)
        ensures
            c@ == self@.column(),
    {
        Column::LargeBinary { offsets: self.offsets, values: self.values, validity: self.validity }
    }

    /// The array that a columnar value encodes. The value must hold byte strings
    /// with 64-bit offsets, and its parts must form a valid array.
    pub fn try_from(value: Column) -> (r: Result<Self, GeoArrowError>)
        ensures
            r is Ok <==> (column_binary(value@) matches Some(a) && a.wf()),
            r matches Ok(a) ==> column_binary(value@) == Some(a@),
            r matches Err(e) ==> e == (if column_binary(value@) is None {
                GeoArrowError::IncompatibleLayout
            } else {
                GeoArrowError::InvariantViolation
            }),
    {
        match value {
            Column::LargeBinary { offsets, values, validity } => Self::try_new(
                offsets,
                values,
                validity,
            ),
            _ => Err(GeoArrowError::IncompatibleLayout),
        }
    }
}

} // verus!
