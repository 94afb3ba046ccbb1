use crate::binary::array::{BinaryLayout, WKBArray};
use crate::buffers::{bytes_from_vec, is_offsets};
use crate::layout::all_set;
use crate::mutable::{mask_from_bits, offsets_from_vec, running_total};
use vstd::prelude::*;

verus! {

impl BinaryLayout {
    /// What a new builder holds: no byte, the single offset zero, an empty mask.
    pub open spec fn empty() -> BinaryLayout {
        BinaryLayout { offsets: seq![0i64], values: Seq::empty(), validity: Some(Seq::empty()) }
    }

    /// The layout after one more encoded geometry, or after a null: a null adds
    /// no byte and repeats the last offset.
    pub open spec fn push(self, value: Option<Seq<u8>>) -> BinaryLayout {
        let values = match value {
            Some(bytes) => self.values + bytes,
            None => self.values,
        };
        BinaryLayout {
            offsets: self.offsets.push(running_total(values.len() as int)),
            values,
            validity: Some(
                match self.validity {
                    Some(bits) => bits.push(value is Some),
                    None => seq![value is Some],
                },
            ),
        }
    }

    /// What an array holds that is made of a grown layout: the mask is kept only
    /// if it has an unset bit.
    pub open spec fn finished(self) -> BinaryLayout {
        BinaryLayout {
            validity: match self.validity {
                Some(bits) => if all_set(bits) {
                    None
                } else {
                    Some(bits)
                },
                None => None,
            },
            ..self
        }
    }
}

/// The builder of an array of encoded geometries: it takes the bytes of one
/// geometry or one null at a time, and is made into an array when all are in.
pub struct MutableWKBArray {
    offsets: Vec<i64>,
    values: Vec<u8>,
    validity: Vec<bool>,
}

impl View for MutableWKBArray {
    type V = BinaryLayout;

    closed spec fn view(&self) -> BinaryLayout {
        BinaryLayout { offsets: self.offsets@, values: self.values@, validity: Some(self.validity@) }
    }
}

impl MutableWKBArray {
    /// Whether the builder holds offsets that stay within the bytes, and one bit
    /// per geometry.
    pub closed spec fn wf(&self) -> bool {
        &&& is_offsets(self.offsets@)
        &&& self.offsets@.last() <= self.values@.len()
        &&& self.validity@.len() == self.offsets@.len() - 1
    }

    /// Creates a new empty builder.
    pub fn new() -> (r: Self)
        ensures
            r.wf(),
            r@ == BinaryLayout::empty(),
    {
        let mut offsets: Vec<i64> = Vec::new();
        offsets.push(0);
        Self { offsets, values: Vec::new(), validity: Vec::new() }
    }

    /// Adds the bytes of an encoded geometry, or a null where `value` is `None`.
    pub fn push_geometry(&mut self, value: Option<&Vec<u8>>)
        requires
            old(self).wf(),
        ensures
            final(self).wf(),
            final(self)@ == old(self)@.push(
                match value {
                    Some(bytes) => Some(bytes@),
                    None => None,
                },
            ),
    {
        let ghost before = self.offsets@;
        if let Some(bytes) = value {
            let mut i: usize = 0;
            while i < bytes.len()
                invariant
                    i <= bytes@.len(),
                    self.offsets@ == before,
                    self.validity@ == old(self).validity@,
                    self.values@ == old(self).values@ + bytes@.subrange(0, i as int),
                decreases bytes@.len() - i,
            {
                self.values.push(bytes[i]);
                i += 1;
                assert(self.values@ =~= old(self).values@ + bytes@.subrange(0, i as int));
            }
            assert(bytes@.subrange(0, i as int) =~= bytes@);
        } else {
            assert(self.values@ =~= old(self).values@);
        }
        let total = self.values.len();
        let offset: i64 = if total as u64 > i64::MAX as u64 {
            i64::MAX
        } else {
            total as i64
        };
        self.offsets.push(offset);
        self.validity.push(value.is_some());
        proof {
            let new = self.offsets@;
            assert forall|p: int, q: int| 0 <= p <= q < new.len() implies new[p] <= new[q] by {
                if q < before.len() {
                    assert(new[p] == before[p] && new[q] == before[q]);
                } else if p < before.len() {
                    assert(new[p] == before[p]);
                    assert(before[p] <= before.last());
                }
            }
            assert(new[0] == before[0]);
        }
    }

    /// Adds a null.
    pub fn push_null(&mut self)
        requires
            old(self).wf(),
        ensures
            final(self).wf(),
            final(self)@ == old(self)@.push(None),
    {
        self.push_geometry(None);
    }

    /// Makes the array of all that was pushed. The mask is kept only if a null
    /// was pushed.
    pub fn finish(self) -> (a: WKBArray)
        requires
            self.wf(),
        ensures
            a@ == self@.finished(),
    {
        proof {
            assert(self.offsets.len() == self.offsets@.len());
            assert(self.values.len() == self.values@.len());
        }
        let offsets = offsets_from_vec(self.offsets);
        let values = bytes_from_vec(self.values);
        let validity = mask_from_bits(self.validity);
        WKBArray::new(offsets, values, validity)
    }
}

} // verus!
