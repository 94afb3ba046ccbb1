use crate::buffers::{buffer_as_slice, buffer_values, is_offsets, Offsets};
use crate::layout::{lines_at, Coord};
use crate::linestring::LineString;
use crate::owned::lines_to_vec;
use arrow2::buffer::Buffer;
use vstd::prelude::*;

verus! {

/// One multi line string of an array: a view into the array's buffers that owns nothing.
#[derive(Clone, Copy, Debug)]
pub struct MultiLineString<'a> {
    /// Buffer of x coordinates
    pub x: &'a Buffer<u64>,
    /// Buffer of y coordinates
    pub y: &'a Buffer<u64>,
    /// Offsets into the line string array where each geometry starts
    pub geom_offsets: &'a Offsets,
    /// Offsets into the coordinate array where each line string starts
    pub ring_offsets: &'a Offsets,
    /// The position of the geometry in the offsets
    pub geom_index: usize,
}

impl<'a> View for MultiLineString<'a> {
    type V = Seq<Seq<Coord>>;

    open spec fn view(&self) -> Seq<Seq<Coord>> {
        lines_at(
            buffer_values(*self.x),
            buffer_values(*self.y),
            self.geom_offsets@,
            self.ring_offsets@,
            self.geom_index as int,
        )
    }
}

impl<'a> MultiLineString<'a> {
    /// Whether the view points at a geometry whose line strings and coordinates the
    /// buffers hold.
    pub open spec fn wf(&self) -> bool {
        &&& buffer_values(*self.x).len() == buffer_values(*self.y).len()
        &&& buffer_values(*self.x).len() <= usize::MAX
        &&& is_offsets(self.geom_offsets@)
        &&& is_offsets(self.ring_offsets@)
        &&& self.geom_offsets@.last() < self.ring_offsets@.len() <= usize::MAX
        &&& self.ring_offsets@.last() <= buffer_values(*self.x).len()
        &&& self.geom_index + 1 < self.geom_offsets@.len()
    }

    /// The number of line strings in this multi line string.
    pub fn num_lines(&self) -> (n: usize)
        requires
            self.wf(),
        ensures
            n == self@.len(),
    {
        let (start, end) = self.geom_offsets.start_end(self.geom_index);
        end - start
    }

    /// The line string at `i`, or `None` when the multi line string has no such line string.
    pub fn line(&self, i: usize) -> (r: Option<LineString<'a>>)
        requires
            self.wf(),
        ensures
            r is Some <==> i < self@.len(),
            r matches Some(p) ==> p.wf() && p@ == self@[i as int],
    {
        let (start, end) = self.geom_offsets.start_end(self.geom_index);
        if i >= end - start {
            return None;
        }
        Some(LineString { x: self.x, y: self.y, geom_offsets: self.ring_offsets, geom_index: start + i })
    }

    /// The line strings of this multi line string, first to last.
    pub fn lines(&self) -> (r: Vec<LineString<'a>>)
        requires
            self.wf(),
        ensures
            r@.len() == self@.len(),
            forall|i: int| 0 <= i < r@.len() ==> (#[trigger] r@[i]).wf() && r@[i]@ == self@[i],
    {
        let (start, end) = self.geom_offsets.start_end(self.geom_index);
        let mut r: Vec<LineString<'a>> = Vec::new();
        let mut c: usize = start;
        while c < end
            invariant
                self.wf(),
                start == self.geom_offsets@[self.geom_index as int],
                end == self.geom_offsets@[self.geom_index + 1],
                start <= c <= end < self.ring_offsets@.len(),
                r@.len() == c - start,
                forall|i: int| 0 <= i < r@.len() ==> (#[trigger] r@[i]).wf() && r@[i]@ == self@[i],
            decreases end - c,
        {
            r.push(LineString { x: self.x, y: self.y, geom_offsets: self.ring_offsets, geom_index: c });
            c += 1;
        }
        r
    }

    /// The multi line string as an owned value: the coordinates of each of its line strings.
    pub fn to_geo(&self) -> (r: Vec<Vec<Coord>>)
        requires
            self.wf(),
        ensures
            r.deep_view() == self@,
    {
        let (start, end) = self.geom_offsets.start_end(self.geom_index);
        lines_to_vec(
            buffer_as_slice(self.x),
            buffer_as_slice(self.y),
            self.ring_offsets,
            start,
            end,
        )
    }
}

} // verus!
