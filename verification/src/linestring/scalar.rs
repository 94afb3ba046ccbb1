use crate::buffers::{buffer_as_slice, buffer_values, is_offsets, Offsets};
use crate::layout::{line_at, Coord};
use crate::owned::line_to_vec;
use crate::point::Point;
use arrow2::buffer::Buffer;
use vstd::prelude::*;

verus! {

/// One line string of an array: a view into the array's buffers that owns
/// nothing.
#[derive(Clone, Copy, Debug)]
pub struct LineString<'a> {
    /// Buffer of x coordinates
    pub x: &'a Buffer<u64>,
    /// Buffer of y coordinates
    pub y: &'a Buffer<u64>,
    /// Offsets into the coordinate array where each geometry starts
    pub geom_offsets: &'a Offsets,
    /// The position of the geometry in the offsets
    pub geom_index: usize,
}

impl<'a> View for LineString<'a> {
    type V = Seq<Coord>;

    open spec fn view(&self) -> Seq<Coord> {
        line_at(
            buffer_values(*self.x),
            buffer_values(*self.y),
            self.geom_offsets@,
            self.geom_index as int,
        )
    }
}

impl<'a> LineString<'a> {
    /// Whether the view points at a geometry whose coordinates the buffers hold.
    pub open spec fn wf(&self) -> bool {
        &&& buffer_values(*self.x).len() == buffer_values(*self.y).len()
        &&& buffer_values(*self.x).len() <= usize::MAX
        &&& is_offsets(self.geom_offsets@)
        &&& self.geom_offsets@.last() <= buffer_values(*self.x).len()
        &&& self.geom_index + 1 < self.geom_offsets@.len()
    }

    /// The number of points in this line string.
    pub fn num_points(&self) -> (n: usize)
        requires
            self.wf(),
        ensures
            n == self@.len(),
    {
        let (start, end) = self.geom_offsets.start_end(self.geom_index);
        end - start
    }

    /// The point at `i`, or `None` when the line string has no such point.
    pub fn point(&self, i: usize) -> (r: Option<Point<'a>>)
        requires
            self.wf(),
        ensures
            r is Some <==> i < self@.len(),
            r matches Some(p) ==> p.wf() && p@ == self@[i as int],
    {
        let (start, end) = self.geom_offsets.start_end(self.geom_index);
        if i >= end - start {
            return None;
        }
        Some(Point { x: self.x, y: self.y, geom_index: start + i })
    }

    /// The points of this line string, first to last.
    pub fn points(&self) -> (r: Vec<Point<'a>>)
        requires
            self.wf(),
        ensures
            r@.len() == self@.len(),
            forall|i: int| 0 <= i < r@.len() ==> (#[trigger] r@[i]).wf() && r@[i]@ == self@[i],
    {
        let (start, end) = self.geom_offsets.start_end(self.geom_index);
        let mut r: Vec<Point<'a>> = Vec::new();
        let mut c: usize = start;
        while c < end
            invariant
                self.wf(),
                start == self.geom_offsets@[self.geom_index as int],
                end == self.geom_offsets@[self.geom_index + 1],
                start <= c <= end <= buffer_values(*self.x).len(),
                r@.len() == c - start,
                forall|i: int| 0 <= i < r@.len() ==> (#[trigger] r@[i]).wf() && r@[i]@ == self@[i],
            decreases end - c,
        {
            r.push(Point { x: self.x, y: self.y, geom_index: c });
            c += 1;
        }
        r
    }

    /// The line string as an owned value: the coordinates of its points.
    pub fn to_geo(&self) -> (r: Vec<Coord>)
        requires
            self.wf(),
        ensures
            r@ == self@,
    {
        line_to_vec(
            buffer_as_slice(self.x),
            buffer_as_slice(self.y),
            self.geom_offsets,
            self.geom_index,
        )
    }
}

} // verus!
