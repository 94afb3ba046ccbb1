use crate::buffers::{buffer_as_slice, buffer_values};
use crate::layout::Coord;
use arrow2::buffer::Buffer;
use vstd::prelude::*;

verus! {

/// One point of an array: a view into the array's buffers that owns nothing.
#[derive(Clone, Copy, Debug)]
pub struct Point<'a> {
    /// Buffer of x coordinates
    pub x: &'a Buffer<u64>,
    /// Buffer of y coordinates
    pub y: &'a Buffer<u64>,
    /// The position of the point in the buffers
    pub geom_index: usize,
}

impl<'a> View for Point<'a> {
    type V = Coord;

    open spec fn view(&self) -> Coord {
        Coord {
            x: buffer_values(*self.x)[self.geom_index as int],
            y: buffer_values(*self.y)[self.geom_index as int],
        }
    }
}

impl<'a> Point<'a> {
    /// Whether the view points at a coordinate that both buffers hold.
    pub open spec fn wf(&self) -> bool {
        &&& buffer_values(*self.x).len() == buffer_values(*self.y).len()
        &&& self.geom_index < buffer_values(*self.x).len()
    }

    /// The first half of the coordinate.
    pub fn x(&self) -> (r: u64)
        requires
            self.wf(),
        ensures
            r == self@.x,
    {
        buffer_as_slice(self.x)[self.geom_index]
    }

    /// The second half of the coordinate.
    pub fn y(&self) -> (r: u64)
        requires
            self.wf(),
        ensures
            r == self@.y,
    {
        buffer_as_slice(self.y)[self.geom_index]
    }

    /// The point as an owned value.
    pub fn to_geo(&self) -> (r: Coord)
        requires
            self.wf(),
        ensures
            r == self@,
    {
        Coord { x: self.x(), y: self.y() }
    }
}

} // verus!
