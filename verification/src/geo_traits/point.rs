use crate::layout::Coord;
use crate::point::Point;
use vstd::prelude::*;

verus! {

pub trait PointTrait {
    /// Whether the point can be read.
    spec fn valid(&self) -> bool;

    /// The coordinate of the point.
    spec fn model(&self) -> Coord;

    /// The first half of the coordinate.
    fn x(&self) -> (r: u64)
        requires
            self.valid(),
        ensures
            r == self.model().x,
    ;

    /// The second half of the coordinate.
    fn y(&self) -> (r: u64)
        requires
            self.valid(),
        ensures
            r == self.model().y,
    ;
}

impl PointTrait for Coord {
    open spec fn valid(&self) -> bool {
        true
    }

    open spec fn model(&self) -> Coord {
        *self
    }

    fn x(&self) -> (r: u64) {
        self.x
    }

    fn y(&self) -> (r: u64) {
        self.y
    }
}

impl<'a> PointTrait for Point<'a> {
    open spec fn valid(&self) -> bool {
        self.wf()
    }

    open spec fn model(&self) -> Coord {
        self@
    }

    fn x(&self) -> (r: u64) {
        Point::x(self)
    }

    fn y(&self) -> (r: u64) {
        Point::y(self)
    }
}

} // verus!
