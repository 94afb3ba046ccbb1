use crate::geo_traits::point::PointTrait;
use crate::layout::Coord;
use crate::linestring::LineString;
use crate::point::Point;
use vstd::prelude::*;

verus! {

pub trait LineStringTrait {
    type ItemType: PointTrait;

    /// Whether the line string can be read.
    spec fn valid(&self) -> bool;

    /// The coordinates of the line string.
    spec fn model(&self) -> Seq<Coord>;

    /// The points of this LineString, first to last
    fn points(&self) -> (r: Vec<Self::ItemType>)
        requires
            self.valid(),
        ensures
            r@.len() == self.model().len(),
            forall|i: int|
                0 <= i < r@.len() ==> (#[trigger] r@[i]).valid() && r@[i].model() == self.model()[i],
    ;

    /// The number of points in this LineString
    fn num_points(&self) -> (n: usize)
        requires
            self.valid(),
        ensures
            n == self.model().len(),
    ;

    /// Access to a specified point in this LineString
    /// Will return None if the provided index is out of bounds
    fn point(&self, i: usize) -> (r: Option<Self::ItemType>)
        requires
            self.valid(),
        ensures
            r is Some <==> i < self.model().len(),
            r matches Some(p) ==> p.valid() && p.model() == self.model()[i as int],
    ;
}

/// A copy of the coordinates of a line.
pub fn copy_line(line: &Vec<Coord>) -> (r: Vec<Coord>)
    ensures
        r@ == line@,
{
    let mut r: Vec<Coord> = Vec::new();
    let mut i: usize = 0;
    while i < line.len()
        invariant
            i <= line@.len(),
            r@ == line@.subrange(0, i as int),
        decreases line@.len() - i,
    {
        r.push(line[i]);
        i += 1;
        assert(r@ =~= line@.subrange(0, i as int));
    }
    assert(r@ =~= line@);
    r
}

impl LineStringTrait for Vec<Coord> {
    type ItemType = Coord;

    open spec fn valid(&self) -> bool {
        true
    }

    open spec fn model(&self) -> Seq<Coord> {
        self@
    }

    fn points(&self) -> (r: Vec<Coord>) {
        copy_line(self)
    }

    fn num_points(&self) -> (n: usize) {
        self.len()
    }

    fn point(&self, i: usize) -> (r: Option<Coord>) {
        if i < self.len() {
            Some(self[i])
        } else {
            None
        }
    }
}

impl<'a> LineStringTrait for LineString<'a> {
    type ItemType = Point<'a>;

    open spec fn valid(&self) -> bool {
        self.wf()
    }

    open spec fn model(&self) -> Seq<Coord> {
        self@
    }

    fn points(&self) -> (r: Vec<Point<'a>>) {
        LineString::points(self)
    }

    fn num_points(&self) -> (n: usize) {
        LineString::num_points(self)
    }

    fn point(&self, i: usize) -> (r: Option<Point<'a>>) {
        LineString::point(self, i)
    }
}

} // verus!
