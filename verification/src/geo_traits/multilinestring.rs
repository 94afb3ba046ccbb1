use crate::geo_traits::linestring::{copy_line, LineStringTrait};
use crate::layout::Coord;
use crate::linestring::LineString;
use crate::multilinestring::MultiLineString;
use vstd::prelude::*;

verus! {

pub trait MultiLineStringTrait {
    type ItemType: LineStringTrait;

    /// Whether the multi line string can be read.
    spec fn valid(&self) -> bool;

    /// The coordinates of each line string.
    spec fn model(&self) -> Seq<Seq<Coord>>;

    /// The LineStrings in this MultiLineString, first to last
    fn lines(&self) -> (r: Vec<Self::ItemType>)
        requires
            self.valid(),
        ensures
            r@.len() == self.model().len(),
            forall|i: int|
                0 <= i < r@.len() ==> (#[trigger] r@[i]).valid() && r@[i].model() == self.model()[i],
    ;

    /// The number of lines in this MultiLineString
    fn num_lines(&self) -> (n: usize)
        requires
            self.valid(),
        ensures
            n == self.model().len(),
    ;

    /// Access to a specified line in this MultiLineString
    /// Will return None if the provided index is out of bounds
    fn line(&self, i: usize) -> (r: Option<Self::ItemType>)
        requires
            self.valid(),
        ensures
            r is Some <==> i < self.model().len(),
            r matches Some(l) ==> l.valid() && l.model() == self.model()[i as int],
    ;
}

impl MultiLineStringTrait for Vec<Vec<Coord>> {
    type ItemType = Vec<Coord>;

    open spec fn valid(&self) -> bool {
        true
    }

    open spec fn model(&self) -> Seq<Seq<Coord>> {
        Seq::new(self@.len(), |i: int| self@[i]@)
    }

    fn lines(&self) -> (r: Vec<Vec<Coord>>) {
        let mut r: Vec<Vec<Coord>> = Vec::new();
        let mut i: usize = 0;
        while i < self.len()
            invariant
                i <= self@.len(),
                r@.len() == i,
                forall|k: int| 0 <= k < r@.len() ==> (#[trigger] r@[k])@ == self@[k]@,
            decreases self@.len() - i,
        {
            r.push(copy_line(&self[i]));
            i += 1;
        }
        r
    }

    fn num_lines(&self) -> (n: usize) {
        self.len()
    }

    fn line(&self, i: usize) -> (r: Option<Vec<Coord>>) {
        if i < self.len() {
            Some(copy_line(&self[i]))
        } else {
            None
        }
    }
}

impl<'a> MultiLineStringTrait for MultiLineString<'a> {
    type ItemType = LineString<'a>;

    open spec fn valid(&self) -> bool {
        self.wf()
    }

    open spec fn model(&self) -> Seq<Seq<Coord>> {
        self@
    }

    fn lines(&self) -> (r: Vec<LineString<'a>>) {
        MultiLineString::lines(self)
    }

    fn num_lines(&self) -> (n: usize) {
        MultiLineString::num_lines(self)
    }

    fn line(&self, i: usize) -> (r: Option<LineString<'a>>) {
        MultiLineString::line(self, i)
    }
}

} // verus!
