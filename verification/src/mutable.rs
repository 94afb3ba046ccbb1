//! Growing the parts of an array, one coordinate and one offset at a time.
//!
//! A builder of any kind appends coordinates to the pools and closes a level
//! whenever an item of that level is complete: it appends to the level the
//! number of items that the level below holds by then. Offsets are therefore
//! running totals, never lengths.

use crate::buffers::{bitmap_from_bools, is_offsets, Offsets};
use crate::layout::{all_set, Coord, Layout};
use crate::slice::validity_bits;
use arrow2::bitmap::Bitmap;
use vstd::prelude::*;

verus! {

/// A count of items as an offset: the count itself, or the largest offset there
/// is where the count does not fit.
pub open spec fn running_total(count: int) -> i64 {
    if count <= i64::MAX {
        count as i64
    } else {
        i64::MAX
    }
}

impl Layout {
    /// What a new builder with `depth` levels holds: no coordinate, the single
    /// offset zero in each level, and an empty mask.
    pub open spec fn empty(depth: int) -> Layout {
        Layout {
            x: Seq::empty(),
            y: Seq::empty(),
            levels: Seq::new(depth as nat, |k: int| seq![0i64]),
            validity: Some(Seq::empty()),
        }
    }

    /// The layout after one more coordinate.
    pub open spec fn push_coord(self, c: Coord) -> Layout {
        Layout { x: self.x.push(c.x), y: self.y.push(c.y), ..self }
    }

    /// The layout after an item of level `k` is complete.
    pub open spec fn close(self, k: int) -> Layout {
        Layout {
            levels: self.levels.update(k, self.levels[k].push(running_total(self.child_len(k)))),
            ..self
        }
    }

    /// The layout after one more bit of the mask.
    pub open spec fn mark(self, valid: bool) -> Layout {
        Layout {
            validity: Some(
                match self.validity {
                    Some(bits) => bits.push(valid),
                    None => seq![valid],
                },
            ),
            ..self
        }
    }

    /// The layout after the coordinates of `line`, in order.
    pub open spec fn push_coords(self, line: Seq<Coord>) -> Layout
        decreases line.len(),
    {
        if line.len() == 0 {
            self
        } else {
            self.push_coords(line.drop_last()).push_coord(line.last())
        }
    }

    /// The layout after `line` as one item of the innermost level `k`.
    pub open spec fn push_line(self, k: int, line: Seq<Coord>) -> Layout {
        self.push_coords(line).close(k)
    }

    /// The layout after each of `lines` as an item of the innermost level `k`.
    pub open spec fn push_lines(self, k: int, lines: Seq<Seq<Coord>>) -> Layout
        decreases lines.len(),
    {
        if lines.len() == 0 {
            self
        } else {
            self.push_lines(k, lines.drop_last()).push_line(k, lines.last())
        }
    }

    /// The layout after a polygon of these rings as one item of level `k`.
    pub open spec fn push_polygon(self, k: int, rings: Seq<Seq<Coord>>) -> Layout {
        self.push_lines(k + 1, rings).close(k)
    }

    /// The layout after each of `polygons` as an item of level `k`.
    pub open spec fn push_polygons(self, k: int, polygons: Seq<Seq<Seq<Coord>>>) -> Layout
        decreases polygons.len(),
    {
        if polygons.len() == 0 {
            self
        } else {
            self.push_polygons(k, polygons.drop_last()).push_polygon(k, polygons.last())
        }
    }

    /// The layout after one more point, or after a null in its place. A null
    /// takes a coordinate of zero bits, so that the pools stay aligned with the
    /// mask.
    pub open spec fn push_point(self, value: Option<Coord>) -> Layout {
        match value {
            Some(c) => self.push_coord(c).mark(true),
            None => self.push_coord(Coord { x: 0, y: 0 }).mark(false),
        }
    }

    /// The layout with one level after one more geometry, or after a null: a
    /// null adds no coordinate and repeats the last offset.
    pub open spec fn push_line_geometry(self, value: Option<Seq<Coord>>) -> Layout {
        match value {
            Some(line) => self.push_line(0, line).mark(true),
            None => self.close(0).mark(false),
        }
    }

    /// The layout with two levels after one more geometry, or after a null.
    pub open spec fn push_lines_geometry(self, value: Option<Seq<Seq<Coord>>>) -> Layout {
        match value {
            Some(lines) => self.push_polygon(0, lines).mark(true),
            None => self.close(0).mark(false),
        }
    }

    /// The layout with three levels after one more geometry, or after a null.
    pub open spec fn push_polygons_geometry(self, value: Option<Seq<Seq<Seq<Coord>>>>) -> Layout {
        match value {
            Some(polygons) => self.push_polygons(1, polygons).close(0).mark(true),
            None => self.close(0).mark(false),
        }
    }

    /// The layout of a sequence of points, as a builder grows it.
    pub open spec fn encode_points(values: Seq<Option<Coord>>) -> Layout
        decreases values.len(),
    {
        if values.len() == 0 {
            Layout::empty(0)
        } else {
            Layout::encode_points(values.drop_last()).push_point(values.last())
        }
    }

    /// The layout of a sequence of geometries with one level, as a builder grows
    /// it.
    pub open spec fn encode_lines(values: Seq<Option<Seq<Coord>>>) -> Layout
        decreases values.len(),
    {
        if values.len() == 0 {
            Layout::empty(1)
        } else {
            Layout::encode_lines(values.drop_last()).push_line_geometry(values.last())
        }
    }

    /// The layout of a sequence of geometries with two levels, as a builder
    /// grows it.
    pub open spec fn encode_nested_lines(values: Seq<Option<Seq<Seq<Coord>>>>) -> Layout
        decreases values.len(),
    {
        if values.len() == 0 {
            Layout::empty(2)
        } else {
            Layout::encode_nested_lines(values.drop_last()).push_lines_geometry(values.last())
        }
    }

    /// The layout of a sequence of geometries with three levels, as a builder
    /// grows it.
    pub open spec fn encode_polygons(values: Seq<Option<Seq<Seq<Seq<Coord>>>>>) -> Layout
        decreases values.len(),
    {
        if values.len() == 0 {
            Layout::empty(3)
        } else {
            Layout::encode_polygons(values.drop_last()).push_polygons_geometry(values.last())
        }
    }

    /// Whether the layout can grow: the pools have one length, and each level
    /// holds offsets that stay within the level below. The mask is left out: it
    /// gets its bit when a geometry is complete.
    pub open spec fn growing(self) -> bool {
        &&& self.x.len() == self.y.len()
        &&& self.validity is Some
        &&& forall|k: int|
            0 <= k < self.levels.len() ==> is_offsets(#[trigger] self.levels[k])
                && self.levels[k].last() <= self.child_len(k)
    }

    /// What an array holds that is made of a grown layout: the mask is kept only
    /// if it has an unset bit.
    pub open spec fn finished(self) -> Layout {
        Layout {
            validity: match self.validity {
                Some(bits) => if all_set(bits) {
                    None
                } else {
                    Some(bits)
                },
                None => None,
            },
            ..self
        }
    }
}

/// Coordinates leave the levels and the mask as they are.
pub proof fn lemma_push_coords_levels(a: Layout, line: Seq<Coord>)
    ensures
        a.push_coords(line).levels == a.levels,
        a.push_coords(line).validity == a.validity,
        a.push_coords(line).x.len() == a.x.len() + line.len(),
        a.push_coords(line).y.len() == a.y.len() + line.len(),
    decreases line.len(),
{
    if line.len() > 0 {
        lemma_push_coords_levels(a, line.drop_last());
    }
}

/// Lines pushed at level `k` leave the other levels and the mask as they are.
pub proof fn lemma_push_lines_levels(a: Layout, k: int, lines: Seq<Seq<Coord>>)
    requires
        0 <= k < a.levels.len(),
    ensures
        a.push_lines(k, lines).levels.len() == a.levels.len(),
        a.push_lines(k, lines).validity == a.validity,
        a.push_lines(k, lines).levels[k].len() == a.levels[k].len() + lines.len(),
        a.push_lines(k, lines).x.len() >= a.x.len(),
        forall|j: int|
            0 <= j < a.levels.len() && j != k ==> #[trigger] a.push_lines(k, lines).levels[j]
                == a.levels[j],
    decreases lines.len(),
{
    if lines.len() > 0 {
        let b = a.push_lines(k, lines.drop_last());
        lemma_push_lines_levels(a, k, lines.drop_last());
        lemma_push_coords_levels(b, lines.last());
    }
}

/// Polygons pushed at level `k` leave the levels above and the mask as they
/// are.
pub proof fn lemma_push_polygons_levels(a: Layout, k: int, polygons: Seq<Seq<Seq<Coord>>>)
    requires
        0 <= k,
        k + 1 < a.levels.len(),
    ensures
        a.push_polygons(k, polygons).levels.len() == a.levels.len(),
        a.push_polygons(k, polygons).validity == a.validity,
        a.push_polygons(k, polygons).levels[k].len() == a.levels[k].len() + polygons.len(),
        a.push_polygons(k, polygons).levels[k + 1].len() >= a.levels[k + 1].len(),
        a.push_polygons(k, polygons).x.len() >= a.x.len(),
        forall|j: int|
            0 <= j < k ==> #[trigger] a.push_polygons(k, polygons).levels[j] == a.levels[j],
    decreases polygons.len(),
{
    if polygons.len() > 0 {
        let b = a.push_polygons(k, polygons.drop_last());
        lemma_push_polygons_levels(a, k, polygons.drop_last());
        lemma_push_lines_levels(b, k + 1, polygons.last());
    }
}

/// The offsets of a level that a builder has grown.
pub fn offsets_from_vec(offsets: Vec<i64>) -> (r: Offsets)
    requires
        is_offsets(offsets@),
    ensures
        r@ == offsets@,
{
    match Offsets::try_new(offsets) {
        Ok(r) => r,
        Err(_) => vstd::pervasive::unreached(),
    }
}

/// The mask of an array made of `bits`: none where every bit is set.
pub fn mask_from_bits(bits: Vec<bool>) -> (r: Option<Bitmap>)
    ensures
        validity_bits(r) == if all_set(bits@) {
            None
        } else {
            Some(bits@)
        },
{
    let mut i: usize = 0;
    while i < bits.len()
        invariant
            i <= bits@.len(),
            forall|k: int| 0 <= k < i ==> bits@[k],
        decreases bits@.len() - i,
    {
        if !bits[i] {
            return Some(bitmap_from_bools(bits));
        }
        i += 1;
    }
    None
}

/// The growable parts that the builders of all kinds share. Of the three levels
/// the first `depth` are in use.
pub struct MutableLayout {
    depth: usize,
    x: Vec<u64>,
    y: Vec<u64>,
    level0: Vec<i64>,
    level1: Vec<i64>,
    level2: Vec<i64>,
    validity: Vec<bool>,
}

impl View for MutableLayout {
    type V = Layout;

    closed spec fn view(&self) -> Layout {
        Layout {
            x: self.x@,
            y: self.y@,
            levels: seq![self.level0@, self.level1@, self.level2@].subrange(0, self.depth as int),
            validity: Some(self.validity@),
        }
    }
}

impl MutableLayout {
    /// Whether the parts can grow.
    pub closed spec fn wf(&self) -> bool {
        self.depth <= 3 && self@.growing()
    }

    /// Parts with `depth` levels that hold nothing yet.
    pub fn new(depth: usize) -> (r: Self)
        requires
            depth <= 3,
        ensures
            r.wf(),
            r@ == Layout::empty(depth as int),
    {
        let mut level0: Vec<i64> = Vec::new();
        level0.push(0);
        let mut level1: Vec<i64> = Vec::new();
        level1.push(0);
        let mut level2: Vec<i64> = Vec::new();
        level2.push(0);
        let r = Self {
            depth,
            x: Vec::new(),
            y: Vec::new(),
            level0,
            level1,
            level2,
            validity: Vec::new(),
        };
        assert(r@.levels =~= Layout::empty(depth as int).levels);
        r
    }

    /// Appends one coordinate to the pools.
    pub fn push_coord(&mut self, c: Coord)
        requires
            old(self).wf(),
        ensures
            final(self).wf(),
            final(self)@ == old(self)@.push_coord(c),
            final(self)@.levels.len() == old(self)@.levels.len(),
    {
        self.x.push(c.x);
        self.y.push(c.y);
        assert(self@.levels =~= old(self)@.levels);
    }

    /// Appends the coordinates of `line` to the pools.
    pub fn push_coords(&mut self, line: &Vec<Coord>)
        requires
            old(self).wf(),
        ensures
            final(self).wf(),
            final(self)@ == old(self)@.push_coords(line@),
            final(self)@.levels.len() == old(self)@.levels.len(),
    {
        let mut i: usize = 0;
        while i < line.len()
            invariant
                i <= line@.len(),
                self.wf(),
                self@.levels.len() == old(self)@.levels.len(),
                self@ == old(self)@.push_coords(line@.subrange(0, i as int)),
            decreases line@.len() - i,
        {
            self.push_coord(line[i]);
            i += 1;
            assert(line@.subrange(0, i as int).drop_last() =~= line@.subrange(0, i - 1));
        }
        assert(line@.subrange(0, i as int) =~= line@);
    }

    /// Appends `line` as one item of the innermost level `k`.
    pub fn push_line(&mut self, k: usize, line: &Vec<Coord>)
        requires
            old(self).wf(),
            k < old(self)@.levels.len(),
        ensures
            final(self).wf(),
            final(self)@ == old(self)@.push_line(k as int, line@),
            final(self)@.levels.len() == old(self)@.levels.len(),
    {
        self.push_coords(line);
        self.close(k);
    }

    /// Appends each of `lines` as an item of the innermost level `k`.
    pub fn push_lines(&mut self, k: usize, lines: &Vec<Vec<Coord>>)
        requires
            old(self).wf(),
            k < old(self)@.levels.len(),
        ensures
            final(self).wf(),
            final(self)@ == old(self)@.push_lines(k as int, lines.deep_view()),
            final(self)@.levels.len() == old(self)@.levels.len(),
    {
        let ghost all = lines.deep_view();
        let mut i: usize = 0;
        while i < lines.len()
            invariant
                i <= lines@.len(),
                all == lines.deep_view(),
                self.wf(),
                self@.levels.len() == old(self)@.levels.len(),
                k < self@.levels.len(),
                self@ == old(self)@.push_lines(k as int, all.subrange(0, i as int)),
            decreases lines@.len() - i,
        {
            self.push_line(k, &lines[i]);
            i += 1;
            proof {
                assert(all.subrange(0, i as int).drop_last() =~= all.subrange(0, i - 1));
                assert(all.subrange(0, i as int).last() =~= lines@[i - 1]@);
            }
        }
        assert(all.subrange(0, i as int) =~= all);
    }

    /// Appends a polygon of these rings as one item of level `k`.
    pub fn push_polygon(&mut self, k: usize, rings: &Vec<Vec<Coord>>)
        requires
            old(self).wf(),
            k + 1 < old(self)@.levels.len(),
        ensures
            final(self).wf(),
            final(self)@ == old(self)@.push_polygon(k as int, rings.deep_view()),
            final(self)@.levels.len() == old(self)@.levels.len(),
    {
        self.push_lines(k + 1, rings);
        self.close(k);
    }

    /// Appends each of `polygons` as an item of level `k`.
    pub fn push_polygons(&mut self, k: usize, polygons: &Vec<Vec<Vec<Coord>>>)
        requires
            old(self).wf(),
            k + 1 < old(self)@.levels.len(),
        ensures
            final(self).wf(),
            final(self)@ == old(self)@.push_polygons(k as int, polygons.deep_view()),
            final(self)@.levels.len() == old(self)@.levels.len(),
    {
        let ghost all = polygons.deep_view();
        let mut i: usize = 0;
        while i < polygons.len()
            invariant
                i <= polygons@.len(),
                all == polygons.deep_view(),
                self.wf(),
                self@.levels.len() == old(self)@.levels.len(),
                k + 1 < self@.levels.len(),
                self@ == old(self)@.push_polygons(k as int, all.subrange(0, i as int)),
            decreases polygons@.len() - i,
        {
            self.push_polygon(k, &polygons[i]);
            i += 1;
            proof {
                assert(all.subrange(0, i as int).drop_last() =~= all.subrange(0, i - 1));
            }
        }
        assert(all.subrange(0, i as int) =~= all);
    }

    /// Closes level `k`: appends the number of items that the level below holds.
    pub fn close(&mut self, k: usize)
        requires
            old(self).wf(),
            k < old(self)@.levels.len(),
        ensures
            final(self).wf(),
            final(self)@ == old(self)@.close(k as int),
            final(self)@.levels.len() == old(self)@.levels.len(),
    {
        let ghost a = self@;
        let total: usize = if k + 1 < self.depth {
            if k == 0 {
                self.level1.len() - 1
            } else {
                self.level2.len() - 1
            }
        } else {
            self.x.len()
        };
        let offset: i64 = if total as u64 > i64::MAX as u64 {
            i64::MAX
        } else {
            total as i64
        };
        if k == 0 {
            self.level0.push(offset);
        } else if k == 1 {
            self.level1.push(offset);
        } else {
            self.level2.push(offset);
        }
        proof {
            let b = self@;
            assert(b.levels =~= a.close(k as int).levels);
        }
    }

    /// Appends one bit to the mask: whether the geometry just closed is present.
    pub fn mark(&mut self, valid: bool)
        requires
            old(self).wf(),
        ensures
            final(self).wf(),
            final(self)@ == old(self)@.mark(valid),
            final(self)@.levels.len() == old(self)@.levels.len(),
    {
        self.validity.push(valid);
        assert(self@.levels =~= old(self)@.levels);
    }

    /// The number of bits in the mask: the number of geometries closed so far.
    pub fn marked(&self) -> (n: usize)
        ensures
            self@.validity matches Some(bits) && n == bits.len(),
    {
        self.validity.len()
    }

    /// Hands out the parts: the pools, the three levels, the mask.
    pub fn into_parts(self) -> (r: (Vec<u64>, Vec<u64>, Vec<i64>, Vec<i64>, Vec<i64>, Vec<bool>))
        requires
            self.wf(),
        ensures
            r.0@ == self@.x,
            r.1@ == self@.y,
            self@.validity == Some(r.5@),
            self@.levels.len() > 0 ==> r.2@ == self@.levels[0],
            self@.levels.len() > 1 ==> r.3@ == self@.levels[1],
            self@.levels.len() > 2 ==> r.4@ == self@.levels[2],
            self@.growing(),
            self@.levels.len() <= 3,
            self@.x.len() <= usize::MAX,
            forall|k: int| 0 <= k < self@.levels.len() ==> (#[trigger] self@.levels[k]).len()
                <= usize::MAX,
    {
        proof {
            assert(self.x.len() == self.x@.len());
            assert(self.level0.len() == self.level0@.len());
            assert(self.level1.len() == self.level1@.len());
            assert(self.level2.len() == self.level2@.len());
        }
        (self.x, self.y, self.level0, self.level1, self.level2, self.validity)
    }
}

} // verus!
