//! The mathematical model that all nested geometry arrays share.
//!
//! A `Layout` is what an array holds, seen as sequences: the two coordinate
//! pools, one sequence of offsets per nesting level, and the optional validity
//! mask. The number of levels is the nesting depth of the geometry kind: none
//! for points, one for line strings and multi points, two for polygons and multi
//! line strings, three for multi polygons.

use crate::buffers::{count_unset, is_offsets};
use vstd::prelude::*;

verus! {

/// One coordinate pair; each half is the bit pattern of a 64-bit IEEE 754 number.
#[derive(Clone, Copy, Debug, PartialEq, Eq, Structural)]
pub struct Coord {
    pub x: u64,
    pub y: u64,
}

impl DeepView for Coord {
    type V = Coord;

    open spec fn deep_view(&self) -> Coord {
        *self
    }
}

/// Whether every bit of `bits` is set.
pub open spec fn all_set(bits: Seq<bool>) -> bool {
    forall|i: int| 0 <= i < bits.len() ==> bits[i]
}

/// The window of `length` bits from `offset` on; a window without an unset bit
/// is no mask at all.
pub open spec fn slice_validity(validity: Option<Seq<bool>>, offset: int, length: int) -> Option<
    Seq<bool>,
> {
    match validity {
        None => None,
        Some(bits) => {
            let window = bits.subrange(offset, offset + length);
            if count_unset(window) > 0 {
                Some(window)
            } else {
                None
            }
        },
    }
}

/// The offsets of the `length` items from `offset` on: one more offset than items.
pub open spec fn slice_offsets(offsets: Seq<i64>, offset: int, length: int) -> Seq<i64> {
    offsets.subrange(offset, offset + length + 1)
}

/// The coordinates from `start` up to `end` of the two pools.
pub open spec fn coords_between(x: Seq<u64>, y: Seq<u64>, start: int, end: int) -> Seq<Coord> {
    Seq::new((end - start) as nat, |c: int| Coord { x: x[start + c], y: y[start + c] })
}

/// The line that `offsets` delimits at `j`: a line string, a ring, or the points
/// of a multi point.
pub open spec fn line_at(x: Seq<u64>, y: Seq<u64>, offsets: Seq<i64>, j: int) -> Seq<Coord> {
    coords_between(x, y, offsets[j] as int, offsets[j + 1] as int)
}

/// The lines from `start` up to `end`.
pub open spec fn lines_between(
    x: Seq<u64>,
    y: Seq<u64>,
    offsets: Seq<i64>,
    start: int,
    end: int,
) -> Seq<Seq<Coord>> {
    Seq::new((end - start) as nat, |r: int| line_at(x, y, offsets, start + r))
}

/// The lines that `rings` delimits at `j`: the rings of a polygon, or the line
/// strings of a multi line string.
pub open spec fn lines_at(
    x: Seq<u64>,
    y: Seq<u64>,
    rings: Seq<i64>,
    offsets: Seq<i64>,
    j: int,
) -> Seq<Seq<Coord>> {
    lines_between(x, y, offsets, rings[j] as int, rings[j + 1] as int)
}

/// The polygons from `start` up to `end`, each as its rings.
pub open spec fn polygons_between(
    x: Seq<u64>,
    y: Seq<u64>,
    rings: Seq<i64>,
    offsets: Seq<i64>,
    start: int,
    end: int,
) -> Seq<Seq<Seq<Coord>>> {
    Seq::new((end - start) as nat, |p: int| lines_at(x, y, rings, offsets, start + p))
}

/// The polygons that `polygons` delimits at `j`: those of a multi polygon.
pub open spec fn polygons_at(
    x: Seq<u64>,
    y: Seq<u64>,
    polygons: Seq<i64>,
    rings: Seq<i64>,
    offsets: Seq<i64>,
    j: int,
) -> Seq<Seq<Seq<Coord>>> {
    polygons_between(x, y, rings, offsets, polygons[j] as int, polygons[j + 1] as int)
}

/// What a nested geometry array holds.
pub struct Layout {
    /// The first halves of all coordinates.
    pub x: Seq<u64>,
    /// The second halves of all coordinates.
    pub y: Seq<u64>,
    /// The offsets of each nesting level, outermost first.
    pub levels: Seq<Seq<i64>>,
    /// One bit per geometry, unset for a null; `None` when no geometry is null.
    pub validity: Option<Seq<bool>>,
}

impl Layout {
    /// The number of geometries.
    pub open spec fn len(self) -> int {
        if self.levels.len() == 0 {
            self.x.len() as int
        } else {
            self.levels[0].len() - 1
        }
    }

    /// The number of items that the offsets of level `k` point into: the items of
    /// the next level, or the coordinates below the innermost level.
    pub open spec fn child_len(self, k: int) -> int {
        if k + 1 < self.levels.len() {
            self.levels[k + 1].len() - 1
        } else {
            self.x.len() as int
        }
    }

    /// The invariant of every array: the coordinate pools have one length, the
    /// offsets of each level never decrease and stay within the level below, and
    /// a mask has one bit per geometry. Every length fits in a `usize`.
    pub open spec fn wf(self) -> bool {
        &&& self.x.len() == self.y.len()
        &&& self.x.len() <= usize::MAX
        &&& forall|k: int|
            0 <= k < self.levels.len() ==> is_offsets(#[trigger] self.levels[k])
                && self.levels[k].len() <= usize::MAX && self.levels[k].last() <= self.child_len(
                k,
            )
        &&& self.validity matches Some(bits) ==> bits.len() == self.len()
    }

    /// Whether geometry `i` is present.
    pub open spec fn is_valid(self, i: int) -> bool {
        match self.validity {
            None => true,
            Some(bits) => bits[i],
        }
    }

    /// Geometry `i` of an array of points.
    pub open spec fn point(self, i: int) -> Coord {
        Coord { x: self.x[i], y: self.y[i] }
    }

    /// Geometry `i` of an array with one level, as its coordinates.
    pub open spec fn line(self, i: int) -> Seq<Coord> {
        line_at(self.x, self.y, self.levels[0], i)
    }

    /// Geometry `i` of an array with two levels, as its lines.
    pub open spec fn lines(self, i: int) -> Seq<Seq<Coord>> {
        lines_at(self.x, self.y, self.levels[0], self.levels[1], i)
    }

    /// Geometry `i` of an array with three levels, as its polygons.
    pub open spec fn polygons(self, i: int) -> Seq<Seq<Seq<Coord>>> {
        polygons_at(self.x, self.y, self.levels[0], self.levels[1], self.levels[2], i)
    }

    /// The `length` geometries from `offset` on. Only the outermost level and the
    /// mask are cut; an array of points has no level, so its pools are cut.
    pub open spec fn slice(self, offset: int, length: int) -> Layout {
        if self.levels.len() == 0 {
            Layout {
                x: self.x.subrange(offset, offset + length),
                y: self.y.subrange(offset, offset + length),
                levels: self.levels,
                validity: slice_validity(self.validity, offset, length),
            }
        } else {
            Layout {
                x: self.x,
                y: self.y,
                levels: self.levels.update(0, slice_offsets(self.levels[0], offset, length)),
                validity: slice_validity(self.validity, offset, length),
            }
        }
    }
}

/// No bit is counted as unset exactly when all bits are set.
pub proof fn lemma_count_unset(bits: Seq<bool>)
    ensures
        count_unset(bits) == 0 <==> all_set(bits),
{
    let unset = |b: bool| !b;
    let kept = bits.filter(unset);
    if kept.len() > 0 {
        bits.lemma_filter_contains_rev(unset, kept[0]);
    } else {
        assert forall|i: int| 0 <= i < bits.len() implies bits[i] by {
            if !bits[i] {
                bits.lemma_filter_contains(unset, i);
            }
        }
    }
}

/// A window of valid offsets is valid, and ends no later than the whole.
pub proof fn lemma_slice_offsets(offsets: Seq<i64>, offset: int, length: int)
    requires
        is_offsets(offsets),
        0 <= offset,
        0 <= length,
        offset + length < offsets.len(),
    ensures
        is_offsets(slice_offsets(offsets, offset, length)),
        slice_offsets(offsets, offset, length).len() == length + 1,
        slice_offsets(offsets, offset, length).last() <= offsets.last(),
        forall|i: int|
            0 <= i <= length ==> #[trigger] slice_offsets(offsets, offset, length)[i]
                == offsets[offset + i],
{
    assert(slice_offsets(offsets, offset, length).len() == length + 1);
}

/// Cutting a valid layout within its bounds gives a valid layout of the length
/// asked for.
pub proof fn lemma_slice_wf(a: Layout, offset: int, length: int)
    requires
        a.wf(),
        0 <= offset,
        0 <= length,
        offset + length <= a.len(),
    ensures
        a.slice(offset, length).wf(),
        a.slice(offset, length).len() == length,
{
    if a.levels.len() > 0 {
        lemma_slice_offsets(a.levels[0], offset, length);
    }
}

/// Each geometry of a slice is the geometry of the whole at the shifted index,
/// present or null alike.
pub proof fn lemma_slice_element(a: Layout, offset: int, length: int, i: int)
    requires
        a.wf(),
        0 <= offset,
        0 <= length,
        offset + length <= a.len(),
        0 <= i < length,
    ensures
        a.slice(offset, length).is_valid(i) == a.is_valid(offset + i),
        a.levels.len() == 0 ==> a.slice(offset, length).point(i) == a.point(offset + i),
        a.levels.len() == 1 ==> a.slice(offset, length).line(i) == a.line(offset + i),
        a.levels.len() == 2 ==> a.slice(offset, length).lines(i) == a.lines(offset + i),
        a.levels.len() == 3 ==> a.slice(offset, length).polygons(i) == a.polygons(offset + i),
{
    if let Some(bits) = a.validity {
        let window = bits.subrange(offset, offset + length);
        lemma_count_unset(window);
        if count_unset(window) == 0 {
            assert(window[i]);
        }
    }
}

/// Slicing twice is slicing once at the sum of the two offsets: for a valid
/// layout, a first slice within its bounds and a second slice within the
/// first, `a.slice(o1, l1).slice(o2, l2) == a.slice(o1 + o2, l2)`.
pub proof fn lemma_slice_composition(a: Layout, o1: int, l1: int, o2: int, l2: int)
    requires
        a.wf(),
        0 <= o1,
        0 <= l1,
        o1 + l1 <= a.len(),
        0 <= o2,
        0 <= l2,
        o2 + l2 <= l1,
    ensures
        a.slice(o1, l1).slice(o2, l2) == a.slice(o1 + o2, l2),
{
    let first = a.slice(o1, l1);
    let twice = first.slice(o2, l2);
    let once = a.slice(o1 + o2, l2);
    assert(twice.validity == once.validity) by {
        if let Some(bits) = a.validity {
            let w1 = bits.subrange(o1, o1 + l1);
            let w = bits.subrange(o1 + o2, o1 + o2 + l2);
            assert(w1.subrange(o2, o2 + l2) =~= w);
            lemma_count_unset(w1);
            lemma_count_unset(w);
        }
    }
    if a.levels.len() == 0 {
        assert(twice.x =~= once.x);
        assert(twice.y =~= once.y);
    } else {
        assert(slice_offsets(slice_offsets(a.levels[0], o1, l1), o2, l2) =~= slice_offsets(
            a.levels[0],
            o1 + o2,
            l2,
        ));
        assert(twice.levels =~= once.levels);
    }
}

} // verus!
