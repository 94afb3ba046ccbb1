//! Copying geometries out of the buffers, as owned values.
//!
//! An owned line is a `Vec<Coord>`; the rings of a polygon and the line strings
//! of a multi line string are a `Vec<Vec<Coord>>`, a polygon's exterior ring
//! first; a multi polygon is a `Vec<Vec<Vec<Coord>>>`.

use crate::buffers::{is_offsets, Offsets};
use crate::layout::{coords_between, line_at, lines_at, lines_between, polygons_at, polygons_between, Coord};
use vstd::prelude::*;

verus! {

/// The coordinates from `start` up to `end`.
pub fn coords_to_vec(x: &[u64], y: &[u64], start: usize, end: usize) -> (v: Vec<Coord>)
    requires
        start <= end <= x@.len(),
        x@.len() == y@.len(),
    ensures
        v@ == coords_between(x@, y@, start as int, end as int),
        v.deep_view() == v@,
{
    let mut v: Vec<Coord> = Vec::new();
    let mut c: usize = start;
    while c < end
        invariant
            start <= c <= end <= x@.len(),
            x@.len() == y@.len(),
            v@ == coords_between(x@, y@, start as int, c as int),
        decreases end - c,
    {
        v.push(Coord { x: x[c], y: y[c] });
        c += 1;
    }
    v
}

/// The line that `offsets` delimits at `j`.
pub fn line_to_vec(x: &[u64], y: &[u64], offsets: &Offsets, j: usize) -> (v: Vec<Coord>)
    requires
        x@.len() == y@.len(),
        is_offsets(offsets@),
        offsets@.last() <= x.len(),
        j + 1 < offsets@.len(),
    ensures
        v@ == line_at(x@, y@, offsets@, j as int),
        v.deep_view() == v@,
{
    let (start, end) = offsets.start_end(j);
    coords_to_vec(x, y, start, end)
}

/// The lines from `start` up to `end`.
pub fn lines_to_vec(x: &[u64], y: &[u64], offsets: &Offsets, start: usize, end: usize) -> (v: Vec<
    Vec<Coord>,
>)
    requires
        x@.len() == y@.len(),
        is_offsets(offsets@),
        offsets@.last() <= x.len(),
        start <= end < offsets@.len(),
    ensures
        v.deep_view() == lines_between(x@, y@, offsets@, start as int, end as int),
{
    let mut v: Vec<Vec<Coord>> = Vec::new();
    let mut r: usize = start;
    while r < end
        invariant
            x@.len() == y@.len(),
            is_offsets(offsets@),
            offsets@.last() <= x.len(),
            start <= r <= end < offsets@.len(),
            v@.len() == r - start,
            forall|i: int|
                0 <= i < v@.len() ==> (#[trigger] v@[i]).deep_view() == line_at(
                    x@,
                    y@,
                    offsets@,
                    start + i,
                ),
        decreases end - r,
    {
        let line = line_to_vec(x, y, offsets, r);
        v.push(line);
        r += 1;
    }
    v
}

/// The polygons from `start` up to `end`, each as its rings.
pub fn polygons_to_vec(
    x: &[u64],
    y: &[u64],
    rings: &Offsets,
    offsets: &Offsets,
    start: usize,
    end: usize,
) -> (v: Vec<Vec<Vec<Coord>>>)
    requires
        x@.len() == y@.len(),
        is_offsets(rings@),
        is_offsets(offsets@),
        rings@.last() < offsets@.len() <= usize::MAX,
        offsets@.last() <= x.len(),
        start <= end < rings@.len(),
    ensures
        v.deep_view() == polygons_between(x@, y@, rings@, offsets@, start as int, end as int),
{
    let mut v: Vec<Vec<Vec<Coord>>> = Vec::new();
    let mut p: usize = start;
    while p < end
        invariant
            x@.len() == y@.len(),
            is_offsets(rings@),
            is_offsets(offsets@),
            rings@.last() < offsets@.len() <= usize::MAX,
            offsets@.last() <= x.len(),
            start <= p <= end < rings@.len(),
            v@.len() == p - start,
            forall|i: int|
                0 <= i < v@.len() ==> (#[trigger] v@[i]).deep_view() == lines_at(
                    x@,
                    y@,
                    rings@,
                    offsets@,
                    start + i,
                ),
        decreases end - p,
    {
        let (first, last) = rings.start_end(p);
        let polygon = lines_to_vec(x, y, offsets, first, last);
        v.push(polygon);
        p += 1;
    }
    v
}

} // verus!
