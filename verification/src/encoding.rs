//! What a builder makes of the geometries it is given.
//!
//! A builder lays geometries out one after the other. Read back from the
//! layout, geometry by geometry, they are the geometries that went in: nulls
//! where nulls were pushed, and the same coordinates in the same nesting.

use crate::buffers::is_offsets;
use crate::layout::{
    all_set, coords_between, line_at, lines_at, lines_between, polygons_at, polygons_between,
    Coord, Layout,
};
use crate::mutable::{
    lemma_push_coords_levels, lemma_push_lines_levels, lemma_push_polygons_levels, running_total,
};
use vstd::prelude::*;

verus! {

impl Layout {
    /// Whether the layout is one that a builder holds between two geometries:
    /// every level is closed at the end of the level below, and the mask has one
    /// bit per geometry.
    pub open spec fn complete(self) -> bool {
        &&& self.x.len() == self.y.len()
        &&& self.validity matches Some(bits) && bits.len() == self.len()
        &&& forall|k: int|
            0 <= k < self.levels.len() ==> is_offsets(#[trigger] self.levels[k])
                && self.levels[k].last() == self.child_len(k)
    }

    /// Whether the layout has room: every count of items can be an offset, and
    /// every length is one that memory can hold.
    pub open spec fn fits(self) -> bool {
        &&& self.x.len() <= i64::MAX
        &&& self.x.len() <= usize::MAX
        &&& forall|k: int|
            0 <= k < self.levels.len() ==> (#[trigger] self.levels[k]).len() - 1 <= i64::MAX
                && self.levels[k].len() <= usize::MAX
    }
}

/// Whether `b` starts with `a`.
pub open spec fn starts_with<T>(b: Seq<T>, a: Seq<T>) -> bool {
    a.len() <= b.len() && forall|i: int| 0 <= i < a.len() ==> a[i] == b[i]
}

/// A line read through longer pools and longer offsets is the same line.
pub proof fn lemma_line_kept(
    x: Seq<u64>,
    y: Seq<u64>,
    offsets: Seq<i64>,
    x2: Seq<u64>,
    y2: Seq<u64>,
    offsets2: Seq<i64>,
    j: int,
)
    requires
        starts_with(x2, x),
        starts_with(y2, y),
        starts_with(offsets2, offsets),
        x.len() == y.len(),
        is_offsets(offsets),
        offsets.last() <= x.len(),
        0 <= j,
        j + 1 < offsets.len(),
    ensures
        line_at(x2, y2, offsets2, j) == line_at(x, y, offsets, j),
{
}

/// After the coordinates of a line, the pools start with what they held, and
/// end with the line.
pub proof fn lemma_push_coords_content(a: Layout, line: Seq<Coord>)
    requires
        a.x.len() == a.y.len(),
    ensures
        starts_with(a.push_coords(line).x, a.x),
        starts_with(a.push_coords(line).y, a.y),
        a.push_coords(line).x.len() == a.x.len() + line.len(),
        a.push_coords(line).y.len() == a.x.len() + line.len(),
        a.push_coords(line).levels == a.levels,
        a.push_coords(line).validity == a.validity,
        coords_between(
            a.push_coords(line).x,
            a.push_coords(line).y,
            a.x.len() as int,
            (a.x.len() + line.len()) as int,
        ) == line,
    decreases line.len(),
{
    let r = a.push_coords(line);
    if line.len() > 0 {
        lemma_push_coords_content(a, line.drop_last());
        let b = a.push_coords(line.drop_last());
        let before = coords_between(b.x, b.y, a.x.len() as int, a.x.len() + line.len() - 1);
        let after = coords_between(r.x, r.y, a.x.len() as int, (a.x.len() + line.len()) as int);
        assert forall|c: int| 0 <= c < line.len() implies after[c] == line[c] by {
            if c < line.len() - 1 {
                assert(before[c] == line.drop_last()[c]);
            }
        }
    }
}

/// What holds of the layout of geometries with one level, read back.
pub open spec fn lines_read_back(a: Layout, values: Seq<Option<Seq<Coord>>>) -> bool {
    &&& a.levels.len() == 1
    &&& a.len() == values.len()
    &&& forall|i: int| 0 <= i < values.len() ==> a.is_valid(i) == (#[trigger] values[i] is Some)
    &&& forall|i: int|
        0 <= i < values.len() ==> #[trigger] a.line(i) == match values[i] {
            Some(line) => line,
            None => Seq::empty(),
        }
}

/// One more geometry with one level: the layout stays complete, what was in it
/// reads as before, and the new geometry reads as it was given.
proof fn lemma_push_line_geometry(
    a: Layout,
    values: Seq<Option<Seq<Coord>>>,
    value: Option<Seq<Coord>>,
)
    requires
        a.complete(),
        lines_read_back(a, values),
        a.push_line_geometry(value).fits(),
    ensures
        a.push_line_geometry(value).complete(),
        lines_read_back(a.push_line_geometry(value), values.push(value)),
{
    let b = a.push_line_geometry(value);
    let line = match value {
        Some(line) => line,
        None => Seq::empty(),
    };
    lemma_push_coords_content(a, line);
    assert(is_offsets(a.levels[0]));
    assert(b.levels[0].len() == a.levels[0].len() + 1);
    let all = values.push(value);
    assert forall|i: int| 0 <= i < all.len() implies #[trigger] b.line(i) == match all[i] {
        Some(line) => line,
        None => Seq::empty(),
    } by {
        if i < values.len() {
            assert(a.line(i) == b.line(i));
        }
    }
}

/// The layout of geometries with one level is complete and reads back as the
/// geometries.
proof fn lemma_encode_lines_raw(values: Seq<Option<Seq<Coord>>>)
    requires
        Layout::encode_lines(values).fits(),
    ensures
        Layout::encode_lines(values).complete(),
        lines_read_back(Layout::encode_lines(values), values),
    decreases values.len(),
{
    if values.len() > 0 {
        let head = values.drop_last();
        let a = Layout::encode_lines(head);
        let b = Layout::encode_lines(values);
        assert(a.fits()) by {
            match values.last() {
                Some(line) => {
                    lemma_push_coords_levels(a, line);
                },
                None => {},
            }
            lemma_depth_of_encode_lines(head);
            assert(b.levels[0].len() - 1 <= i64::MAX);
        }
        lemma_encode_lines_raw(head);
        lemma_push_line_geometry(a, head, values.last());
        assert(head.push(values.last()) =~= values);
    }
}

/// The layout of geometries with one level has one level, and has one more
/// offset for each geometry.
proof fn lemma_depth_of_encode_lines(values: Seq<Option<Seq<Coord>>>)
    ensures
        Layout::encode_lines(values).levels.len() == 1,
        Layout::encode_lines(values).levels[0].len() == values.len() + 1,
    decreases values.len(),
{
    if values.len() > 0 {
        let a = Layout::encode_lines(values.drop_last());
        lemma_depth_of_encode_lines(values.drop_last());
        match values.last() {
            Some(line) => {
                lemma_push_coords_levels(a, line);
            },
            None => {},
        }
    }
}

/// What was complete and of lengths that memory can hold is a valid array once
/// it is finished, and its geometries are present where their bits were set.
pub proof fn lemma_finished(a: Layout)
    requires
        a.complete(),
        a.x.len() <= usize::MAX,
        forall|k: int| 0 <= k < a.levels.len() ==> (#[trigger] a.levels[k]).len() <= usize::MAX,
    ensures
        a.finished().wf(),
        a.finished().len() == a.len(),
        forall|i: int| 0 <= i < a.len() ==> a.finished().is_valid(i) == a.is_valid(i),
        a.finished().x == a.x,
        a.finished().y == a.y,
        a.finished().levels == a.levels,
{
    assert(a.finished().x.len() == a.finished().y.len());
}

/// Geometries with one level come back from their array as they went in: for
/// every sequence of line strings or multi points, nulls among them, whose
/// layout has room, the finished array is valid, has one geometry for each,
/// marks as null exactly the nulls, and reads each present geometry back with
/// the coordinates that it was given.
pub proof fn lemma_lines_roundtrip(values: Seq<Option<Seq<Coord>>>)
    requires
        Layout::encode_lines(values).fits(),
    ensures
        Layout::encode_lines(values).finished().wf(),
        lines_read_back(Layout::encode_lines(values).finished(), values),
{
    let raw = Layout::encode_lines(values);
    lemma_encode_lines_raw(values);
    let a = raw.finished();
    assert forall|i: int| 0 <= i < values.len() implies #[trigger] a.line(i) == match values[i] {
        Some(line) => line,
        None => Seq::empty(),
    } by {
        assert(a.line(i) == raw.line(i));
    }
}

/// What holds of the layout of points, read back. A null holds a coordinate of
/// zero bits.
pub open spec fn points_read_back(a: Layout, values: Seq<Option<Coord>>) -> bool {
    &&& a.levels.len() == 0
    &&& a.len() == values.len()
    &&& forall|i: int| 0 <= i < values.len() ==> a.is_valid(i) == (#[trigger] values[i] is Some)
    &&& forall|i: int|
        0 <= i < values.len() ==> #[trigger] a.point(i) == match values[i] {
            Some(c) => c,
            None => Coord { x: 0, y: 0 },
        }
}

/// The layout of points is complete and reads back as the points.
proof fn lemma_encode_points_raw(values: Seq<Option<Coord>>)
    ensures
        Layout::encode_points(values).complete(),
        points_read_back(Layout::encode_points(values), values),
    decreases values.len(),
{
    if values.len() > 0 {
        let head = values.drop_last();
        let a = Layout::encode_points(head);
        let b = Layout::encode_points(values);
        lemma_encode_points_raw(head);
        assert forall|i: int| 0 <= i < values.len() implies b.is_valid(i) == (
        #[trigger] values[i] is Some) by {
            if i < head.len() {
                assert(a.is_valid(i) == (head[i] is Some));
            }
        }
        assert forall|i: int| 0 <= i < values.len() implies #[trigger] b.point(i)
            == match values[i] {
            Some(c) => c,
            None => Coord { x: 0, y: 0 },
        } by {
            if i < head.len() {
                assert(a.point(i) == b.point(i));
            }
        }
    }
}

/// Points come back from their array as they went in: for every sequence of
/// points, nulls among them, that has room in memory, the finished array is
/// valid, has one point for each, marks as null exactly the nulls, and reads
/// each present point back with the coordinate that it was given.
pub proof fn lemma_points_roundtrip(values: Seq<Option<Coord>>)
    requires
        values.len() <= usize::MAX,
    ensures
        Layout::encode_points(values).finished().wf(),
        points_read_back(Layout::encode_points(values).finished(), values),
{
    let raw = Layout::encode_points(values);
    lemma_encode_points_raw(values);
    let a = raw.finished();
    assert forall|i: int| 0 <= i < values.len() implies #[trigger] a.point(i) == match values[i] {
        Some(c) => c,
        None => Coord { x: 0, y: 0 },
    } by {
        assert(a.point(i) == raw.point(i));
    }
}

/// Offsets with one more running total at their end are offsets.
proof fn lemma_offsets_push(offsets: Seq<i64>, total: i64)
    requires
        is_offsets(offsets),
        offsets.last() <= total,
    ensures
        is_offsets(offsets.push(total)),
        starts_with(offsets.push(total), offsets),
{
    assert(offsets.push(total).last() == total);
}

/// The lines of a polygon read through longer pools and longer offsets are the
/// same lines.
pub proof fn lemma_lines_kept(
    x: Seq<u64>,
    y: Seq<u64>,
    rings: Seq<i64>,
    offsets: Seq<i64>,
    x2: Seq<u64>,
    y2: Seq<u64>,
    rings2: Seq<i64>,
    offsets2: Seq<i64>,
    j: int,
)
    requires
        starts_with(x2, x),
        starts_with(y2, y),
        starts_with(rings2, rings),
        starts_with(offsets2, offsets),
        x.len() == y.len(),
        is_offsets(rings),
        is_offsets(offsets),
        rings.last() < offsets.len(),
        offsets.last() <= x.len(),
        0 <= j,
        j + 1 < rings.len(),
    ensures
        lines_at(x2, y2, rings2, offsets2, j) == lines_at(x, y, rings, offsets, j),
{
    let first = rings[j] as int;
    let n = rings[j + 1] - rings[j];
    assert forall|q: int| first <= q < first + n implies #[trigger] line_at(x2, y2, offsets2, q)
        == line_at(x, y, offsets, q) by {
    }
}

/// After lines pushed at the innermost level `k`, the pools and the level start
/// with what they held and end with the lines; the level stays closed.
pub proof fn lemma_push_lines_content(a: Layout, k: int, lines: Seq<Seq<Coord>>)
    requires
        0 <= k,
        k + 1 == a.levels.len(),
        a.x.len() == a.y.len(),
        is_offsets(a.levels[k]),
        a.levels[k].last() == a.x.len(),
        a.push_lines(k, lines).x.len() <= i64::MAX,
    ensures
        a.push_lines(k, lines).levels.len() == a.levels.len(),
        a.push_lines(k, lines).validity == a.validity,
        forall|j: int|
            0 <= j < k ==> #[trigger] a.push_lines(k, lines).levels[j] == a.levels[j],
        starts_with(a.push_lines(k, lines).x, a.x),
        starts_with(a.push_lines(k, lines).y, a.y),
        a.push_lines(k, lines).x.len() == a.push_lines(k, lines).y.len(),
        starts_with(a.push_lines(k, lines).levels[k], a.levels[k]),
        a.push_lines(k, lines).levels[k].len() == a.levels[k].len() + lines.len(),
        is_offsets(a.push_lines(k, lines).levels[k]),
        a.push_lines(k, lines).levels[k].last() == a.push_lines(k, lines).x.len(),
        lines_between(
            a.push_lines(k, lines).x,
            a.push_lines(k, lines).y,
            a.push_lines(k, lines).levels[k],
            a.levels[k].len() - 1,
            a.levels[k].len() - 1 + lines.len(),
        ) == lines,
    decreases lines.len(),
{
    let r = a.push_lines(k, lines);
    let n0 = a.levels[k].len() - 1;
    if lines.len() > 0 {
        let head = lines.drop_last();
        let b = a.push_lines(k, head);
        let c = b.push_coords(lines.last());
        lemma_push_coords_levels(b, lines.last());
        lemma_push_lines_content(a, k, head);
        lemma_push_coords_content(b, lines.last());
        let total = running_total(c.x.len() as int);
        assert(r.levels[k] == b.levels[k].push(total));
        let m = lines.len() as int;
        let got = lines_between(r.x, r.y, r.levels[k], n0, n0 + m);
        assert forall|i: int| 0 <= i < m implies got[i] == lines[i] by {
            if i < m - 1 {
                assert(lines_between(b.x, b.y, b.levels[k], n0, n0 + m - 1)[i] == head[i]);
            }
        }
    }
}

/// After polygons pushed at level `k`, the pools and the two levels start with
/// what they held and end with the polygons; both levels stay closed.
pub proof fn lemma_push_polygons_content(a: Layout, k: int, polygons: Seq<Seq<Seq<Coord>>>)
    requires
        0 <= k,
        k + 2 == a.levels.len(),
        a.x.len() == a.y.len(),
        is_offsets(a.levels[k]),
        is_offsets(a.levels[k + 1]),
        a.levels[k].last() == a.levels[k + 1].len() - 1,
        a.levels[k + 1].last() == a.x.len(),
        a.push_polygons(k, polygons).x.len() <= i64::MAX,
        a.push_polygons(k, polygons).levels[k + 1].len() - 1 <= i64::MAX,
    ensures
        a.push_polygons(k, polygons).levels.len() == a.levels.len(),
        a.push_polygons(k, polygons).validity == a.validity,
        forall|j: int|
            0 <= j < k ==> #[trigger] a.push_polygons(k, polygons).levels[j] == a.levels[j],
        starts_with(a.push_polygons(k, polygons).x, a.x),
        starts_with(a.push_polygons(k, polygons).y, a.y),
        a.push_polygons(k, polygons).x.len() == a.push_polygons(k, polygons).y.len(),
        starts_with(a.push_polygons(k, polygons).levels[k], a.levels[k]),
        starts_with(a.push_polygons(k, polygons).levels[k + 1], a.levels[k + 1]),
        a.push_polygons(k, polygons).levels[k].len() == a.levels[k].len() + polygons.len(),
        is_offsets(a.push_polygons(k, polygons).levels[k]),
        is_offsets(a.push_polygons(k, polygons).levels[k + 1]),
        a.push_polygons(k, polygons).levels[k].last() == a.push_polygons(
            k,
            polygons,
        ).levels[k + 1].len() - 1,
        a.push_polygons(k, polygons).levels[k + 1].last() == a.push_polygons(k, polygons).x.len(),
        polygons_between(
            a.push_polygons(k, polygons).x,
            a.push_polygons(k, polygons).y,
            a.push_polygons(k, polygons).levels[k],
            a.push_polygons(k, polygons).levels[k + 1],
            a.levels[k].len() - 1,
            a.levels[k].len() - 1 + polygons.len(),
        ) == polygons,
    decreases polygons.len(),
{
    let r = a.push_polygons(k, polygons);
    let n0 = a.levels[k].len() - 1;
    if polygons.len() > 0 {
        let head = polygons.drop_last();
        let last = polygons.last();
        let b = a.push_polygons(k, head);
        let c = b.push_lines(k + 1, last);
        lemma_push_polygons_levels(a, k, head);
        lemma_push_lines_levels(b, k + 1, last);
        lemma_push_polygons_content(a, k, head);
        lemma_push_lines_content(b, k + 1, last);
        let total = running_total(c.levels[k + 1].len() - 1);
        assert(r.levels[k] == b.levels[k].push(total));
        let m = polygons.len() as int;
        let got = polygons_between(r.x, r.y, r.levels[k], r.levels[k + 1], n0, n0 + m);
        assert forall|i: int| 0 <= i < m implies got[i] == polygons[i] by {
            if i < m - 1 {
                lemma_lines_kept(
                    b.x,
                    b.y,
                    b.levels[k],
                    b.levels[k + 1],
                    r.x,
                    r.y,
                    r.levels[k],
                    r.levels[k + 1],
                    n0 + i,
                );
                assert(polygons_between(b.x, b.y, b.levels[k], b.levels[k + 1], n0, n0 + m - 1)[i]
                    == head[i]);
            }
        }
        assert forall|j: int| 0 <= j < k implies #[trigger] r.levels[j] == a.levels[j] by {
        }
    }
}

/// The polygons of a multi polygon read through longer pools and longer offsets
/// are the same polygons.
pub proof fn lemma_polygons_kept(
    x: Seq<u64>,
    y: Seq<u64>,
    polygons: Seq<i64>,
    rings: Seq<i64>,
    offsets: Seq<i64>,
    x2: Seq<u64>,
    y2: Seq<u64>,
    polygons2: Seq<i64>,
    rings2: Seq<i64>,
    offsets2: Seq<i64>,
    j: int,
)
    requires
        starts_with(x2, x),
        starts_with(y2, y),
        starts_with(polygons2, polygons),
        starts_with(rings2, rings),
        starts_with(offsets2, offsets),
        x.len() == y.len(),
        is_offsets(polygons),
        is_offsets(rings),
        is_offsets(offsets),
        polygons.last() < rings.len(),
        rings.last() < offsets.len(),
        offsets.last() <= x.len(),
        0 <= j,
        j + 1 < polygons.len(),
    ensures
        polygons_at(x2, y2, polygons2, rings2, offsets2, j) == polygons_at(
            x,
            y,
            polygons,
            rings,
            offsets,
            j,
        ),
{
    let first = polygons[j] as int;
    let n = polygons[j + 1] - polygons[j];
    assert forall|q: int| first <= q < first + n implies #[trigger] lines_at(
        x2,
        y2,
        rings2,
        offsets2,
        q,
    ) == lines_at(x, y, rings, offsets, q) by {
        lemma_lines_kept(x, y, rings, offsets, x2, y2, rings2, offsets2, q);
    }
}

/// What holds of the layout of geometries with two levels, read back.
pub open spec fn nested_lines_read_back(a: Layout, values: Seq<Option<Seq<Seq<Coord>>>>) -> bool {
    &&& a.levels.len() == 2
    &&& a.len() == values.len()
    &&& forall|i: int| 0 <= i < values.len() ==> a.is_valid(i) == (#[trigger] values[i] is Some)
    &&& forall|i: int|
        0 <= i < values.len() ==> #[trigger] a.lines(i) == match values[i] {
            Some(lines) => lines,
            None => Seq::empty(),
        }
}

/// What holds of the layout of geometries with three levels, read back.
pub open spec fn polygons_read_back(
    a: Layout,
    values: Seq<Option<Seq<Seq<Seq<Coord>>>>>,
) -> bool {
    &&& a.levels.len() == 3
    &&& a.len() == values.len()
    &&& forall|i: int| 0 <= i < values.len() ==> a.is_valid(i) == (#[trigger] values[i] is Some)
    &&& forall|i: int|
        0 <= i < values.len() ==> #[trigger] a.polygons(i) == match values[i] {
            Some(polygons) => polygons,
            None => Seq::empty(),
        }
}

/// One more geometry with two levels: the layout stays complete, what was in it
/// reads as before, and the new geometry reads as it was given.
proof fn lemma_push_lines_geometry(
    a: Layout,
    values: Seq<Option<Seq<Seq<Coord>>>>,
    value: Option<Seq<Seq<Coord>>>,
)
    requires
        a.complete(),
        nested_lines_read_back(a, values),
        a.push_lines_geometry(value).fits(),
    ensures
        a.push_lines_geometry(value).complete(),
        nested_lines_read_back(a.push_lines_geometry(value), values.push(value)),
{
    let b = a.push_lines_geometry(value);
    let lines = match value {
        Some(lines) => lines,
        None => Seq::empty(),
    };
    let c = a.push_lines(1, lines);
    lemma_push_lines_content(a, 1, lines);
    let total = running_total(c.levels[1].len() - 1);
    assert(b.levels[0] == a.levels[0].push(total));
    let all = values.push(value);
    let n = values.len() as int;
    assert forall|i: int| 0 <= i < all.len() implies #[trigger] b.lines(i) == match all[i] {
        Some(lines) => lines,
        None => Seq::empty(),
    } by {
        if i < n {
            lemma_lines_kept(
                a.x,
                a.y,
                a.levels[0],
                a.levels[1],
                b.x,
                b.y,
                b.levels[0],
                b.levels[1],
                i,
            );
            assert(a.lines(i) == b.lines(i));
        }
    }
}

/// One more geometry with three levels: the layout stays complete, what was in
/// it reads as before, and the new geometry reads as it was given.
proof fn lemma_push_polygons_geometry(
    a: Layout,
    values: Seq<Option<Seq<Seq<Seq<Coord>>>>>,
    value: Option<Seq<Seq<Seq<Coord>>>>,
)
    requires
        a.complete(),
        polygons_read_back(a, values),
        a.push_polygons_geometry(value).fits(),
    ensures
        a.push_polygons_geometry(value).complete(),
        polygons_read_back(a.push_polygons_geometry(value), values.push(value)),
{
    let b = a.push_polygons_geometry(value);
    let polygons = match value {
        Some(polygons) => polygons,
        None => Seq::empty(),
    };
    let c = a.push_polygons(1, polygons);
    lemma_push_polygons_levels(a, 1, polygons);
    assert(b.levels[2] == c.levels[2]);
    lemma_push_polygons_content(a, 1, polygons);
    let total = running_total(c.levels[1].len() - 1);
    assert(b.levels[0] == a.levels[0].push(total));
    let all = values.push(value);
    let n = values.len() as int;
    assert forall|i: int| 0 <= i < all.len() implies #[trigger] b.polygons(i) == match all[i] {
        Some(polygons) => polygons,
        None => Seq::empty(),
    } by {
        if i < n {
            lemma_polygons_kept(
                a.x,
                a.y,
                a.levels[0],
                a.levels[1],
                a.levels[2],
                b.x,
                b.y,
                b.levels[0],
                b.levels[1],
                b.levels[2],
                i,
            );
            assert(a.polygons(i) == b.polygons(i));
        }
    }
}

/// Each geometry with two levels leaves the layout with two levels and takes
/// room.
proof fn lemma_push_lines_geometry_grows(a: Layout, value: Option<Seq<Seq<Coord>>>)
    requires
        a.levels.len() == 2,
    ensures
        a.push_lines_geometry(value).levels.len() == 2,
        a.push_lines_geometry(value).fits() ==> a.fits(),
{
    let b = a.push_lines_geometry(value);
    let lines = match value {
        Some(lines) => lines,
        None => Seq::empty(),
    };
    lemma_push_lines_levels(a, 1, lines);
    if b.fits() {
        assert forall|k: int| 0 <= k < a.levels.len() implies (#[trigger] a.levels[k]).len() - 1
            <= i64::MAX && a.levels[k].len() <= usize::MAX by {
            assert(a.levels[k].len() <= b.levels[k].len());
        }
    }
}

/// Each geometry with three levels leaves the layout with three levels and
/// takes room.
proof fn lemma_push_polygons_geometry_grows(a: Layout, value: Option<Seq<Seq<Seq<Coord>>>>)
    requires
        a.levels.len() == 3,
    ensures
        a.push_polygons_geometry(value).levels.len() == 3,
        a.push_polygons_geometry(value).fits() ==> a.fits(),
{
    let b = a.push_polygons_geometry(value);
    let polygons = match value {
        Some(polygons) => polygons,
        None => Seq::empty(),
    };
    lemma_push_polygons_levels(a, 1, polygons);
    if b.fits() {
        assert forall|k: int| 0 <= k < a.levels.len() implies (#[trigger] a.levels[k]).len() - 1
            <= i64::MAX && a.levels[k].len() <= usize::MAX by {
            assert(a.levels[k].len() <= b.levels[k].len());
        }
    }
}

/// The layout of geometries with two levels has two levels.
proof fn lemma_depth_of_encode_nested_lines(values: Seq<Option<Seq<Seq<Coord>>>>)
    ensures
        Layout::encode_nested_lines(values).levels.len() == 2,
    decreases values.len(),
{
    if values.len() > 0 {
        lemma_depth_of_encode_nested_lines(values.drop_last());
        lemma_push_lines_geometry_grows(
            Layout::encode_nested_lines(values.drop_last()),
            values.last(),
        );
    }
}

/// The layout of geometries with three levels has three levels.
proof fn lemma_depth_of_encode_polygons(values: Seq<Option<Seq<Seq<Seq<Coord>>>>>)
    ensures
        Layout::encode_polygons(values).levels.len() == 3,
    decreases values.len(),
{
    if values.len() > 0 {
        lemma_depth_of_encode_polygons(values.drop_last());
        lemma_push_polygons_geometry_grows(
            Layout::encode_polygons(values.drop_last()),
            values.last(),
        );
    }
}

/// The layout of geometries with two levels is complete and reads back as the
/// geometries.
proof fn lemma_encode_nested_lines_raw(values: Seq<Option<Seq<Seq<Coord>>>>)
    requires
        Layout::encode_nested_lines(values).fits(),
    ensures
        Layout::encode_nested_lines(values).complete(),
        nested_lines_read_back(Layout::encode_nested_lines(values), values),
    decreases values.len(),
{
    if values.len() > 0 {
        let head = values.drop_last();
        let a = Layout::encode_nested_lines(head);
        lemma_depth_of_encode_nested_lines(head);
        lemma_push_lines_geometry_grows(a, values.last());
        lemma_encode_nested_lines_raw(head);
        lemma_push_lines_geometry(a, head, values.last());
        assert(head.push(values.last()) =~= values);
    }
}

/// The layout of geometries with three levels is complete and reads back as the
/// geometries.
proof fn lemma_encode_polygons_raw(values: Seq<Option<Seq<Seq<Seq<Coord>>>>>)
    requires
        Layout::encode_polygons(values).fits(),
    ensures
        Layout::encode_polygons(values).complete(),
        polygons_read_back(Layout::encode_polygons(values), values),
    decreases values.len(),
{
    if values.len() > 0 {
        let head = values.drop_last();
        let a = Layout::encode_polygons(head);
        lemma_depth_of_encode_polygons(head);
        lemma_push_polygons_geometry_grows(a, values.last());
        lemma_encode_polygons_raw(head);
        lemma_push_polygons_geometry(a, head, values.last());
        assert(head.push(values.last()) =~= values);
    }
}

/// Geometries with two levels come back from their array as they went in: for
/// every sequence of polygons or multi line strings, nulls among them, whose
/// layout has room, the finished array is valid, has one geometry for each,
/// marks as null exactly the nulls, and reads each present geometry back with
/// the lines and coordinates that it was given.
pub proof fn lemma_nested_lines_roundtrip(values: Seq<Option<Seq<Seq<Coord>>>>)
    requires
        Layout::encode_nested_lines(values).fits(),
    ensures
        Layout::encode_nested_lines(values).finished().wf(),
        nested_lines_read_back(Layout::encode_nested_lines(values).finished(), values),
{
    let raw = Layout::encode_nested_lines(values);
    lemma_encode_nested_lines_raw(values);
    let a = raw.finished();
    assert forall|i: int| 0 <= i < values.len() implies #[trigger] a.lines(i) == match values[i] {
        Some(lines) => lines,
        None => Seq::empty(),
    } by {
        assert(a.lines(i) == raw.lines(i));
    }
}

/// Multi polygons come back from their array as they went in: for every
/// sequence of multi polygons, nulls among them, whose layout has room, the
/// finished array is valid, has one geometry for each, marks as null exactly
/// the nulls, and reads each present geometry back with the polygons, rings and
/// coordinates that it was given.
pub proof fn lemma_polygons_roundtrip(values: Seq<Option<Seq<Seq<Seq<Coord>>>>>)
    requires
        Layout::encode_polygons(values).fits(),
    ensures
        Layout::encode_polygons(values).finished().wf(),
        polygons_read_back(Layout::encode_polygons(values).finished(), values),
{
    let raw = Layout::encode_polygons(values);
    lemma_encode_polygons_raw(values);
    let a = raw.finished();
    assert forall|i: int| 0 <= i < values.len() implies #[trigger] a.polygons(i)
        == match values[i] {
        Some(polygons) => polygons,
        None => Seq::empty(),
    } by {
        assert(a.polygons(i) == raw.polygons(i));
    }
}

} // verus!
