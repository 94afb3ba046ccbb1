//! The events of a depth-first walk over geometries.
//!
//! A walk reports a collection as one flat sequence of events: a begin and an
//! end around every geometry and every part of it, and one event per coordinate.
//! Whoever consumes the events can write text or a binary encoding from them
//! without ever holding a geometry as a value.

use crate::buffers::{is_offsets, Offsets};
use crate::layout::Layout;
use vstd::prelude::*;

verus! {

/// One step of a walk. `idx` is the position of the item within its parent, and
/// `size` the number of items directly below the one that begins.
#[derive(Clone, Copy, Debug, PartialEq, Eq, Structural)]
pub enum Event {
    GeometryCollectionBegin { size: usize, idx: usize },
    GeometryCollectionEnd { idx: usize },
    PointBegin { idx: usize },
    PointEnd { idx: usize },
    MultiPointBegin { size: usize, idx: usize },
    MultiPointEnd { idx: usize },
    LineStringBegin { tagged: bool, size: usize, idx: usize },
    LineStringEnd { tagged: bool, idx: usize },
    MultiLineStringBegin { size: usize, idx: usize },
    MultiLineStringEnd { idx: usize },
    PolygonBegin { tagged: bool, size: usize, idx: usize },
    PolygonEnd { tagged: bool, idx: usize },
    MultiPolygonBegin { size: usize, idx: usize },
    MultiPolygonEnd { idx: usize },
    /// One coordinate, as the bit patterns of its two halves.
    Xy { x: u64, y: u64, idx: usize },
}

/// The events of items `0` up to `n`, one after the other, where `item(i)` are
/// the events of item `i`.
pub open spec fn concat_events(n: int, item: spec_fn(int) -> Seq<Event>) -> Seq<Event>
    decreases n,
{
    if n <= 0 {
        Seq::empty()
    } else {
        concat_events(n - 1, item) + item(n - 1)
    }
}

/// The index that the end of a collection of `n` geometries reports.
pub open spec fn last_index(n: int) -> int {
    if n == 0 {
        0
    } else {
        n - 1
    }
}

/// The events of a whole collection of `n` geometries with the events `body`.
pub open spec fn collection_events(n: int, body: Seq<Event>) -> Seq<Event> {
    seq![Event::GeometryCollectionBegin { size: n as usize, idx: 0 }] + body
        + seq![Event::GeometryCollectionEnd { idx: last_index(n) as usize }]
}

/// One event per coordinate from `start` up to `end`, numbered from zero.
pub open spec fn xy_events(x: Seq<u64>, y: Seq<u64>, start: int, end: int) -> Seq<Event> {
    Seq::new(
        (end - start) as nat,
        |c: int| Event::Xy { x: x[start + c], y: y[start + c], idx: c as usize },
    )
}

/// The events of the point at `c`, reported at `idx`.
pub open spec fn point_events(x: Seq<u64>, y: Seq<u64>, c: int, idx: int) -> Seq<Event> {
    seq![
        Event::PointBegin { idx: idx as usize },
        Event::Xy { x: x[c], y: y[c], idx: 0 },
        Event::PointEnd { idx: idx as usize },
    ]
}

/// The events of the multi point that the offsets delimit at `j`.
pub open spec fn multipoint_events(
    x: Seq<u64>,
    y: Seq<u64>,
    offsets: Seq<i64>,
    j: int,
    idx: int,
) -> Seq<Event> {
    seq![
        Event::MultiPointBegin { size: (offsets[j + 1] - offsets[j]) as usize, idx: idx as usize },
    ] + xy_events(x, y, offsets[j] as int, offsets[j + 1] as int) + seq![
        Event::MultiPointEnd { idx: idx as usize },
    ]
}

/// The events of the line string or ring that the offsets delimit at `j`.
pub open spec fn linestring_events(
    x: Seq<u64>,
    y: Seq<u64>,
    offsets: Seq<i64>,
    j: int,
    tagged: bool,
    idx: int,
) -> Seq<Event> {
    seq![
        Event::LineStringBegin {
            tagged,
            size: (offsets[j + 1] - offsets[j]) as usize,
            idx: idx as usize,
        },
    ] + xy_events(x, y, offsets[j] as int, offsets[j + 1] as int) + seq![
        Event::LineStringEnd { tagged, idx: idx as usize },
    ]
}

/// The events of the `n` line strings from `first` on, as the parts of one
/// geometry: untagged, and numbered from zero.
pub open spec fn linestrings_events(
    x: Seq<u64>,
    y: Seq<u64>,
    offsets: Seq<i64>,
    first: int,
    n: int,
) -> Seq<Event> {
    concat_events(n, |r: int| linestring_events(x, y, offsets, first + r, false, r))
}

/// The events of the multi line string that `lines` delimits at `j`.
pub open spec fn multilinestring_events(
    x: Seq<u64>,
    y: Seq<u64>,
    lines: Seq<i64>,
    offsets: Seq<i64>,
    j: int,
    idx: int,
) -> Seq<Event> {
    seq![
        Event::MultiLineStringBegin { size: (lines[j + 1] - lines[j]) as usize, idx: idx as usize },
    ] + linestrings_events(x, y, offsets, lines[j] as int, lines[j + 1] - lines[j]) + seq![
        Event::MultiLineStringEnd { idx: idx as usize },
    ]
}

/// The events of the polygon that `rings` delimits at `j`.
pub open spec fn polygon_events(
    x: Seq<u64>,
    y: Seq<u64>,
    rings: Seq<i64>,
    offsets: Seq<i64>,
    j: int,
    tagged: bool,
    idx: int,
) -> Seq<Event> {
    seq![
        Event::PolygonBegin { tagged, size: (rings[j + 1] - rings[j]) as usize, idx: idx as usize },
    ] + linestrings_events(x, y, offsets, rings[j] as int, rings[j + 1] - rings[j]) + seq![
        Event::PolygonEnd { tagged, idx: idx as usize },
    ]
}

/// The events of the `n` polygons from `first` on, as the parts of one multi
/// polygon: untagged, and numbered from zero.
pub open spec fn polygons_events(
    x: Seq<u64>,
    y: Seq<u64>,
    rings: Seq<i64>,
    offsets: Seq<i64>,
    first: int,
    n: int,
) -> Seq<Event> {
    concat_events(n, |p: int| polygon_events(x, y, rings, offsets, first + p, false, p))
}

/// The events of the multi polygon that `polygons` delimits at `j`.
pub open spec fn multipolygon_events(
    x: Seq<u64>,
    y: Seq<u64>,
    polygons: Seq<i64>,
    rings: Seq<i64>,
    offsets: Seq<i64>,
    j: int,
    idx: int,
) -> Seq<Event> {
    seq![
        Event::MultiPolygonBegin {
            size: (polygons[j + 1] - polygons[j]) as usize,
            idx: idx as usize,
        },
    ] + polygons_events(x, y, rings, offsets, polygons[j] as int, polygons[j + 1] - polygons[j])
        + seq![Event::MultiPolygonEnd { idx: idx as usize }]
}

/// The events of an array of multi points.
pub open spec fn multipoint_array_events(a: Layout) -> Seq<Event> {
    collection_events(
        a.len(),
        concat_events(a.len(), |i: int| multipoint_events(a.x, a.y, a.levels[0], i, i)),
    )
}

/// The events of an array of points.
pub open spec fn point_array_events(a: Layout) -> Seq<Event> {
    collection_events(a.len(), concat_events(a.len(), |i: int| point_events(a.x, a.y, i, i)))
}

/// The events of an array of line strings.
pub open spec fn linestring_array_events(a: Layout) -> Seq<Event> {
    collection_events(
        a.len(),
        concat_events(a.len(), |i: int| linestring_events(a.x, a.y, a.levels[0], i, true, i)),
    )
}

/// The events of an array of polygons.
pub open spec fn polygon_array_events(a: Layout) -> Seq<Event> {
    collection_events(
        a.len(),
        concat_events(
            a.len(),
            |i: int| polygon_events(a.x, a.y, a.levels[0], a.levels[1], i, true, i),
        ),
    )
}

/// The events of an array of multi line strings.
pub open spec fn multilinestring_array_events(a: Layout) -> Seq<Event> {
    collection_events(
        a.len(),
        concat_events(
            a.len(),
            |i: int| multilinestring_events(a.x, a.y, a.levels[0], a.levels[1], i, i),
        ),
    )
}

/// The events of an array of multi polygons.
pub open spec fn multipolygon_array_events(a: Layout) -> Seq<Event> {
    collection_events(
        a.len(),
        concat_events(
            a.len(),
            |i: int| multipolygon_events(a.x, a.y, a.levels[0], a.levels[1], a.levels[2], i, i),
        ),
    )
}

/// Appends one event per coordinate from `start` up to `end`.
pub fn push_xy(events: &mut Vec<Event>, x: &[u64], y: &[u64], start: usize, end: usize)
    requires
        start <= end <= x@.len(),
        x@.len() == y@.len(),
    ensures
        final(events)@ == old(events)@ + xy_events(x@, y@, start as int, end as int),
{
    let mut c: usize = start;
    while c < end
        invariant
            start <= c <= end <= x@.len(),
            x@.len() == y@.len(),
            events@ == old(events)@ + xy_events(x@, y@, start as int, c as int),
        decreases end - c,
    {
        events.push(Event::Xy { x: x[c], y: y[c], idx: c - start });
        c += 1;
    }
}

/// Appends the events of the multi point that `offsets` delimits at `j`.
pub fn push_multipoint(
    events: &mut Vec<Event>,
    x: &[u64],
    y: &[u64],
    offsets: &Offsets,
    j: usize,
    idx: usize,
)
    requires
        x@.len() == y@.len(),
        is_offsets(offsets@),
        offsets@.last() <= x.len(),
        j + 1 < offsets@.len(),
    ensures
        final(events)@ == old(events)@ + multipoint_events(x@, y@, offsets@, j as int, idx as int),
{
    let (start, end) = offsets.start_end(j);
    events.push(Event::MultiPointBegin { size: end - start, idx });
    push_xy(events, x, y, start, end);
    events.push(Event::MultiPointEnd { idx });
}

/// Appends the events of the line string or ring that `offsets` delimits at `j`.
pub fn push_linestring(
    events: &mut Vec<Event>,
    x: &[u64],
    y: &[u64],
    offsets: &Offsets,
    j: usize,
    tagged: bool,
    idx: usize,
)
    requires
        x@.len() == y@.len(),
        is_offsets(offsets@),
        offsets@.last() <= x.len(),
        j + 1 < offsets@.len(),
    ensures
        final(events)@ == old(events)@ + linestring_events(
            x@,
            y@,
            offsets@,
            j as int,
            tagged,
            idx as int,
        ),
{
    let (start, end) = offsets.start_end(j);
    events.push(Event::LineStringBegin { tagged, size: end - start, idx });
    push_xy(events, x, y, start, end);
    events.push(Event::LineStringEnd { tagged, idx });
    assert(events@ =~= old(events)@ + linestring_events(
        x@,
        y@,
        offsets@,
        j as int,
        tagged,
        idx as int,
    ));
}

/// Appends the events of the line strings from `first` up to `end`, as the
/// parts of one geometry.
pub fn push_linestrings(
    events: &mut Vec<Event>,
    x: &[u64],
    y: &[u64],
    offsets: &Offsets,
    first: usize,
    end: usize,
)
    requires
        x@.len() == y@.len(),
        is_offsets(offsets@),
        offsets@.last() <= x.len(),
        first <= end < offsets@.len(),
    ensures
        final(events)@ == old(events)@ + linestrings_events(
            x@,
            y@,
            offsets@,
            first as int,
            end - first,
        ),
{
    let mut r: usize = first;
    while r < end
        invariant
            x@.len() == y@.len(),
            is_offsets(offsets@),
            offsets@.last() <= x.len(),
            first <= r <= end < offsets@.len(),
            events@ == old(events)@ + linestrings_events(x@, y@, offsets@, first as int, r - first),
        decreases end - r,
    {
        push_linestring(events, x, y, offsets, r, false, r - first);
        r += 1;
        assert(events@ =~= old(events)@ + linestrings_events(
            x@,
            y@,
            offsets@,
            first as int,
            r - first,
        ));
    }
}

/// Appends the events of the multi line string that `lines` delimits at `j`.
pub fn push_multilinestring(
    events: &mut Vec<Event>,
    x: &[u64],
    y: &[u64],
    lines: &Offsets,
    offsets: &Offsets,
    j: usize,
    idx: usize,
)
    requires
        x@.len() == y@.len(),
        is_offsets(lines@),
        is_offsets(offsets@),
        lines@.last() < offsets@.len() <= usize::MAX,
        offsets@.last() <= x.len(),
        j + 1 < lines@.len(),
    ensures
        final(events)@ == old(events)@ + multilinestring_events(
            x@,
            y@,
            lines@,
            offsets@,
            j as int,
            idx as int,
        ),
{
    let (start, end) = lines.start_end(j);
    events.push(Event::MultiLineStringBegin { size: end - start, idx });
    push_linestrings(events, x, y, offsets, start, end);
    events.push(Event::MultiLineStringEnd { idx });
    assert(events@ =~= old(events)@ + multilinestring_events(
        x@,
        y@,
        lines@,
        offsets@,
        j as int,
        idx as int,
    ));
}

/// Appends the events of the polygon that `rings` delimits at `j`.
pub fn push_polygon(
    events: &mut Vec<Event>,
    x: &[u64],
    y: &[u64],
    rings: &Offsets,
    offsets: &Offsets,
    j: usize,
    tagged: bool,
    idx: usize,
)
    requires
        x@.len() == y@.len(),
        is_offsets(rings@),
        is_offsets(offsets@),
        rings@.last() < offsets@.len() <= usize::MAX,
        offsets@.last() <= x.len(),
        j + 1 < rings@.len(),
    ensures
        final(events)@ == old(events)@ + polygon_events(
            x@,
            y@,
            rings@,
            offsets@,
            j as int,
            tagged,
            idx as int,
        ),
{
    let (start, end) = rings.start_end(j);
    events.push(Event::PolygonBegin { tagged, size: end - start, idx });
    push_linestrings(events, x, y, offsets, start, end);
    events.push(Event::PolygonEnd { tagged, idx });
    assert(events@ =~= old(events)@ + polygon_events(
        x@,
        y@,
        rings@,
        offsets@,
        j as int,
        tagged,
        idx as int,
    ));
}

/// Appends the events of the multi polygon that `polygons` delimits at `j`.
pub fn push_multipolygon(
    events: &mut Vec<Event>,
    x: &[u64],
    y: &[u64],
    polygons: &Offsets,
    rings: &Offsets,
    offsets: &Offsets,
    j: usize,
    idx: usize,
)
    requires
        x@.len() == y@.len(),
        is_offsets(polygons@),
        is_offsets(rings@),
        is_offsets(offsets@),
        polygons@.last() < rings@.len() <= usize::MAX,
        rings@.last() < offsets@.len() <= usize::MAX,
        offsets@.last() <= x.len(),
        j + 1 < polygons@.len(),
    ensures
        final(events)@ == old(events)@ + multipolygon_events(
            x@,
            y@,
            polygons@,
            rings@,
            offsets@,
            j as int,
            idx as int,
        ),
{
    let (start, end) = polygons.start_end(j);
    events.push(Event::MultiPolygonBegin { size: end - start, idx });
    let ghost before = events@;
    let mut p: usize = start;
    while p < end
        invariant
            x@.len() == y@.len(),
            is_offsets(rings@),
            is_offsets(offsets@),
            rings@.last() < offsets@.len() <= usize::MAX,
            offsets@.last() <= x.len(),
            start <= p <= end < rings@.len(),
            events@ == before + polygons_events(x@, y@, rings@, offsets@, start as int, p - start),
        decreases end - p,
    {
        push_polygon(events, x, y, rings, offsets, p, false, p - start);
        p += 1;
        assert(events@ =~= before + polygons_events(
            x@,
            y@,
            rings@,
            offsets@,
            start as int,
            p - start,
        ));
    }
    events.push(Event::MultiPolygonEnd { idx });
    assert(events@ =~= old(events)@ + multipolygon_events(
        x@,
        y@,
        polygons@,
        rings@,
        offsets@,
        j as int,
        idx as int,
    ));
}

} // verus!
