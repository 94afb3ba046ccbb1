//! What a walk reports, held against reading the geometries one by one.
//!
//! The coordinates among the events of a walk are the coordinates of the
//! geometries, in the order in which their views hand them out.

use crate::buffers::is_offsets;
use crate::event::{
    collection_events, concat_events, linestring_array_events, linestring_events,
    linestrings_events, multilinestring_array_events, multilinestring_events,
    multipoint_array_events, multipoint_events, multipolygon_array_events, multipolygon_events,
    point_array_events, point_events, polygon_array_events, polygon_events, polygons_events,
    xy_events, Event,
};
use crate::layout::{
    coords_between, line_at, lines_at, lines_between, polygons_at, polygons_between, Coord, Layout,
};
use vstd::prelude::*;
use vstd::seq_lib::lemma_flatten_concat;

verus! {

/// The coordinate that an event reports, if it reports one.
pub open spec fn event_coord(e: Event) -> Option<Coord> {
    match e {
        Event::Xy { x, y, .. } => Some(Coord { x, y }),
        _ => None,
    }
}

/// The coordinates among `events`, in order.
pub open spec fn event_coords(events: Seq<Event>) -> Seq<Coord> {
    events.filter_map(|e: Event| event_coord(e))
}

/// The coordinates of two runs of events are those of the first, then those of
/// the second.
pub proof fn lemma_event_coords_add(a: Seq<Event>, b: Seq<Event>)
    ensures
        event_coords(a + b) == event_coords(a) + event_coords(b),
    decreases b.len(),
{
    if b.len() > 0 {
        assert((a + b).drop_last() =~= a + b.drop_last());
        lemma_event_coords_add(a, b.drop_last());
    }
}

/// An event that is no coordinate reports none.
pub proof fn lemma_event_coords_one(e: Event)
    ensures
        event_coords(seq![e]) == match event_coord(e) {
            Some(c) => seq![c],
            None => Seq::empty(),
        },
{
    Seq::lemma_filter_map_singleton(e, |e: Event| event_coord(e));
}

/// The coordinates of a bracketed run are those of the run.
pub proof fn lemma_event_coords_bracket(begin: Event, body: Seq<Event>, end: Event)
    requires
        event_coord(begin) is None,
        event_coord(end) is None,
    ensures
        event_coords(seq![begin] + body + seq![end]) == event_coords(body),
{
    lemma_event_coords_one(begin);
    lemma_event_coords_one(end);
    lemma_event_coords_add(seq![begin] + body, seq![end]);
    lemma_event_coords_add(seq![begin], body);
}

/// The events of a run of coordinates report exactly those coordinates.
pub proof fn lemma_xy_coords(x: Seq<u64>, y: Seq<u64>, start: int, end: int)
    requires
        start <= end,
    ensures
        event_coords(xy_events(x, y, start, end)) == coords_between(x, y, start, end),
    decreases end - start,
{
    let events = xy_events(x, y, start, end);
    if start < end {
        lemma_xy_coords(x, y, start, end - 1);
        assert(events.drop_last() =~= xy_events(x, y, start, end - 1));
    }
}

/// Flattening one more sequence appends it.
pub proof fn lemma_flatten_push<A>(s: Seq<Seq<A>>, last: Seq<A>)
    ensures
        s.push(last).flatten() == s.flatten() + last,
{
    assert(s.push(last) =~= s + seq![last]);
    lemma_flatten_concat(s, seq![last]);
    seq![last].lemma_flatten_one_element();
}

/// The coordinates of the first `n` items of a walk are the coordinates of each
/// item, one after the other.
pub proof fn lemma_concat_coords(
    n: int,
    item: spec_fn(int) -> Seq<Event>,
    coords: spec_fn(int) -> Seq<Coord>,
)
    requires
        0 <= n,
        forall|i: int| 0 <= i < n ==> event_coords(#[trigger] item(i)) == coords(i),
    ensures
        event_coords(concat_events(n, item)) == Seq::new(n as nat, coords).flatten(),
    decreases n,
{
    if n > 0 {
        lemma_concat_coords(n - 1, item, coords);
        lemma_event_coords_add(concat_events(n - 1, item), item(n - 1));
        lemma_flatten_push(Seq::new((n - 1) as nat, coords), coords(n - 1));
        assert(Seq::new(n as nat, coords) =~= Seq::new((n - 1) as nat, coords).push(coords(n - 1)));
    }
}

/// A walk over a line string, a ring or a multi point reports its coordinates.
pub proof fn lemma_line_coords(
    x: Seq<u64>,
    y: Seq<u64>,
    offsets: Seq<i64>,
    j: int,
    tagged: bool,
    idx: int,
)
    requires
        offsets[j] <= offsets[j + 1],
    ensures
        event_coords(linestring_events(x, y, offsets, j, tagged, idx)) == line_at(x, y, offsets, j),
        event_coords(multipoint_events(x, y, offsets, j, idx)) == line_at(x, y, offsets, j),
{
    lemma_xy_coords(x, y, offsets[j] as int, offsets[j + 1] as int);
    let body = xy_events(x, y, offsets[j] as int, offsets[j + 1] as int);
    let size = (offsets[j + 1] - offsets[j]) as usize;
    lemma_event_coords_bracket(
        Event::LineStringBegin { tagged, size, idx: idx as usize },
        body,
        Event::LineStringEnd { tagged, idx: idx as usize },
    );
    lemma_event_coords_bracket(
        Event::MultiPointBegin { size, idx: idx as usize },
        body,
        Event::MultiPointEnd { idx: idx as usize },
    );
}

/// A walk over the parts of a geometry reports the coordinates of each part,
/// one part after the other.
pub proof fn lemma_lines_coords(x: Seq<u64>, y: Seq<u64>, offsets: Seq<i64>, first: int, n: int)
    requires
        is_offsets(offsets),
        0 <= first,
        0 <= n,
        first + n < offsets.len(),
    ensures
        event_coords(linestrings_events(x, y, offsets, first, n)) == lines_between(
            x,
            y,
            offsets,
            first,
            first + n,
        ).flatten(),
{
    let item = |r: int| linestring_events(x, y, offsets, first + r, false, r);
    let coords = |r: int| line_at(x, y, offsets, first + r);
    assert forall|r: int| 0 <= r < n implies event_coords(#[trigger] item(r)) == coords(r) by {
        lemma_line_coords(x, y, offsets, first + r, false, r);
    }
    lemma_concat_coords(n, item, coords);
}

/// A walk over a polygon or a multi line string reports the coordinates of its
/// rings or line strings, one after the other.
pub proof fn lemma_nested_lines_coords(
    x: Seq<u64>,
    y: Seq<u64>,
    rings: Seq<i64>,
    offsets: Seq<i64>,
    j: int,
    tagged: bool,
    idx: int,
)
    requires
        is_offsets(rings),
        is_offsets(offsets),
        0 <= j,
        j + 1 < rings.len(),
        rings.last() < offsets.len(),
    ensures
        event_coords(polygon_events(x, y, rings, offsets, j, tagged, idx)) == lines_at(
            x,
            y,
            rings,
            offsets,
            j,
        ).flatten(),
        event_coords(multilinestring_events(x, y, rings, offsets, j, idx)) == lines_at(
            x,
            y,
            rings,
            offsets,
            j,
        ).flatten(),
{
    let first = rings[j] as int;
    let n = rings[j + 1] - rings[j];
    lemma_lines_coords(x, y, offsets, first, n);
    let body = linestrings_events(x, y, offsets, first, n);
    lemma_event_coords_bracket(
        Event::PolygonBegin { tagged, size: n as usize, idx: idx as usize },
        body,
        Event::PolygonEnd { tagged, idx: idx as usize },
    );
    lemma_event_coords_bracket(
        Event::MultiLineStringBegin { size: n as usize, idx: idx as usize },
        body,
        Event::MultiLineStringEnd { idx: idx as usize },
    );
}

/// A walk over a multi polygon reports the coordinates of the rings of its
/// polygons, one polygon after the other.
pub proof fn lemma_polygons_coords(
    x: Seq<u64>,
    y: Seq<u64>,
    polygons: Seq<i64>,
    rings: Seq<i64>,
    offsets: Seq<i64>,
    j: int,
    idx: int,
)
    requires
        is_offsets(polygons),
        is_offsets(rings),
        is_offsets(offsets),
        0 <= j,
        j + 1 < polygons.len(),
        polygons.last() < rings.len(),
        rings.last() < offsets.len(),
    ensures
        event_coords(multipolygon_events(x, y, polygons, rings, offsets, j, idx)) == Seq::new(
            (polygons[j + 1] - polygons[j]) as nat,
            |p: int| lines_at(x, y, rings, offsets, polygons[j] + p).flatten(),
        ).flatten(),
{
    let first = polygons[j] as int;
    let n = polygons[j + 1] - polygons[j];
    let item = |p: int| polygon_events(x, y, rings, offsets, first + p, false, p);
    let coords = |p: int| lines_at(x, y, rings, offsets, polygons[j] + p).flatten();
    assert forall|p: int| 0 <= p < n implies event_coords(#[trigger] item(p)) == coords(p) by {
        lemma_nested_lines_coords(x, y, rings, offsets, first + p, false, p);
    }
    lemma_concat_coords(n, item, coords);
    lemma_event_coords_bracket(
        Event::MultiPolygonBegin { size: n as usize, idx: idx as usize },
        polygons_events(x, y, rings, offsets, first, n),
        Event::MultiPolygonEnd { idx: idx as usize },
    );
}

/// The coordinates of geometry `i`, as reading its view part by part hands them
/// out: the point itself, the coordinates of a line, those of each line in
/// turn, or those of each ring of each polygon in turn.
pub open spec fn geometry_coords(a: Layout, i: int) -> Seq<Coord> {
    if a.levels.len() == 0 {
        seq![a.point(i)]
    } else if a.levels.len() == 1 {
        a.line(i)
    } else if a.levels.len() == 2 {
        a.lines(i).flatten()
    } else {
        a.polygons(i).map_values(|rings: Seq<Seq<Coord>>| rings.flatten()).flatten()
    }
}

/// The coordinates of all geometries of an array, one geometry after the other.
pub open spec fn array_coords(a: Layout) -> Seq<Coord> {
    Seq::new(a.len() as nat, |i: int| geometry_coords(a, i)).flatten()
}

/// The walk over an array of any kind reports the coordinates that reading the
/// geometries one by one gives: for every valid array, the coordinates among
/// the events of its walk are `array_coords`.
pub proof fn lemma_walk_coords(a: Layout)
    requires
        a.wf(),
        a.levels.len() <= 3,
    ensures
        a.levels.len() == 0 ==> event_coords(point_array_events(a)) == array_coords(a),
        a.levels.len() == 1 ==> event_coords(linestring_array_events(a)) == array_coords(a),
        a.levels.len() == 1 ==> event_coords(multipoint_array_events(a)) == array_coords(a),
        a.levels.len() == 2 ==> event_coords(polygon_array_events(a)) == array_coords(a),
        a.levels.len() == 2 ==> event_coords(multilinestring_array_events(a)) == array_coords(a),
        a.levels.len() == 3 ==> event_coords(multipolygon_array_events(a)) == array_coords(a),
{
    let n = a.len();
    let coords = |i: int| geometry_coords(a, i);
    let begin = Event::GeometryCollectionBegin { size: n as usize, idx: 0 };
    let end = Event::GeometryCollectionEnd { idx: crate::event::last_index(n) as usize };
    if a.levels.len() == 0 {
        let item = |i: int| point_events(a.x, a.y, i, i);
        assert forall|i: int| 0 <= i < n implies event_coords(#[trigger] item(i)) == coords(i) by {
            let xy = Event::Xy { x: a.x[i], y: a.y[i], idx: 0 };
            lemma_event_coords_bracket(
                Event::PointBegin { idx: i as usize },
                seq![xy],
                Event::PointEnd { idx: i as usize },
            );
            lemma_event_coords_one(xy);
            assert(item(i) =~= seq![Event::PointBegin { idx: i as usize }] + seq![xy] + seq![
                Event::PointEnd { idx: i as usize },
            ]);
        }
        lemma_concat_coords(n, item, coords);
        lemma_event_coords_bracket(begin, concat_events(n, item), end);
    } else {
        let geoms = a.levels[0];
        if a.levels.len() == 1 {
            let lines = |i: int| linestring_events(a.x, a.y, a.levels[0], i, true, i);
            let points = |i: int| multipoint_events(a.x, a.y, a.levels[0], i, i);
            assert forall|i: int| 0 <= i < n implies event_coords(#[trigger] lines(i)) == coords(
                i,
            ) by {
                lemma_line_coords(a.x, a.y, geoms, i, true, i);
            }
            assert forall|i: int| 0 <= i < n implies event_coords(#[trigger] points(i)) == coords(
                i,
            ) by {
                lemma_line_coords(a.x, a.y, geoms, i, true, i);
            }
            lemma_concat_coords(n, lines, coords);
            lemma_concat_coords(n, points, coords);
            lemma_event_coords_bracket(begin, concat_events(n, lines), end);
            lemma_event_coords_bracket(begin, concat_events(n, points), end);
        } else if a.levels.len() == 2 {
            let polygons = |i: int| polygon_events(a.x, a.y, a.levels[0], a.levels[1], i, true, i);
            let lines = |i: int| multilinestring_events(a.x, a.y, a.levels[0], a.levels[1], i, i);
            assert forall|i: int| 0 <= i < n implies event_coords(#[trigger] polygons(i))
                == coords(i) by {
                lemma_nested_lines_coords(a.x, a.y, a.levels[0], a.levels[1], i, true, i);
            }
            assert forall|i: int| 0 <= i < n implies event_coords(#[trigger] lines(i)) == coords(
                i,
            ) by {
                lemma_nested_lines_coords(a.x, a.y, a.levels[0], a.levels[1], i, true, i);
            }
            lemma_concat_coords(n, polygons, coords);
            lemma_concat_coords(n, lines, coords);
            lemma_event_coords_bracket(begin, concat_events(n, polygons), end);
            lemma_event_coords_bracket(begin, concat_events(n, lines), end);
        } else {
            let item = |i: int|
                multipolygon_events(a.x, a.y, a.levels[0], a.levels[1], a.levels[2], i, i);
            assert forall|i: int| 0 <= i < n implies event_coords(#[trigger] item(i)) == coords(
                i,
            ) by {
                lemma_polygons_coords(a.x, a.y, a.levels[0], a.levels[1], a.levels[2], i, i);
                assert(a.polygons(i).map_values(|rings: Seq<Seq<Coord>>| rings.flatten())
                    =~= Seq::new(
                    (geoms[i + 1] - geoms[i]) as nat,
                    |p: int| lines_at(a.x, a.y, a.levels[1], a.levels[2], geoms[i] + p).flatten(),
                ));
            }
            lemma_concat_coords(n, item, coords);
            lemma_event_coords_bracket(begin, concat_events(n, item), end);
        }
    }
}

} // verus!
