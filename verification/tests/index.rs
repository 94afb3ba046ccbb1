use geoarrow::{Coord, MultiPointArray, MultiPolygonArray};
use rstar::{RTree, RTreeObject, AABB};

fn c(x: f64, y: f64) -> Coord {
    Coord { x: x.to_bits(), y: y.to_bits() }
}

struct Entry {
    index: usize,
    envelope: AABB<[f64; 2]>,
}

impl RTreeObject for Entry {
    type Envelope = AABB<[f64; 2]>;

    fn envelope(&self) -> Self::Envelope {
        self.envelope
    }
}

fn envelope(coords: &[Coord]) -> AABB<[f64; 2]> {
    let points: Vec<[f64; 2]> =
        coords.iter().map(|c| [f64::from_bits(c.x), f64::from_bits(c.y)]).collect();
    AABB::from_points(points.iter())
}

#[test]
fn an_index_over_the_whole_extent_finds_exactly_the_geometries_that_are_not_null() {
    let arr = MultiPointArray::from_geo_options(&vec![
        Some(vec![c(0., 0.), c(1., 1.)]),
        None,
        Some(vec![c(-5., 2.)]),
        None,
        Some(vec![c(7., -3.), c(8., 9.)]),
    ]);
    let entries: Vec<Entry> = arr
        .iter()
        .into_iter()
        .enumerate()
        .filter_map(|(index, g)| g.map(|g| Entry { index, envelope: envelope(&g.to_geo()) }))
        .collect();
    let tree = RTree::bulk_load(entries);
    assert_eq!(tree.size(), 3);
    let everything = AABB::from_corners([-5., -3.], [8., 9.]);
    let mut found: Vec<usize> =
        tree.locate_in_envelope_intersecting(&everything).map(|e| e.index).collect();
    found.sort();
    let not_null: Vec<usize> = (0..arr.len()).filter(|i| !arr.is_null(*i)).collect();
    assert_eq!(found, not_null);
    assert_eq!(found, vec![0, 2, 4]);
    let corner = AABB::from_corners([6., -4.], [9., 10.]);
    let found: Vec<usize> = tree.locate_in_envelope_intersecting(&corner).map(|e| e.index).collect();
    assert_eq!(found, vec![4]);
}

#[test]
fn an_index_of_multipolygons_keeps_one_entry_for_each_that_is_present() {
    let square = |x: f64| vec![vec![c(x, 0.), c(x, 1.), c(x + 1., 1.), c(x + 1., 0.), c(x, 0.)]];
    let arr = MultiPolygonArray::from_geo_options(&vec![
        None,
        Some(vec![square(0.), square(10.)]),
        Some(vec![square(20.)]),
    ]);
    let entries: Vec<Entry> = arr
        .iter()
        .into_iter()
        .enumerate()
        .filter_map(|(index, g)| {
            g.map(|g| {
                let coords: Vec<Coord> = g.to_geo().into_iter().flatten().flatten().collect();
                Entry { index, envelope: envelope(&coords) }
            })
        })
        .collect();
    let tree = RTree::bulk_load(entries);
    let everything = AABB::from_corners([0., 0.], [21., 1.]);
    let mut found: Vec<usize> =
        tree.locate_in_envelope_intersecting(&everything).map(|e| e.index).collect();
    found.sort();
    assert_eq!(found, vec![1, 2]);
}
