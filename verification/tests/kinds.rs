use geoarrow::{
    Coord, Event, GeoArrowError, LineStringArray, MultiLineStringArray, MultiPointArray,
    MultiPolygonArray, MutableMultiPointArray, MutableMultiPolygonArray, PointArray, PolygonArray,
};
use geozero::{GeomProcessor, GeozeroGeometry, ToWkt};

fn c(x: f64, y: f64) -> Coord {
    Coord { x: x.to_bits(), y: y.to_bits() }
}

struct Walk(Vec<Event>);

impl GeozeroGeometry for Walk {
    fn process_geom<P: GeomProcessor>(&self, p: &mut P) -> geozero::error::Result<()> {
        for event in &self.0 {
            match *event {
                Event::GeometryCollectionBegin { size, idx } => p.geometrycollection_begin(size, idx)?,
                Event::GeometryCollectionEnd { idx } => p.geometrycollection_end(idx)?,
                Event::PointBegin { idx } => p.point_begin(idx)?,
                Event::PointEnd { idx } => p.point_end(idx)?,
                Event::MultiPointBegin { size, idx } => p.multipoint_begin(size, idx)?,
                Event::MultiPointEnd { idx } => p.multipoint_end(idx)?,
                Event::LineStringBegin { tagged, size, idx } => p.linestring_begin(tagged, size, idx)?,
                Event::LineStringEnd { tagged, idx } => p.linestring_end(tagged, idx)?,
                Event::MultiLineStringBegin { size, idx } => p.multilinestring_begin(size, idx)?,
                Event::MultiLineStringEnd { idx } => p.multilinestring_end(idx)?,
                Event::PolygonBegin { tagged, size, idx } => p.polygon_begin(tagged, size, idx)?,
                Event::PolygonEnd { tagged, idx } => p.polygon_end(tagged, idx)?,
                Event::MultiPolygonBegin { size, idx } => p.multipolygon_begin(size, idx)?,
                Event::MultiPolygonEnd { idx } => p.multipolygon_end(idx)?,
                Event::Xy { x, y, idx } => p.xy(f64::from_bits(x), f64::from_bits(y), idx)?,
            }
        }
        Ok(())
    }
}

#[test]
fn points_come_back_and_a_null_holds_zero_bits() {
    let arr = PointArray::from_geo_options(&vec![Some(c(1., 2.)), None, Some(c(3., 4.))]);
    assert_eq!(arr.len(), 3);
    assert_eq!(arr.get_as_geo(0), Some(c(1., 2.)));
    assert_eq!(arr.get_as_geo(1), None);
    assert_eq!(arr.get_as_geo(2), Some(c(3., 4.)));
    assert_eq!(arr.value_as_geo(1), Coord { x: 0, y: 0 });
    assert!(arr.is_null(1));
    assert!(!arr.is_null(0));
}

#[test]
fn point_walk_is_written_as_text() {
    let arr = PointArray::from_geo(&vec![c(1., 2.), c(3., 4.)]);
    let wkt = Walk(arr.process_geom()).to_wkt().unwrap();
    assert_eq!(wkt, "GEOMETRYCOLLECTION(POINT(1 2),POINT(3 4))");
}

#[test]
fn point_slice_cuts_the_pools() {
    let arr = PointArray::from_geo(&vec![c(1., 2.), c(3., 4.), c(5., 6.)]);
    let sliced = arr.slice(1, 2).unwrap();
    assert_eq!(sliced.len(), 2);
    assert_eq!(sliced.value_as_geo(0), c(3., 4.));
    assert_eq!(sliced.value_as_geo(1), c(5., 6.));
    assert!(matches!(arr.slice(2, 2), Err(GeoArrowError::BoundsViolation)));
}

#[test]
fn linestring_walk_is_written_as_text() {
    let arr = LineStringArray::from_geo(&vec![
        vec![c(0., 1.), c(1., 2.)],
        vec![c(3., 4.), c(5., 6.), c(7., 8.)],
    ]);
    let wkt = Walk(arr.process_geom()).to_wkt().unwrap();
    assert_eq!(wkt, "GEOMETRYCOLLECTION(LINESTRING(0 1,1 2),LINESTRING(3 4,5 6,7 8))");
    assert_eq!(arr.value_as_geo(1), vec![c(3., 4.), c(5., 6.), c(7., 8.)]);
}

#[test]
fn polygon_walk_is_written_as_text() {
    let square = vec![c(0., 0.), c(0., 4.), c(4., 4.), c(4., 0.), c(0., 0.)];
    let hole = vec![c(1., 1.), c(1., 2.), c(2., 2.), c(2., 1.), c(1., 1.)];
    let arr = PolygonArray::from_geo(&vec![vec![square.clone(), hole.clone()], vec![square.clone()]]);
    let wkt = Walk(arr.process_geom()).to_wkt().unwrap();
    assert_eq!(
        wkt,
        "GEOMETRYCOLLECTION(POLYGON((0 0,0 4,4 4,4 0,0 0),(1 1,1 2,2 2,2 1,1 1)),POLYGON((0 0,0 4,4 4,4 0,0 0)))"
    );
    assert_eq!(arr.value_as_geo(0), vec![square.clone(), hole]);
    assert_eq!(arr.value_as_geo(1), vec![square]);
}

#[test]
fn multilinestring_walk_is_written_as_text() {
    let arr = MultiLineStringArray::from_geo_options(&vec![
        Some(vec![vec![c(0., 1.), c(1., 2.)], vec![c(3., 4.), c(5., 6.)]]),
        None,
        Some(vec![vec![c(7., 8.), c(9., 10.)]]),
    ]);
    assert_eq!(arr.len(), 3);
    assert_eq!(arr.get_as_geo(1), None);
    assert_eq!(arr.get_as_geo(2), Some(vec![vec![c(7., 8.), c(9., 10.)]]));
    let sliced = arr.slice(2, 1).unwrap();
    let wkt = Walk(sliced.process_geom()).to_wkt().unwrap();
    assert_eq!(wkt, "GEOMETRYCOLLECTION(MULTILINESTRING((7 8,9 10)))");
}

#[test]
fn multipoint_walk_gives_these_events() {
    let arr = MultiPointArray::from_geo(&vec![vec![c(0., 1.), c(1., 2.)], vec![c(3., 4.)]]);
    let expected = vec![
        Event::GeometryCollectionBegin { size: 2, idx: 0 },
        Event::MultiPointBegin { size: 2, idx: 0 },
        Event::Xy { x: 0f64.to_bits(), y: 1f64.to_bits(), idx: 0 },
        Event::Xy { x: 1f64.to_bits(), y: 2f64.to_bits(), idx: 1 },
        Event::MultiPointEnd { idx: 0 },
        Event::MultiPointBegin { size: 1, idx: 1 },
        Event::Xy { x: 3f64.to_bits(), y: 4f64.to_bits(), idx: 0 },
        Event::MultiPointEnd { idx: 1 },
        Event::GeometryCollectionEnd { idx: 1 },
    ];
    assert_eq!(arr.process_geom(), expected);
}

#[test]
fn multipolygon_walk_gives_these_events() {
    let ring = vec![c(0., 0.), c(0., 1.), c(1., 1.), c(0., 0.)];
    let arr = MultiPolygonArray::from_geo(&vec![vec![vec![ring]]]);
    let xy = |x: f64, y: f64, idx: usize| Event::Xy { x: x.to_bits(), y: y.to_bits(), idx };
    let expected = vec![
        Event::GeometryCollectionBegin { size: 1, idx: 0 },
        Event::MultiPolygonBegin { size: 1, idx: 0 },
        Event::PolygonBegin { tagged: false, size: 1, idx: 0 },
        Event::LineStringBegin { tagged: false, size: 4, idx: 0 },
        xy(0., 0., 0),
        xy(0., 1., 1),
        xy(1., 1., 2),
        xy(0., 0., 3),
        Event::LineStringEnd { tagged: false, idx: 0 },
        Event::PolygonEnd { tagged: false, idx: 0 },
        Event::MultiPolygonEnd { idx: 0 },
        Event::GeometryCollectionEnd { idx: 0 },
    ];
    assert_eq!(arr.process_geom(), expected);
}

#[test]
fn walk_of_an_empty_array_is_a_begin_and_an_end() {
    let arr = MultiPointArray::from_geo(&vec![]);
    assert!(arr.is_empty());
    assert_eq!(
        arr.process_geom(),
        vec![
            Event::GeometryCollectionBegin { size: 0, idx: 0 },
            Event::GeometryCollectionEnd { idx: 0 },
        ]
    );
}

#[test]
fn walk_coordinates_are_those_of_the_geometries_in_order() {
    let geometries = vec![
        vec![vec![vec![c(0., 0.), c(0., 1.)], vec![c(2., 2.)]], vec![vec![c(3., 3.), c(4., 4.)]]],
        vec![],
        vec![vec![vec![c(5., 5.)]]],
    ];
    let arr = MultiPolygonArray::from_geo(&geometries);
    let walked: Vec<Coord> = arr
        .process_geom()
        .iter()
        .filter_map(|e| match *e {
            Event::Xy { x, y, .. } => Some(Coord { x, y }),
            _ => None,
        })
        .collect();
    let mut read = Vec::new();
    for i in 0..arr.len() {
        let geometry = arr.value(i);
        for p in 0..geometry.num_polygons() {
            let polygon = geometry.polygon(p).unwrap();
            for r in 0..polygon.num_rings() {
                let ring = polygon.ring(r).unwrap();
                for k in 0..ring.num_points() {
                    read.push(ring.point(k).unwrap().to_geo());
                }
            }
        }
    }
    assert_eq!(walked, read);
    assert_eq!(walked.len(), 6);
}

#[test]
fn builder_takes_geometries_and_nulls_one_by_one() {
    let mut builder = MutableMultiPointArray::with_capacity(4);
    assert_eq!(builder.len(), 0);
    builder.push_geometry(Some(&vec![c(0., 1.)]));
    builder.push_null();
    builder.push_geometry(Some(&vec![]));
    builder.push_geometry(Some(&vec![c(2., 3.), c(4., 5.)]));
    assert_eq!(builder.len(), 4);
    let arr = builder.finish();
    assert_eq!(arr.len(), 4);
    assert_eq!(
        arr.iter_geo(),
        vec![Some(vec![c(0., 1.)]), None, Some(vec![]), Some(vec![c(2., 3.), c(4., 5.)])]
    );
    assert_eq!(arr.value_as_geo(1), vec![]);
}

#[test]
fn builder_without_a_null_gives_no_mask() {
    let mut builder = MutableMultiPolygonArray::new();
    builder.push_geometry(Some(&vec![vec![vec![c(0., 0.)]]]));
    let arr = builder.finish();
    assert!(arr.validity().is_none());
    let mut builder = MutableMultiPolygonArray::new();
    builder.push_geometry(Some(&vec![vec![vec![c(0., 0.)]]]));
    builder.push_geometry(None);
    let arr = builder.finish();
    assert_eq!(arr.validity().map(|v| v.iter().collect::<Vec<bool>>()), Some(vec![true, false]));
}

#[test]
fn multipoints_read_as_linestrings_keep_their_coordinates() {
    let arr = MultiPointArray::from_geo_options(&vec![Some(vec![c(0., 1.), c(1., 2.)]), None]);
    let lines = arr.into_linestring_array();
    assert_eq!(lines.iter_geo(), vec![Some(vec![c(0., 1.), c(1., 2.)]), None]);
}

#[test]
fn clone_and_boxed_clone_hold_the_same_geometries() {
    let arr = MultiPointArray::from_geo_options(&vec![Some(vec![c(0., 1.)]), None]);
    assert_eq!(arr.clone().iter_geo(), arr.iter_geo());
    assert_eq!(arr.to_boxed().iter_geo(), arr.iter_geo());
}
