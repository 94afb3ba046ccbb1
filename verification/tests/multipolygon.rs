use geo::{Coord as GeoCoord, LineString, MultiPolygon, Polygon};
use geoarrow::{Coord, Event, MultiPolygonArray};
use geozero::{GeomProcessor, GeozeroGeometry, ToWkt};

fn line(points: &[(f64, f64)]) -> LineString {
    LineString::new(points.iter().map(|p| GeoCoord { x: p.0, y: p.1 }).collect())
}

fn mp0() -> MultiPolygon {
    MultiPolygon::new(vec![
        Polygon::new(line(&[(-111., 45.), (-111., 41.), (-104., 41.), (-104., 45.)]), vec![]),
        Polygon::new(
            line(&[(-111., 45.), (-111., 41.), (-104., 41.), (-104., 45.)]),
            vec![line(&[(-110., 44.), (-110., 42.), (-105., 42.), (-105., 44.)])],
        ),
    ])
}

fn mp1() -> MultiPolygon {
    MultiPolygon::new(vec![
        Polygon::new(line(&[(-111., 45.), (-111., 41.), (-104., 41.), (-104., 45.)]), vec![]),
        Polygon::new(line(&[(-110., 44.), (-110., 42.), (-105., 42.), (-105., 44.)]), vec![]),
    ])
}

fn ring_bits(ring: &LineString) -> Vec<Coord> {
    ring.0.iter().map(|c| Coord { x: c.x.to_bits(), y: c.y.to_bits() }).collect()
}

fn to_bits(geometry: &MultiPolygon) -> Vec<Vec<Vec<Coord>>> {
    geometry
        .0
        .iter()
        .map(|polygon| {
            let mut rings = vec![ring_bits(polygon.exterior())];
            rings.extend(polygon.interiors().iter().map(ring_bits));
            rings
        })
        .collect()
}

fn ring_geo(ring: &Vec<Coord>) -> LineString {
    LineString::new(
        ring.iter().map(|c| GeoCoord { x: f64::from_bits(c.x), y: f64::from_bits(c.y) }).collect(),
    )
}

fn to_geo(geometry: &Vec<Vec<Vec<Coord>>>) -> MultiPolygon {
    MultiPolygon::new(
        geometry
            .iter()
            .map(|rings| Polygon::new(ring_geo(&rings[0]), rings[1..].iter().map(ring_geo).collect()))
            .collect(),
    )
}

struct Walk(Vec<Event>);

impl GeozeroGeometry for Walk {
    fn process_geom<P: GeomProcessor>(&self, p: &mut P) -> geozero::error::Result<()> {
        for event in &self.0 {
            match *event {
                Event::GeometryCollectionBegin { size, idx } => p.geometrycollection_begin(size, idx)?,
                Event::GeometryCollectionEnd { idx } => p.geometrycollection_end(idx)?,
                Event::PointBegin { idx } => p.point_begin(idx)?,
                Event::PointEnd { idx } => p.point_end(idx)?,
                Event::MultiPointBegin { size, idx } => p.multipoint_begin(size, idx)?,
                Event::MultiPointEnd { idx } => p.multipoint_end(idx)?,
                Event::LineStringBegin { tagged, size, idx } => p.linestring_begin(tagged, size, idx)?,
                Event::LineStringEnd { tagged, idx } => p.linestring_end(tagged, idx)?,
                Event::MultiLineStringBegin { size, idx } => p.multilinestring_begin(size, idx)?,
                Event::MultiLineStringEnd { idx } => p.multilinestring_end(idx)?,
                Event::PolygonBegin { tagged, size, idx } => p.polygon_begin(tagged, size, idx)?,
                Event::PolygonEnd { tagged, idx } => p.polygon_end(tagged, idx)?,
                Event::MultiPolygonBegin { size, idx } => p.multipolygon_begin(size, idx)?,
                Event::MultiPolygonEnd { idx } => p.multipolygon_end(idx)?,
                Event::Xy { x, y, idx } => p.xy(f64::from_bits(x), f64::from_bits(y), idx)?,
            }
        }
        Ok(())
    }
}

#[test]
fn geo_roundtrip_accurate() {
    let arr = MultiPolygonArray::from_geo(&vec![to_bits(&mp0()), to_bits(&mp1())]);
    assert_eq!(to_geo(&arr.value_as_geo(0)), mp0());
    assert_eq!(to_geo(&arr.value_as_geo(1)), mp1());
}

#[test]
fn geo_roundtrip_accurate_option_vec() {
    let arr = MultiPolygonArray::from_geo_options(&vec![
        Some(to_bits(&mp0())),
        Some(to_bits(&mp1())),
        None,
    ]);
    assert_eq!(arr.get_as_geo(0).map(|g| to_geo(&g)), Some(mp0()));
    assert_eq!(arr.get_as_geo(1).map(|g| to_geo(&g)), Some(mp1()));
    assert_eq!(arr.get_as_geo(2).map(|g| to_geo(&g)), None);
}

#[test]
fn geozero_process_geom() -> geozero::error::Result<()> {
    let arr = MultiPolygonArray::from_geo(&vec![to_bits(&mp0()), to_bits(&mp1())]);
    let wkt = Walk(arr.process_geom()).to_wkt()?;
    let expected = "GEOMETRYCOLLECTION(MULTIPOLYGON(((-111 45,-111 41,-104 41,-104 45,-111 45)),((-111 45,-111 41,-104 41,-104 45,-111 45),(-110 44,-110 42,-105 42,-105 44,-110 44))),MULTIPOLYGON(((-111 45,-111 41,-104 41,-104 45,-111 45)),((-110 44,-110 42,-105 42,-105 44,-110 44))))";
    assert_eq!(wkt, expected);
    Ok(())
}

#[test]
fn multipolygon_slice_keeps_the_second_geometry() {
    let arr = MultiPolygonArray::from_geo(&vec![to_bits(&mp0()), to_bits(&mp1())]);
    let sliced = arr.slice(1, 1).unwrap();
    assert_eq!(sliced.len(), 1);
    assert_eq!(sliced.get_as_geo(0).map(|g| to_geo(&g)), Some(mp1()));
}
