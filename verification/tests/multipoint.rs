use geo::{MultiPoint, Point};
use geoarrow::{Coord, Event, MultiPointArray};
use geozero::{GeomProcessor, GeozeroGeometry, ToWkt};

fn mp0() -> MultiPoint {
    MultiPoint::new(vec![Point::new(0., 1.), Point::new(1., 2.)])
}

fn mp1() -> MultiPoint {
    MultiPoint::new(vec![Point::new(3., 4.), Point::new(5., 6.)])
}

fn to_bits(geometry: &MultiPoint) -> Vec<Coord> {
    geometry.0.iter().map(|p| Coord { x: p.x().to_bits(), y: p.y().to_bits() }).collect()
}

fn to_geo(geometry: &Vec<Coord>) -> MultiPoint {
    MultiPoint::new(
        geometry.iter().map(|c| Point::new(f64::from_bits(c.x), f64::from_bits(c.y))).collect(),
    )
}

struct Walk(Vec<Event>);

impl GeozeroGeometry for Walk {
    fn process_geom<P: GeomProcessor>(&self, p: &mut P) -> geozero::error::Result<()> {
        for event in &self.0 {
            match *event {
                Event::GeometryCollectionBegin { size, idx } => p.geometrycollection_begin(size, idx)?,
                Event::GeometryCollectionEnd { idx } => p.geometrycollection_end(idx)?,
                Event::MultiPointBegin { size, idx } => p.multipoint_begin(size, idx)?,
                Event::MultiPointEnd { idx } => p.multipoint_end(idx)?,
                Event::Xy { x, y, idx } => p.xy(f64::from_bits(x), f64::from_bits(y), idx)?,
                _ => unreachable!(),
            }
        }
        Ok(())
    }
}

#[test]
fn array_geo_roundtrip_accurate() {
    let arr = MultiPointArray::from_geo(&vec![to_bits(&mp0()), to_bits(&mp1())]);
    assert_eq!(to_geo(&arr.value_as_geo(0)), mp0());
    assert_eq!(to_geo(&arr.value_as_geo(1)), mp1());
}

#[test]
fn array_geo_roundtrip_accurate_option_vec() {
    let arr = MultiPointArray::from_geo_options(&vec![
        Some(to_bits(&mp0())),
        Some(to_bits(&mp1())),
        None,
    ]);
    assert_eq!(arr.get_as_geo(0).map(|g| to_geo(&g)), Some(mp0()));
    assert_eq!(arr.get_as_geo(1).map(|g| to_geo(&g)), Some(mp1()));
    assert_eq!(arr.get_as_geo(2).map(|g| to_geo(&g)), None);
}

#[test]
fn array_geozero_process_geom() -> geozero::error::Result<()> {
    let arr = MultiPointArray::from_geo(&vec![to_bits(&mp0()), to_bits(&mp1())]);
    let wkt = Walk(arr.process_geom()).to_wkt()?;
    let expected = "GEOMETRYCOLLECTION(MULTIPOINT(0 1,1 2),MULTIPOINT(3 4,5 6))";
    assert_eq!(wkt, expected);
    Ok(())
}

#[test]
fn slice() {
    let arr = MultiPointArray::from_geo(&vec![to_bits(&mp0()), to_bits(&mp1())]);
    let arr = arr.slice(1, 1).unwrap();
    assert_eq!(arr.len(), 1);
    assert_eq!(arr.get_as_geo(0).map(|g| to_geo(&g)), Some(mp1()));
}
