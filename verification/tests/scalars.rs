use geoarrow::geo_traits::{LineStringTrait, MultiLineStringTrait, PointTrait};
use geoarrow::{
    Coord, Geometry, GeometryArray, GeometryValue, LineStringArray, MultiLineStringArray,
    MultiPointArray, MutableWKBArray,
};

fn c(x: f64, y: f64) -> Coord {
    Coord { x: x.to_bits(), y: y.to_bits() }
}

#[test]
fn linestring_point_is_none_from_the_number_of_points_on() {
    let arr = LineStringArray::from_geo(&vec![vec![c(9., 9.)], vec![c(0., 1.), c(2., 3.)]]);
    let line = arr.value(1);
    assert_eq!(line.num_points(), 2);
    assert_eq!(line.point(0).map(|p| p.to_geo()), Some(c(0., 1.)));
    assert_eq!(line.point(1).map(|p| (p.x(), p.y())), Some((2f64.to_bits(), 3f64.to_bits())));
    assert!(line.point(2).is_none());
    assert!(line.point(3).is_none());
    assert_eq!(line.points().len(), 2);
    assert_eq!(line.to_geo(), vec![c(0., 1.), c(2., 3.)]);
}

#[test]
fn multipoint_view_hands_out_its_points() {
    let arr = MultiPointArray::from_geo(&vec![vec![], vec![c(0., 1.), c(2., 3.)]]);
    assert_eq!(arr.value(0).num_points(), 0);
    assert!(arr.value(0).point(0).is_none());
    let points: Vec<Coord> = arr.value(1).points().iter().map(|p| p.to_geo()).collect();
    assert_eq!(points, vec![c(0., 1.), c(2., 3.)]);
}

#[test]
fn multilinestring_trait_reads_views_and_owned_values_alike() {
    let owned = vec![vec![c(0., 1.), c(2., 3.)], vec![c(4., 5.)]];
    let arr = MultiLineStringArray::from_geo(&vec![vec![], owned.clone()]);
    let view = arr.value(1);
    assert_eq!(MultiLineStringTrait::num_lines(&view), 2);
    assert_eq!(MultiLineStringTrait::num_lines(&owned), 2);
    assert!(MultiLineStringTrait::line(&view, 2).is_none());
    assert!(MultiLineStringTrait::line(&owned, 2).is_none());
    let from_view = MultiLineStringTrait::line(&view, 1).unwrap();
    let from_owned = MultiLineStringTrait::line(&owned, 1).unwrap();
    assert_eq!(LineStringTrait::num_points(&from_view), 1);
    assert_eq!(LineStringTrait::num_points(&from_owned), 1);
    let p = LineStringTrait::point(&from_view, 0).unwrap();
    let q = LineStringTrait::point(&from_owned, 0).unwrap();
    assert_eq!((PointTrait::x(&p), PointTrait::y(&p)), (4f64.to_bits(), 5f64.to_bits()));
    assert_eq!((PointTrait::x(&q), PointTrait::y(&q)), (4f64.to_bits(), 5f64.to_bits()));
    assert_eq!(MultiLineStringTrait::lines(&view).len(), 2);
    assert_eq!(MultiLineStringTrait::lines(&owned), owned);
    assert_eq!(LineStringTrait::points(&owned[0]), owned[0]);
}

#[test]
fn array_of_any_kind_forwards_to_its_kind() {
    let arr = GeometryArray::MultiPoint(MultiPointArray::from_geo_options(&vec![
        Some(vec![c(0., 1.)]),
        None,
        Some(vec![c(2., 3.), c(4., 5.)]),
    ]));
    assert_eq!(arr.len(), 3);
    assert!(arr.is_null(1));
    assert!(arr.get(1).is_none());
    assert!(arr.validity().is_some());
    match arr.value(2) {
        Geometry::MultiPoint(g) => assert_eq!(g.num_points(), 2),
        _ => panic!("a multi point array hands out multi points"),
    }
    match arr.value(2).to_geo() {
        GeometryValue::MultiPoint(g) => assert_eq!(g, vec![c(2., 3.), c(4., 5.)]),
        _ => panic!("a multi point is owned as a multi point"),
    }
    let sliced = arr.slice(2, 1).unwrap();
    assert_eq!(sliced.len(), 1);
    assert!(sliced.validity().is_none());
    assert!(arr.slice(3, 1).is_err());
    assert_eq!(arr.to_boxed().len(), 3);
}

#[test]
fn encoded_geometries_are_carried_byte_for_byte() {
    let mut builder = MutableWKBArray::new();
    builder.push_geometry(Some(&vec![1, 2, 3]));
    builder.push_null();
    builder.push_geometry(Some(&vec![]));
    builder.push_geometry(Some(&vec![4, 5]));
    let arr = builder.finish();
    assert_eq!(arr.len(), 4);
    assert_eq!(arr.value(0).to_vec(), vec![1, 2, 3]);
    assert_eq!(arr.value(0).len(), 3);
    assert!(arr.get(1).is_none());
    assert_eq!(arr.value(2).to_vec(), Vec::<u8>::new());
    assert_eq!(arr.value(3).to_vec(), vec![4, 5]);
    let sliced = arr.slice(2, 2).unwrap();
    assert!(sliced.validity().is_none());
    assert_eq!(sliced.value(1).to_vec(), vec![4, 5]);
    let all: Vec<Option<Vec<u8>>> =
        arr.clone().iter().into_iter().map(|g| g.map(|g| g.to_vec())).collect();
    assert_eq!(all, vec![Some(vec![1, 2, 3]), None, Some(vec![]), Some(vec![4, 5])]);
    let any = GeometryArray::WKB(arr);
    match any.value(3).to_geo() {
        GeometryValue::WKB(bytes) => assert_eq!(bytes, vec![4, 5]),
        _ => panic!("encoded geometries are owned as bytes"),
    }
}
