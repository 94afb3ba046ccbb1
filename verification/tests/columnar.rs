use arrow2::array::{Array, ListArray, PrimitiveArray, StructArray};
use arrow2::buffer::Buffer;
use arrow2::datatypes::{DataType, Field};
use arrow2::offset::OffsetsBuffer;
use geoarrow::columnar::{Column, Primitive};
use geoarrow::{
    Coord, GeoArrowError, GeometryArray, LineStringArray, MultiPointArray, MultiPolygonArray,
    MutableWKBArray, Offsets, PointArray, PolygonArray, WKBArray,
};

fn c(x: f64, y: f64) -> Coord {
    Coord { x: x.to_bits(), y: y.to_bits() }
}

fn floats(values: &Buffer<u64>) -> Buffer<f64> {
    values.iter().map(|v| f64::from_bits(*v)).collect::<Vec<f64>>().into()
}

fn to_arrow2(column: Column) -> Box<dyn Array> {
    match column {
        Column::Struct { children, validity } => {
            let mut fields = vec![];
            let mut values = vec![];
            for child in children {
                match child {
                    Primitive::Float64 { name, nullable, values: v, validity } => {
                        fields.push(Field::new(name, DataType::Float64, nullable));
                        values.push(PrimitiveArray::new(DataType::Float64, floats(&v), validity).boxed());
                    }
                    Primitive::Other => panic!("the library writes coordinates only"),
                }
            }
            StructArray::new(DataType::Struct(fields), values, validity).boxed()
        }
        Column::LargeList { name, nullable, offsets, values, validity } => {
            let values = to_arrow2(*values);
            let data_type =
                DataType::LargeList(Box::new(Field::new(name, values.data_type().clone(), nullable)));
            let offsets = OffsetsBuffer::try_from(offsets.to_vec()).unwrap();
            ListArray::<i64>::new(data_type, offsets, values, validity).boxed()
        }
        _ => panic!("not an encoding of coordinates"),
    }
}

fn two_multipolygons() -> Vec<Option<Vec<Vec<Vec<Coord>>>>> {
    vec![
        Some(vec![
            vec![vec![c(0., 0.), c(0., 1.), c(1., 1.), c(0., 0.)]],
            vec![vec![c(5., 5.), c(5., 6.), c(6., 6.), c(5., 5.)], vec![c(7., 7.)]],
        ]),
        None,
        Some(vec![vec![vec![c(9., 9.)]]]),
    ]
}

#[test]
fn multipolygons_are_encoded_as_three_lists_around_a_struct() {
    let arr = MultiPolygonArray::from_geo_options(&two_multipolygons());
    let array = to_arrow2(arr.into_arrow());
    let coords = DataType::Struct(vec![
        Field::new("x", DataType::Float64, false),
        Field::new("y", DataType::Float64, false),
    ]);
    let inner = DataType::LargeList(Box::new(Field::new("vertices", coords, false)));
    let middle = DataType::LargeList(Box::new(Field::new("rings", inner, false)));
    let outer = DataType::LargeList(Box::new(Field::new("polygons", middle, true)));
    assert_eq!(array.data_type(), &outer);
    assert_eq!(array.len(), 3);
    assert_eq!(array.null_count(), 1);
    let list = array.as_any().downcast_ref::<ListArray<i64>>().unwrap();
    assert_eq!(list.offsets().as_slice(), &[0, 2, 2, 3]);
    let polygons = list.values().as_any().downcast_ref::<ListArray<i64>>().unwrap();
    assert_eq!(polygons.offsets().as_slice(), &[0, 1, 3, 4]);
    let rings = polygons.values().as_any().downcast_ref::<ListArray<i64>>().unwrap();
    assert_eq!(rings.offsets().as_slice(), &[0, 4, 8, 9, 10]);
    let coords = rings.values().as_any().downcast_ref::<StructArray>().unwrap();
    let x = coords.values()[0].as_any().downcast_ref::<PrimitiveArray<f64>>().unwrap();
    assert_eq!(x.values().as_slice(), &[0., 0., 1., 0., 5., 5., 6., 5., 7., 9.]);
}

#[test]
fn multipoints_are_encoded_as_one_list_of_vertices() {
    let arr = MultiPointArray::from_geo(&vec![vec![c(0., 1.), c(1., 2.)], vec![c(3., 4.)]]);
    let array = to_arrow2(arr.into_arrow());
    let coords = DataType::Struct(vec![
        Field::new("x", DataType::Float64, false),
        Field::new("y", DataType::Float64, false),
    ]);
    assert_eq!(
        array.data_type(),
        &DataType::LargeList(Box::new(Field::new("vertices", coords, true)))
    );
    assert_eq!(array.null_count(), 0);
}

#[test]
fn decoding_what_was_encoded_gives_the_array_back() {
    let values = two_multipolygons();
    let arr = MultiPolygonArray::from_geo_options(&values);
    let back = MultiPolygonArray::try_from(arr.clone().into_arrow()).ok().unwrap();
    assert_eq!(back.len(), arr.len());
    assert_eq!(back.iter_geo(), values);
    assert_eq!(back.process_geom(), arr.process_geom());
    let points = PointArray::from_geo_options(&vec![Some(c(1., 2.)), None]);
    let back = PointArray::try_from(points.clone().into_arrow()).ok().unwrap();
    assert_eq!(back.get_as_geo(0), Some(c(1., 2.)));
    assert_eq!(back.get_as_geo(1), None);
    let sliced = arr.slice(2, 1).unwrap();
    let back = MultiPolygonArray::try_from(sliced.into_arrow()).ok().unwrap();
    assert_eq!(back.iter_geo(), vec![values[2].clone()]);
}

#[test]
fn the_kind_follows_from_the_shape_and_the_flag() {
    let lines = vec![vec![c(0., 1.), c(1., 2.)]];
    let column = || LineStringArray::from_geo(&lines).into_arrow();
    assert!(matches!(GeometryArray::from_arrow(column(), false), Ok(GeometryArray::LineString(_))));
    assert!(matches!(GeometryArray::from_arrow(column(), true), Ok(GeometryArray::MultiPoint(_))));
    let rings = vec![vec![vec![c(0., 1.), c(1., 2.)]]];
    let column = || PolygonArray::from_geo(&rings).into_arrow();
    assert!(matches!(GeometryArray::from_arrow(column(), false), Ok(GeometryArray::Polygon(_))));
    assert!(matches!(
        GeometryArray::from_arrow(column(), true),
        Ok(GeometryArray::MultiLineString(_))
    ));
    let column = || MultiPolygonArray::from_geo(&vec![rings.clone()]).into_arrow();
    assert!(matches!(GeometryArray::from_arrow(column(), false), Ok(GeometryArray::MultiPolygon(_))));
    assert!(matches!(GeometryArray::from_arrow(column(), true), Ok(GeometryArray::MultiPolygon(_))));
    let column = || PointArray::from_geo(&vec![c(1., 2.)]).into_arrow();
    assert!(matches!(GeometryArray::from_arrow(column(), true), Ok(GeometryArray::Point(_))));
    let mut builder = MutableWKBArray::new();
    builder.push_geometry(Some(&vec![1, 2]));
    let column = builder.finish().into_arrow();
    match GeometryArray::from_arrow(column, false) {
        Ok(GeometryArray::WKB(arr)) => assert_eq!(arr.value(0).to_vec(), vec![1, 2]),
        _ => panic!("byte strings are encoded geometries"),
    }
}

#[test]
fn a_value_of_another_shape_is_an_incompatible_layout() {
    assert!(matches!(
        GeometryArray::from_arrow(Column::Other, false),
        Err(GeoArrowError::IncompatibleLayout)
    ));
    assert!(matches!(
        GeometryArray::from_arrow(Column::List, true),
        Err(GeoArrowError::IncompatibleLayout)
    ));
    assert!(matches!(MultiPointArray::try_from(Column::List), Err(GeoArrowError::IncompatibleLayout)));
    let points = || PointArray::from_geo(&vec![c(1., 2.)]).into_arrow();
    assert!(matches!(MultiPointArray::try_from(points()), Err(GeoArrowError::IncompatibleLayout)));
    assert!(matches!(WKBArray::try_from(points()), Err(GeoArrowError::IncompatibleLayout)));
    let lines = || LineStringArray::from_geo(&vec![vec![c(0., 1.)]]).into_arrow();
    assert!(matches!(PointArray::try_from(lines()), Err(GeoArrowError::IncompatibleLayout)));
    assert!(matches!(MultiPolygonArray::try_from(lines()), Err(GeoArrowError::IncompatibleLayout)));
    let list_of_other = Column::LargeList {
        name: "vertices".to_string(),
        nullable: true,
        offsets: Offsets::try_new(vec![0]).unwrap(),
        values: Box::new(Column::Other),
        validity: None,
    };
    assert!(matches!(
        GeometryArray::from_arrow(list_of_other, false),
        Err(GeoArrowError::IncompatibleLayout)
    ));
}

#[test]
fn a_struct_must_hold_exactly_two_columns_of_numbers() {
    let column = |n: usize| Column::Struct {
        children: (0..n)
            .map(|_| Primitive::Float64 {
                name: "x".to_string(),
                nullable: false,
                values: Buffer::from(vec![1f64.to_bits()]),
                validity: None,
            })
            .collect(),
        validity: None,
    };
    assert!(matches!(PointArray::try_from(column(1)), Err(GeoArrowError::IncompatibleLayout)));
    assert!(matches!(PointArray::try_from(column(3)), Err(GeoArrowError::IncompatibleLayout)));
    assert!(PointArray::try_from(column(2)).is_ok());
    let mixed = Column::Struct {
        children: vec![
            Primitive::Float64 {
                name: "x".to_string(),
                nullable: false,
                values: Buffer::from(vec![1f64.to_bits()]),
                validity: None,
            },
            Primitive::Other,
        ],
        validity: None,
    };
    assert!(matches!(
        GeometryArray::from_arrow(mixed, false),
        Err(GeoArrowError::IncompatibleLayout)
    ));
}

#[test]
fn a_value_of_the_right_shape_with_invalid_parts_is_an_invariant_violation() {
    let coords = Column::Struct {
        children: vec![
            Primitive::Float64 {
                name: "x".to_string(),
                nullable: false,
                values: Buffer::from(vec![1f64.to_bits()]),
                validity: None,
            },
            Primitive::Float64 {
                name: "y".to_string(),
                nullable: false,
                values: Buffer::from(vec![1f64.to_bits(), 2f64.to_bits()]),
                validity: None,
            },
        ],
        validity: None,
    };
    assert!(matches!(PointArray::try_from(coords), Err(GeoArrowError::InvariantViolation)));
}
