use arrow2::bitmap::Bitmap;
use arrow2::buffer::Buffer;
use geoarrow::{Coord, GeoArrowError, MultiPointArray, MultiPolygonArray, Offsets, PointArray};

fn c(x: f64, y: f64) -> Coord {
    Coord { x: x.to_bits(), y: y.to_bits() }
}

fn bits(values: &[f64]) -> Buffer<u64> {
    Buffer::from(values.iter().map(|v| v.to_bits()).collect::<Vec<u64>>())
}

fn five() -> MultiPointArray {
    MultiPointArray::from_geo_options(&vec![
        Some(vec![c(0., 0.)]),
        None,
        Some(vec![c(1., 1.), c(2., 2.)]),
        Some(vec![c(3., 3.)]),
        None,
    ])
}

#[test]
fn get_is_none_exactly_where_the_bit_is_unset() {
    let arr = five();
    let mask: Vec<bool> = arr.validity().unwrap().iter().collect();
    assert_eq!(mask, vec![true, false, true, true, false]);
    for i in 0..arr.len() {
        assert_eq!(arr.get(i).is_none(), !mask[i]);
        assert_eq!(arr.is_null(i), !mask[i]);
    }
}

#[test]
fn without_a_mask_nothing_is_null() {
    let arr = MultiPointArray::from_geo(&vec![vec![c(0., 0.)], vec![]]);
    assert!(arr.validity().is_none());
    assert!(arr.get(0).is_some());
    assert!(arr.get(1).is_some());
}

#[test]
fn slice_keeps_the_mask_only_if_the_window_has_a_null() {
    let arr = five();
    let window = arr.slice(2, 2).unwrap();
    assert!(window.validity().is_none());
    assert_eq!(window.iter_geo(), vec![Some(vec![c(1., 1.), c(2., 2.)]), Some(vec![c(3., 3.)])]);
    let window = arr.slice(1, 3).unwrap();
    let mask: Vec<bool> = window.validity().unwrap().iter().collect();
    assert_eq!(mask, vec![false, true, true]);
    assert_eq!(window.get_as_geo(0), None);
    assert_eq!(window.get_as_geo(1), Some(vec![c(1., 1.), c(2., 2.)]));
}

#[test]
fn slicing_twice_is_slicing_once_at_the_sum() {
    let arr = five();
    for o1 in 0..=5usize {
        for l1 in 0..=(5 - o1) {
            let first = arr.slice(o1, l1).unwrap();
            for o2 in 0..=l1 {
                for l2 in 0..=(l1 - o2) {
                    let twice = first.slice(o2, l2).unwrap();
                    let once = arr.slice(o1 + o2, l2).unwrap();
                    assert_eq!(twice.len(), once.len());
                    assert_eq!(twice.iter_geo(), once.iter_geo());
                    assert_eq!(twice.validity().is_some(), once.validity().is_some());
                    assert_eq!(twice.process_geom(), once.process_geom());
                }
            }
        }
    }
}

#[test]
fn slice_of_length_zero_is_empty() {
    let arr = five();
    let empty = arr.slice(5, 0).unwrap();
    assert_eq!(empty.len(), 0);
    assert!(empty.is_empty());
    assert!(matches!(arr.slice(6, 0), Err(GeoArrowError::BoundsViolation)));
    assert!(matches!(arr.slice(usize::MAX, 2), Err(GeoArrowError::BoundsViolation)));
}

#[test]
fn try_new_rejects_a_mask_of_another_length() {
    let offsets = Offsets::try_new(vec![0, 1, 2]).unwrap();
    let mask = Bitmap::from(vec![true, false, true]);
    let r = MultiPointArray::try_new(bits(&[0., 1.]), bits(&[0., 1.]), offsets, Some(mask));
    assert!(matches!(r, Err(GeoArrowError::InvariantViolation)));
}

#[test]
fn try_new_rejects_offsets_past_the_coordinates() {
    let offsets = Offsets::try_new(vec![0, 1, 3]).unwrap();
    let r = MultiPointArray::try_new(bits(&[0., 1.]), bits(&[0., 1.]), offsets, None);
    assert!(matches!(r, Err(GeoArrowError::InvariantViolation)));
}

#[test]
fn try_new_rejects_levels_that_do_not_fit_each_other() {
    let geoms = Offsets::try_new(vec![0, 3]).unwrap();
    let polygons = Offsets::try_new(vec![0, 1, 2]).unwrap();
    let rings = Offsets::try_new(vec![0, 1, 2]).unwrap();
    let r = MultiPolygonArray::try_new(bits(&[0., 1.]), bits(&[0., 1.]), geoms, polygons, rings, None);
    assert!(matches!(r, Err(GeoArrowError::InvariantViolation)));
    let geoms = Offsets::try_new(vec![0, 2]).unwrap();
    let polygons = Offsets::try_new(vec![0, 1, 2]).unwrap();
    let rings = Offsets::try_new(vec![0, 1, 2]).unwrap();
    let arr =
        MultiPolygonArray::try_new(bits(&[0., 1.]), bits(&[5., 6.]), geoms, polygons, rings, None)
            .unwrap();
    assert_eq!(arr.value_as_geo(0), vec![vec![vec![c(0., 5.)]], vec![vec![c(1., 6.)]]]);
}

#[test]
fn try_new_takes_valid_parts_with_a_mask() {
    let offsets = Offsets::try_new(vec![0, 1, 1, 2]).unwrap();
    let mask = Bitmap::from(vec![true, false, true]);
    let arr =
        MultiPointArray::try_new(bits(&[0., 1.]), bits(&[2., 3.]), offsets, Some(mask)).unwrap();
    assert_eq!(arr.iter_geo(), vec![Some(vec![c(0., 2.)]), None, Some(vec![c(1., 3.)])]);
}

#[test]
fn point_array_checks_its_parts() {
    let r = PointArray::try_new(bits(&[0., 1.]), bits(&[0.]), None);
    assert!(matches!(r, Err(GeoArrowError::InvariantViolation)));
    let r = PointArray::try_new(bits(&[0., 1.]), bits(&[0., 1.]), Some(Bitmap::from(vec![true])));
    assert!(matches!(r, Err(GeoArrowError::InvariantViolation)));
    let arr = PointArray::try_new(bits(&[0., 1.]), bits(&[2., 3.]), Some(Bitmap::from(vec![false, true])))
        .unwrap();
    assert_eq!(arr.get_as_geo(0), None);
    assert_eq!(arr.get_as_geo(1), Some(c(1., 3.)));
    let sliced = arr.slice(1, 1).unwrap();
    assert!(sliced.validity().is_none());
}

#[test]
fn offsets_are_checked_when_made() {
    assert!(matches!(Offsets::try_new(vec![]), Err(GeoArrowError::InvariantViolation)));
    assert!(matches!(Offsets::try_new(vec![-1, 0]), Err(GeoArrowError::InvariantViolation)));
    assert!(matches!(Offsets::try_new(vec![0, 2, 1]), Err(GeoArrowError::InvariantViolation)));
    let offsets = Offsets::try_new(vec![1, 1, 4]).unwrap();
    assert_eq!(offsets.len_proxy(), 2);
    assert_eq!(offsets.last(), 4);
    assert_eq!(offsets.to_vec(), vec![1, 1, 4]);
    assert_eq!(offsets.start_end(1), (1, 4));
    assert!(offsets.fits(4));
    assert!(!offsets.fits(3));
}
