use arrow2::buffer::Buffer;
use geoarrow::{GeoArrowError, MultiPointArray, Offsets};

fn bits(values: &[f64]) -> Buffer<u64> {
    Buffer::from(values.iter().map(|v| v.to_bits()).collect::<Vec<u64>>())
}

#[test]
fn try_new_rejects_pools_of_different_lengths() {
    let offsets = Offsets::try_new(vec![0, 1]).unwrap();
    let r = MultiPointArray::try_new(bits(&[0., 1.]), bits(&[1.]), offsets, None);
    assert!(matches!(r, Err(GeoArrowError::InvariantViolation)));
}

#[test]
fn checked_slice_past_the_end_is_a_bounds_error() {
    let offsets = Offsets::try_new(vec![0, 1, 2]).unwrap();
    let arr = MultiPointArray::try_new(bits(&[0., 1.]), bits(&[1., 2.]), offsets, None).unwrap();
    assert!(matches!(arr.slice(1, 2), Err(GeoArrowError::BoundsViolation)));
    assert_eq!(arr.slice(1, 1).unwrap().len(), 1);
}
