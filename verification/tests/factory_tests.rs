use mlx_rs::array::Array;
use mlx_rs::device::Device;
use mlx_rs::dtype::Dtype;
use mlx_rs::factory::{
    arange, eye, full, identity, linspace, ones, ones_dtype, repeat, repeat_all, tri, zeros,
    zeros_dtype, zeros_dtype_device, zeros_like_device,
};

/// Reads a float array's elements out of their stored encodings.
fn f32_data(array: &Array) -> Vec<f32> {
    assert_eq!(array.dtype(), Dtype::Float32);
    array
        .data_bits()
        .expect("the array should carry storage")
        .into_iter()
        .map(|b| f32::from_bits(b as u32))
        .collect()
}

fn f32_scalar(val: f32) -> Array {
    Array::scalar_from_bits(Dtype::Float32, val.to_bits() as u64)
}

#[test]
fn test_zeros() {
    let array = zeros_dtype(&[2, 3], Dtype::Float32).unwrap();
    assert_eq!(array.shape(), &[2, 3]);
    assert_eq!(array.dtype(), Dtype::Float32);

    let data = f32_data(&array);
    assert_eq!(data, &[0.0; 6]);
}

#[test]
fn test_zeros_try() {
    let array = zeros_dtype(&[2, 3], Dtype::Float32);
    assert!(array.is_ok());

    let array = zeros_dtype(&[-1, 3], Dtype::Float32);
    assert!(array.is_err());
}

#[test]
fn test_eye() {
    let array = eye(3, None, None, Dtype::Float32).unwrap();
    assert_eq!(array.shape(), &[3, 3]);
    assert_eq!(array.dtype(), Dtype::Float32);

    let data = f32_data(&array);
    assert_eq!(data, &[1.0, 0.0, 0.0, 0.0, 1.0, 0.0, 0.0, 0.0, 1.0]);
}

#[test]
fn test_full_scalar() {
    let array = full(&[2, 3], &f32_scalar(7.0), Dtype::Float32).unwrap();
    assert_eq!(array.shape(), &[2, 3]);
    assert_eq!(array.dtype(), Dtype::Float32);

    let data = f32_data(&array);
    assert_eq!(data, &[7.0; 6]);
}

#[test]
fn test_full_array() {
    let source = zeros_dtype_device(&[1, 3], Dtype::Float32, &Device::default()).unwrap();
    let array = full(&[2, 3], &source, Dtype::Float32).unwrap();
    assert_eq!(array.shape(), &[2, 3]);
    assert_eq!(array.dtype(), Dtype::Float32);

    let data = f32_data(&array);
    assert_eq!(data, &[0.0; 6]);
}

#[test]
fn test_full_try() {
    let source = zeros_dtype_device(&[1, 3], Dtype::Float32, &Device::default()).unwrap();
    let array = full(&[2, 3], &source, Dtype::Float32);
    assert!(array.is_ok());

    let source = zeros_dtype_device(&[1, 3], Dtype::Float32, &Device::default()).unwrap();
    let array = full(&[-1, 3], &source, Dtype::Float32);
    assert!(array.is_err());
}

#[test]
fn test_identity() {
    let array = identity(3, Dtype::Float32).unwrap();
    assert_eq!(array.shape(), &[3, 3]);
    assert_eq!(array.dtype(), Dtype::Float32);

    let data = f32_data(&array);
    assert_eq!(data, &[1.0, 0.0, 0.0, 0.0, 1.0, 0.0, 0.0, 0.0, 1.0]);
}

#[test]
fn test_linspace_try() {
    let array = linspace(0, 50, None, Dtype::Float32);
    assert!(array.is_ok());

    let array = linspace(0, 50, Some(-1), Dtype::Float32);
    assert!(array.is_err());
}

#[test]
fn test_repeat() {
    let source = Array::from_slice(&[0, 1, 2, 3], &[2, 2]);
    let array = repeat(source, 4, 1).unwrap();
    assert_eq!(array.shape(), &[2, 8]);
    assert_eq!(array.dtype(), Dtype::Int32);

    let data = array.as_slice::<i32>();
    assert_eq!(data, [0, 0, 0, 0, 1, 1, 1, 1, 2, 2, 2, 2, 3, 3, 3, 3]);
}

#[test]
fn test_repeat_try() {
    let source = Array::from_slice(&[0, 1, 2, 3], &[2, 2]);
    let array = repeat(source, 4, 1);
    assert!(array.is_ok());

    let source = Array::from_slice(&[0, 1, 2, 3], &[2, 2]);
    let array = repeat(source, -1, 1);
    assert!(array.is_err());
}

#[test]
fn test_repeat_all() {
    let source = Array::from_slice(&[0, 1, 2, 3], &[2, 2]);
    let array = repeat_all(source, 4).unwrap();
    assert_eq!(array.shape(), &[16]);
    assert_eq!(array.dtype(), Dtype::Int32);

    let data = array.as_slice::<i32>();
    assert_eq!(data, [0, 0, 0, 0, 1, 1, 1, 1, 2, 2, 2, 2, 3, 3, 3, 3]);
}

#[test]
fn test_repeat_all_try() {
    let source = Array::from_slice(&[0, 1, 2, 3], &[2, 2]);
    let array = repeat_all(source, 4);
    assert!(array.is_ok());

    let source = Array::from_slice(&[0, 1, 2, 3], &[2, 2]);
    let array = repeat_all(source, -1);
    assert!(array.is_err());
}

#[test]
fn test_tri() {
    let array = tri(3, None, None, Dtype::Float32).unwrap();
    assert_eq!(array.shape(), &[3, 3]);
    assert_eq!(array.dtype(), Dtype::Float32);

    let data = f32_data(&array);
    assert_eq!(data, &[1.0, 0.0, 0.0, 1.0, 1.0, 0.0, 1.0, 1.0, 1.0]);
}

#[test]
fn generic_fills_use_the_element_kind() {
    let array = zeros::<i32>(&[2, 3]).unwrap();
    assert_eq!(array.shape(), &[2, 3]);
    assert_eq!(array.dtype(), Dtype::Int32);
    assert_eq!(array.as_slice::<i32>(), vec![0; 6]);

    let array = ones::<i64>(&[4]).unwrap();
    assert_eq!(array.as_slice::<i64>(), vec![1, 1, 1, 1]);

    // The one-encoding of an inexact kind is the foreign encoding of
    // the value one.
    let f = ones_dtype(&[2], Dtype::Float32).unwrap();
    assert_eq!(f32_data(&f), &[1.0, 1.0]);
}

#[test]
fn zeros_like_matches_input() {
    let input = Array::from_slice(&[5i32, 6], &[2]);
    let z = zeros_like_device(&input, &Device::default()).unwrap();
    assert_eq!(z.shape(), &[2]);
    assert_eq!(z.dtype(), Dtype::Int32);
    assert_eq!(z.as_slice::<i32>(), vec![0, 0]);
}

#[test]
fn eye_accepts_offsets_and_rejects_bad_extents() {
    let offset = eye(2, Some(3), Some(1), Dtype::Int32).unwrap();
    assert_eq!(offset.shape(), &[2, 3]);
    assert_eq!(offset.as_slice::<i32>(), vec![0, 1, 0, 0, 0, 1]);

    assert!(eye(-1, None, None, Dtype::Int32).is_err());
}

#[test]
fn arange_generates_integer_ranges() {
    let array = arange(None, 50, None, Dtype::Int32).unwrap();
    assert_eq!(array.shape(), &[50]);
    assert_eq!(array.dtype(), Dtype::Int32);
    let expected: Vec<i32> = (0..50).collect();
    assert_eq!(array.as_slice::<i32>(), expected);

    let stepped = arange(Some(10), 0, Some(-3), Dtype::Int64).unwrap();
    assert_eq!(stepped.as_slice::<i64>(), vec![10, 7, 4, 1]);

    assert!(arange(None, 50, None, Dtype::Bool).is_err());
    assert!(arange(None, 50, Some(0), Dtype::Int32).is_err());
    assert!(arange(Some(0), i32::MAX as i64 + 1, None, Dtype::Int32).is_err());
}

#[test]
fn full_casts_by_value_between_exact_kinds() {
    let source = Array::from_slice(&[1i32, 2, 3], &[1, 3]);
    let array = full(&[2, 3], &source, Dtype::Int32).unwrap();
    assert_eq!(array.as_slice::<i32>(), vec![1, 2, 3, 1, 2, 3]);

    let cast = full(&[2], &Array::from_slice(&[300i32], &[1]), Dtype::Uint8).unwrap();
    assert_eq!(cast.as_slice::<u8>(), vec![44, 44]);

    let mismatched = Array::from_slice(&[1i32, 2], &[2]);
    assert!(full(&[3], &mismatched, Dtype::Int32).is_err());
}

#[test]
fn linspace_tracks_shape_and_kind() {
    let array = linspace(0, 50, None, Dtype::Float32).unwrap();
    assert_eq!(array.shape(), &[50]);
    assert_eq!(array.dtype(), Dtype::Float32);
    // The fractional samples are not carried: reading them reports an
    // absent buffer.
    assert!(array.data_bits().is_none());
}
