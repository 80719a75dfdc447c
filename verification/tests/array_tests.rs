use mlx_rs::array::{Array, FromNested};
use mlx_rs::compile::update_by_replace_with_ref_to_new_array;
use mlx_rs::dtype::Dtype;
use mlx_rs::error::{AsSliceError, ErrorBridge, ItemError};

#[test]
fn new_scalar_array_from_bool() {
    let array = Array::from_bool(true);
    assert!(array.item::<bool>());
    assert_eq!(array.item_size(), 1);
    assert_eq!(array.size(), 1);
    assert!(array.strides().is_empty());
    assert_eq!(array.nbytes(), 1);
    assert_eq!(array.ndim(), 0);
    assert!(array.shape().is_empty());
    assert_eq!(array.dtype(), Dtype::Bool);
}

#[test]
fn new_scalar_array_from_int() {
    let array = Array::from_int(42);
    assert_eq!(array.item::<i32>(), 42);
    assert_eq!(array.item_size(), 4);
    assert_eq!(array.size(), 1);
    assert!(array.strides().is_empty());
    assert_eq!(array.nbytes(), 4);
    assert_eq!(array.ndim(), 0);
    assert!(array.shape().is_empty());
    assert_eq!(array.dtype(), Dtype::Int32);
}

#[test]
fn new_array_from_single_element_slice() {
    let data = [1i32];
    let array = Array::from_slice(&data, &[1]);
    assert_eq!(array.as_slice::<i32>(), &data[..]);
    assert_eq!(array.item::<i32>(), 1);
    assert_eq!(array.item_size(), 4);
    assert_eq!(array.size(), 1);
    assert_eq!(array.strides(), &[1]);
    assert_eq!(array.nbytes(), 4);
    assert_eq!(array.ndim(), 1);
    assert_eq!(array.dim(0), 1);
    assert_eq!(array.shape(), &[1]);
    assert_eq!(array.dtype(), Dtype::Int32);
}

#[test]
fn new_array_from_multi_element_slice() {
    let data = [1i32, 2, 3, 4, 5];
    let array = Array::from_slice(&data, &[5]);
    assert_eq!(array.as_slice::<i32>(), &data[..]);
    assert_eq!(array.item_size(), 4);
    assert_eq!(array.size(), 5);
    assert_eq!(array.strides(), &[1]);
    assert_eq!(array.nbytes(), 20);
    assert_eq!(array.ndim(), 1);
    assert_eq!(array.dim(0), 5);
    assert_eq!(array.shape(), &[5]);
    assert_eq!(array.dtype(), Dtype::Int32);
}

#[test]
fn new_2d_array_from_slice() {
    let data = [1i32, 2, 3, 4, 5, 6];
    let array = Array::from_slice(&data, &[2, 3]);
    assert_eq!(array.as_slice::<i32>(), &data[..]);
    assert_eq!(array.item_size(), 4);
    assert_eq!(array.size(), 6);
    assert_eq!(array.strides(), &[3, 1]);
    assert_eq!(array.nbytes(), 24);
    assert_eq!(array.ndim(), 2);
    assert_eq!(array.dim(0), 2);
    assert_eq!(array.dim(1), 3);
    assert_eq!(array.dim(-1), 3); // negative index
    assert_eq!(array.dim(-2), 2); // negative index
    assert_eq!(array.shape(), &[2, 3]);
    assert_eq!(array.dtype(), Dtype::Int32);
}

#[test]
fn test_array_eq() {
    let data = [1i32, 2, 3, 4, 5];
    let array1 = Array::from_slice(&data, &[5]);
    let array2 = Array::from_slice(&data, &[5]);
    let array3 = Array::from_slice(&[1i32, 2, 3, 4, 6], &[5]);

    assert_eq!(&array1, &array2);
    assert_ne!(&array1, &array3);
}

#[test]
fn array_eq_across_kinds() {
    let a = Array::from_slice(&[1i32, 2, 3], &[3]);
    let b = Array::from_slice(&[1u8, 2, 3], &[3]);
    assert_eq!(&a, &b);
    let c = Array::from_slice(&[1i64, 2, 4], &[3]);
    assert_ne!(&a, &c);
    let d = Array::from_slice(&[1i32, 2, 3], &[3, 1]);
    assert_ne!(&a, &d);
}

#[test]
fn test_array_item_non_scalar() {
    let data = [1i32, 2, 3, 4, 5];
    let array = Array::from_slice(&data, &[5]);
    assert!(array.try_item::<i32>().is_err());
    assert!(matches!(array.try_item::<i32>(), Err(ItemError::NotScalar)));
}

#[test]
fn item_casts_between_integer_kinds() {
    let a = Array::from_slice(&[7u8], &[]);
    assert_eq!(a.item::<i32>(), 7);
    assert_eq!(a.item::<u64>(), 7);
    assert_eq!(a.item::<bool>(), true);

    let b = Array::from_int(300);
    assert_eq!(b.item::<u8>(), 44); // wraps exactly as the numeric cast
    assert_eq!(b.item::<i64>(), 300);

    let c = Array::from_int(-1);
    assert_eq!(c.item::<u8>(), 255);
    assert_eq!(c.item::<i64>(), -1);
    assert_eq!(c.item::<u64>(), u64::MAX);

    let z = Array::from_int(0);
    assert_eq!(z.item::<bool>(), false);
}

#[test]
fn slice_roundtrip_preserves_buffer() {
    let data = [i64::MIN, -1, 0, 1, i64::MAX];
    let array = Array::from_slice(&data, &[5]);
    assert_eq!(array.as_slice::<i64>(), &data[..]);

    let data = [true, false, true];
    let array = Array::from_slice(&data, &[3]);
    assert_eq!(array.as_slice::<bool>(), &data[..]);
}

#[test]
fn slice_kind_must_match_exactly() {
    let array = Array::from_slice(&[1i32, 2, 3], &[3]);
    match array.try_as_slice::<u8>() {
        Err(AsSliceError::DtypeMismatch { expecting, found }) => {
            assert_eq!(expecting, Dtype::Uint8);
            assert_eq!(found, Dtype::Int32);
        },
        other => panic!("expected a kind mismatch, got {:?}", other),
    }
    assert!(array.try_as_slice::<i32>().is_ok());

    let empty = Array::from_slice(&[0i32; 0], &[0]);
    assert!(matches!(empty.try_as_slice::<i32>(), Err(AsSliceError::Null)));
}

#[test]
fn cloned_array_is_independent() {
    let data = [1i32, 2, 3, 4, 5];
    let mut orig = Array::from_slice(&data, &[5]);
    let clone = orig.clone();

    assert_eq!(orig.as_slice::<i32>(), clone.as_slice::<i32>());

    let replacement = Array::from_slice(&[9i32, 9, 9], &[3]);
    update_by_replace_with_ref_to_new_array(&mut orig, &replacement);

    assert_eq!(orig.as_slice::<i32>(), vec![9, 9, 9]);
    assert_eq!(clone.as_slice::<i32>(), &data[..]);
}

#[test]
fn eval_polls_and_clears_the_error_bridge() {
    let mut bridge = ErrorBridge::new();
    assert!(!bridge.is_error_handler_set());

    let mut array = Array::from_int(1);
    assert!(array.eval(&mut bridge).is_ok());
    assert!(bridge.is_error_handler_set());

    // A pending entry left by a failed boundary call is taken by the
    // next evaluation and surfaces as its typed failure.
    bridge.record_error("bad shape".to_string());
    let err = array.eval(&mut bridge).unwrap_err();
    assert_eq!(err.message, "bad shape");

    // The slot was cleared: evaluation is clean again, and redundant
    // handler installation changes nothing.
    assert!(array.eval(&mut bridge).is_ok());
    bridge.setup_error_handler();
    assert!(bridge.is_error_handler_set());
}

#[test]
fn error_bridge_keeps_last_write() {
    let mut bridge = ErrorBridge::new();
    bridge.record_error("first".to_string());
    bridge.record_error("second".to_string());
    let taken = bridge.get_and_clear_last_error().unwrap();
    assert_eq!(taken.message, "second");
    assert!(bridge.get_and_clear_last_error().is_none());
}

#[test]
fn nested_forms_build_arrays() {
    let a = <Array as FromNested<&[i32]>>::from_nested(&[1, 2, 3][..]);
    assert_eq!(a.shape(), &[3]);
    assert_eq!(a.as_slice::<i32>(), vec![1, 2, 3]);

    let b = <Array as FromNested<[u8; 4]>>::from_nested([5, 6, 7, 8]);
    assert_eq!(b.shape(), &[4]);
    assert_eq!(b.as_slice::<u8>(), vec![5, 6, 7, 8]);

    let c = <Array as FromNested<&[i64; 2]>>::from_nested(&[-1, 1]);
    assert_eq!(c.shape(), &[2]);
    assert_eq!(c.as_slice::<i64>(), vec![-1, 1]);
}

#[test]
fn float_scalar_metadata() {
    let array = Array::scalar_from_bits(Dtype::Float32, (3.14f32).to_bits() as u64);
    assert_eq!(array.item_size(), 4);
    assert_eq!(array.size(), 1);
    assert!(array.strides().is_empty());
    assert_eq!(array.nbytes(), 4);
    assert_eq!(array.ndim(), 0);
    assert!(array.shape().is_empty());
    assert_eq!(array.dtype(), Dtype::Float32);
    let bits = array.data_bits().unwrap();
    assert_eq!(f32::from_bits(bits[0] as u32), 3.14);
}

#[test]
fn complex_scalar_metadata() {
    let re = 1.0f32;
    let im = 2.0f32;
    let encoding = (re.to_bits() as u64) | ((im.to_bits() as u64) << 32);
    let array = Array::scalar_from_bits(Dtype::Complex64, encoding);
    assert_eq!(array.item_size(), 8);
    assert_eq!(array.size(), 1);
    assert!(array.strides().is_empty());
    assert_eq!(array.nbytes(), 8);
    assert_eq!(array.ndim(), 0);
    assert!(array.shape().is_empty());
    assert_eq!(array.dtype(), Dtype::Complex64);
    let bits = array.data_bits().unwrap();
    assert_eq!(f32::from_bits(bits[0] as u32), 1.0);
    assert_eq!(f32::from_bits((bits[0] >> 32) as u32), 2.0);
}

#[test]
fn from_iter_matches_from_slice() {
    let data = vec![1i32, 2, 3, 4, 5];
    let array = Array::from_iter(data.clone(), &[5]);
    assert_eq!(array.as_slice::<i32>(), &data[..]);
}
