use mlx_rs::array::Array;
use mlx_rs::error::{OperationError, ReshapeError};
use mlx_rs::utils::{all_unique, can_reduce_shape, is_broadcastable, resolve_index, validate_axis};

#[test]
fn test_is_broadcastable() {
    let a = Array::from_slice(&[1, 2, 3], &[3]);
    let b = Array::from_slice(&[2, 2, 2], &[3]);
    assert!(is_broadcastable(a.shape(), b.shape()));

    let a = Array::from_slice(
        &[0, 0, 0, 10, 10, 10, 20, 20, 20, 30, 30, 30],
        &[4, 3],
    );
    let b = Array::from_slice(&[1, 2, 3], &[3]);
    assert!(is_broadcastable(a.shape(), b.shape()));

    let a = Array::from_slice(
        &[1, 2, 3, 4, 5, 6, 7, 8, 1, 2, 3, 4, 5, 6, 7, 8],
        &[2, 2, 4],
    );
    let b = Array::from_slice(&[1, 2, 3, 4, 5, 6, 7, 8], &[2, 4]);
    assert!(is_broadcastable(a.shape(), b.shape()));
}

#[test]
fn test_is_broadcastable_scalar() {
    let a = Array::from_slice(&[1, 2, 3], &[3]);
    let b = Array::from_int(2);
    assert!(is_broadcastable(a.shape(), b.shape()));
}

#[test]
fn test_is_broadcastable_empty() {
    let a = Array::from_slice(&[1, 2, 3], &[3]);
    assert!(is_broadcastable(&[], a.shape()));
}

#[test]
fn test_not_broadcastable() {
    let a = Array::from_slice(&[1, 2, 3], &[3]);
    let b = Array::from_slice(&[2, 2, 2, 2], &[4]);
    assert!(!is_broadcastable(a.shape(), b.shape()));

    let a = Array::from_slice(&[1, 2, 3], &[3]);
    let b = Array::from_slice(&[2, 2], &[1, 2]);
    assert!(!is_broadcastable(a.shape(), b.shape()));
}

#[test]
fn test_can_reshape_to() {
    let a = Array::from_slice(&[1, 2, 3], &[3]);
    assert!(a.can_reshape_to(&[3]).is_ok());
    assert!(a.can_reshape_to(&[1, 3]).is_ok());
    assert!(a.can_reshape_to(&[3, 1]).is_ok());
    assert!(a.can_reshape_to(&[1, 1, 3]).is_ok());
    assert!(a.can_reshape_to(&[1, 3, 1]).is_ok());
    assert!(a.can_reshape_to(&[3, 1, 1]).is_ok());
    assert!(a.can_reshape_to(&[1, 1, 1, 3]).is_ok());
    assert!(a.can_reshape_to(&[1, 1, 3, 1]).is_ok());
    assert!(a.can_reshape_to(&[1, 3, 1, 1]).is_ok());
    assert!(a.can_reshape_to(&[3, 1, 1, 1]).is_ok());
    assert!(a.can_reshape_to(&[1, 1, 1, 1, 3]).is_ok());
    assert!(a.can_reshape_to(&[1, 1, 1, 3, 1]).is_ok());
    assert!(a.can_reshape_to(&[1, 1, 3, 1, 1]).is_ok());
    assert!(a.can_reshape_to(&[1, 3, 1, 1, 1]).is_ok());
    assert!(a.can_reshape_to(&[3, 1, 1, 1, 1]).is_ok());
    assert!(a.can_reshape_to(&[1, 1, 1, 1, 1, 3]).is_ok());
    assert!(a.can_reshape_to(&[1, 1, 1, 1, 3, 1]).is_ok());
    assert!(a.can_reshape_to(&[1, 1, 1, 3, 1, 1]).is_ok());
    assert!(a.can_reshape_to(&[1, 1, 3, 1, 1, 1]).is_ok());
    assert!(a.can_reshape_to(&[1, 3, 1, 1, 1, 1]).is_ok());
    assert!(a.can_reshape_to(&[3, 1, 1, 1, 1, 1]).is_ok());
}

#[test]
fn test_reshape_negative_dim() {
    let a = Array::from_slice(&[1, 2, 3], &[3]);
    assert!(a.can_reshape_to(&[1, -1]).is_ok());
    assert!(a.can_reshape_to(&[-1, 1]).is_ok());
    assert!(a.can_reshape_to(&[-1]).is_ok());
    assert!(a.can_reshape_to(&[1, -1, 1]).is_ok());
    assert!(a.can_reshape_to(&[-1, 1, 1]).is_ok());

    assert!(!a.can_reshape_to(&[1, -2]).is_ok());
}

#[test]
fn test_cannot_reshape_to() {
    let a = Array::from_slice(&[1, 2, 3], &[3]);
    assert!(!a.can_reshape_to(&[2]).is_ok());
    assert!(!a.can_reshape_to(&[2, 2]).is_ok());
    assert!(!a.can_reshape_to(&[2, 2, 2]).is_ok());
    assert!(!a.can_reshape_to(&[2, 2, 2, 2]).is_ok());
    assert!(!a.can_reshape_to(&[2, 2, 2, 2, 2]).is_ok());
    assert!(!a.can_reshape_to(&[2, 2, 2, 2, 2, 2]).is_ok());
}

#[test]
fn reshape_error_variants() {
    let a = Array::from_slice(&[1, 2, 3, 4, 5, 6], &[2, 3]);
    assert!(matches!(a.can_reshape_to(&[-1, -1]), Err(ReshapeError::MultipleInferredDims)));
    assert!(matches!(a.can_reshape_to(&[0, -1]), Err(ReshapeError::EmptyArray)));
    match a.can_reshape_to(&[4, 2]) {
        Err(ReshapeError::InvalidShape { size, shape }) => {
            assert_eq!(size, 6);
            assert_eq!(shape, vec![4, 2]);
        },
        other => panic!("expected a shape mismatch, got {:?}", other),
    }
}

#[test]
fn reshape_wildcard_resolves_product() {
    let a = Array::from_slice(&[1, 2, 3, 4, 5, 6], &[2, 3]);
    assert!(a.can_reshape_to(&[3, -1]).is_ok());
    assert!(a.can_reshape_to(&[-1, 2]).is_ok());
    assert!(a.can_reshape_to(&[-1]).is_ok());
    assert!(a.can_reshape_to(&[4, -1]).is_err());
}

#[test]
fn axis_validation() {
    assert!(validate_axis(3, Some(-1)).is_ok());
    assert_eq!(resolve_index(-1, 3), Some(2));
    match validate_axis(3, Some(3)) {
        Err(OperationError::AxisOutOfBounds { axis, dim }) => {
            assert_eq!(axis, 3);
            assert_eq!(dim, 3);
        },
        other => panic!("expected an out-of-bounds axis, got {:?}", other),
    }
    match validate_axis(3, Some(-4)) {
        Err(OperationError::AxisOutOfBounds { axis, dim }) => {
            assert_eq!(axis, -4);
            assert_eq!(dim, 3);
        },
        other => panic!("expected an out-of-bounds axis, got {:?}", other),
    }
    assert!(validate_axis(0, None).is_ok());
}

#[test]
fn resolve_index_bounds() {
    assert_eq!(resolve_index(0, 3), Some(0));
    assert_eq!(resolve_index(2, 3), Some(2));
    assert_eq!(resolve_index(3, 3), None);
    assert_eq!(resolve_index(-3, 3), Some(0));
    assert_eq!(resolve_index(-4, 3), None);
}

#[test]
fn reduce_axes_validation() {
    assert!(can_reduce_shape(&[2, 3, 4], &[0, 2]).is_ok());
    assert!(can_reduce_shape(&[2, 3, 4], &[-1, 0]).is_ok());
    match can_reduce_shape(&[2, 3, 4], &[3]) {
        Err(OperationError::AxisOutOfBounds { axis, dim }) => {
            assert_eq!(axis, 3);
            assert_eq!(dim, 3);
        },
        other => panic!("expected an out-of-bounds axis, got {:?}", other),
    }
    assert!(matches!(
        can_reduce_shape(&[2, 3, 4], &[0, -3]),
        Err(OperationError::WrongInput(_))
    ));
}

#[test]
fn unique_values() {
    assert!(all_unique(&[1, 2, 3]).is_ok());
    assert_eq!(all_unique(&[1, 2, 1, 3]), Err(1));
    assert!(all_unique(&[]).is_ok());
}
