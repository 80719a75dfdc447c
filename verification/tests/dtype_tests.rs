use mlx_rs::dtype::Dtype;

fn all_dtypes() -> Vec<Dtype> {
    vec![
        Dtype::Bool,
        Dtype::Uint8,
        Dtype::Uint16,
        Dtype::Uint32,
        Dtype::Uint64,
        Dtype::Int8,
        Dtype::Int16,
        Dtype::Int32,
        Dtype::Int64,
        Dtype::Float16,
        Dtype::Float32,
        Dtype::Bfloat16,
        Dtype::Complex64,
    ]
}

#[test]
fn promotion_is_commutative_and_total() {
    let dtypes = all_dtypes();
    assert_eq!(dtypes.len(), 13);
    for &a in &dtypes {
        for &b in &dtypes {
            let ab = Dtype::from_promoting_types(a, b);
            let ba = Dtype::from_promoting_types(b, a);
            assert_eq!(ab, ba, "promotion must not depend on operand order");
            assert!(dtypes.contains(&ab), "every pair must promote to a defined kind");
        }
    }
}

#[test]
fn promotion_identity_pairs() {
    for &a in &all_dtypes() {
        assert_eq!(Dtype::from_promoting_types(a, a), a);
    }
}

#[test]
fn promotion_bool_yields_other() {
    for &a in &all_dtypes() {
        assert_eq!(Dtype::from_promoting_types(Dtype::Bool, a), a);
        assert_eq!(Dtype::from_promoting_types(a, Dtype::Bool), a);
    }
}

#[test]
fn promotion_complex_absorbs() {
    for &a in &all_dtypes() {
        assert_eq!(Dtype::from_promoting_types(Dtype::Complex64, a), Dtype::Complex64);
    }
}

#[test]
fn promotion_integer_rules() {
    assert_eq!(Dtype::from_promoting_types(Dtype::Uint8, Dtype::Uint16), Dtype::Uint16);
    assert_eq!(Dtype::from_promoting_types(Dtype::Uint8, Dtype::Int8), Dtype::Int16);
    assert_eq!(Dtype::from_promoting_types(Dtype::Uint8, Dtype::Int16), Dtype::Int16);
    assert_eq!(Dtype::from_promoting_types(Dtype::Uint16, Dtype::Int8), Dtype::Int32);
    assert_eq!(Dtype::from_promoting_types(Dtype::Uint16, Dtype::Int16), Dtype::Int32);
    assert_eq!(Dtype::from_promoting_types(Dtype::Uint32, Dtype::Int8), Dtype::Int64);
    assert_eq!(Dtype::from_promoting_types(Dtype::Uint32, Dtype::Int64), Dtype::Int64);
    assert_eq!(Dtype::from_promoting_types(Dtype::Uint64, Dtype::Int8), Dtype::Float32);
    assert_eq!(Dtype::from_promoting_types(Dtype::Uint64, Dtype::Int64), Dtype::Float32);
    assert_eq!(Dtype::from_promoting_types(Dtype::Int8, Dtype::Int32), Dtype::Int32);
    assert_eq!(Dtype::from_promoting_types(Dtype::Int16, Dtype::Int64), Dtype::Int64);
    assert_eq!(Dtype::from_promoting_types(Dtype::Uint32, Dtype::Uint64), Dtype::Uint64);
}

#[test]
fn promotion_float_rules() {
    assert_eq!(Dtype::from_promoting_types(Dtype::Float16, Dtype::Bfloat16), Dtype::Float32);
    assert_eq!(Dtype::from_promoting_types(Dtype::Float16, Dtype::Int64), Dtype::Float16);
    assert_eq!(Dtype::from_promoting_types(Dtype::Bfloat16, Dtype::Uint32), Dtype::Bfloat16);
    assert_eq!(Dtype::from_promoting_types(Dtype::Float32, Dtype::Float16), Dtype::Float32);
    assert_eq!(Dtype::from_promoting_types(Dtype::Float32, Dtype::Int8), Dtype::Float32);
}

#[test]
fn kind_membership() {
    assert!(Dtype::Complex64.is_complex());
    assert!(!Dtype::Float32.is_complex());
    assert!(Dtype::Float16.is_float());
    assert!(Dtype::Float32.is_float());
    assert!(Dtype::Bfloat16.is_float());
    assert!(!Dtype::Complex64.is_float());
    assert!(!Dtype::Int32.is_float());
    assert!(Dtype::Float16.is_inexact());
    assert!(Dtype::Float32.is_inexact());
    assert!(Dtype::Bfloat16.is_inexact());
    assert!(Dtype::Complex64.is_inexact());
    assert!(!Dtype::Bool.is_inexact());
    assert!(!Dtype::Uint64.is_inexact());
}
