use mlx_rs::array::Array;
use mlx_rs::compile::update_by_replace_with_ref_to_new_array;
use mlx_rs::error::Exception;
use mlx_rs::optimizer::Optimizer;
use mlx_rs::utils::{IntOrPair, IntOrTriple};

/// An update rule that rebinds each parameter to its gradient.
struct TakeGradient;

impl Optimizer for TakeGradient {
    fn apply_single(
        &mut self,
        _key: &String,
        gradient: &Array,
        parameter: &mut Array,
    ) -> Result<(), Exception> {
        update_by_replace_with_ref_to_new_array(parameter, gradient);
        Ok(())
    }
}

/// An update rule that always fails.
struct AlwaysFail;

impl Optimizer for AlwaysFail {
    fn apply_single(
        &mut self,
        _key: &String,
        _gradient: &Array,
        _parameter: &mut Array,
    ) -> Result<(), Exception> {
        Err(Exception { message: "update failed".to_string() })
    }
}

#[test]
fn gradients_update_matching_parameters() {
    let mut optimizer = TakeGradient;
    let mut parameters = vec![
        ("weight".to_string(), Array::from_int(1)),
        ("bias".to_string(), Array::from_int(2)),
    ];
    let gradients = vec![
        ("bias".to_string(), Array::from_int(20)),
        ("unknown".to_string(), Array::from_int(99)),
    ];

    optimizer.apply(&mut parameters, &gradients).unwrap();

    assert_eq!(parameters.len(), 2);
    assert_eq!(parameters[0].0, "weight");
    assert_eq!(parameters[0].1.item::<i32>(), 1);
    assert_eq!(parameters[1].0, "bias");
    assert_eq!(parameters[1].1.item::<i32>(), 20);
}

#[test]
fn a_failing_update_surfaces_its_error() {
    let mut optimizer = AlwaysFail;
    let mut parameters = vec![("weight".to_string(), Array::from_int(1))];
    let gradients = vec![("weight".to_string(), Array::from_int(5))];

    let err = optimizer.apply(&mut parameters, &gradients).unwrap_err();
    assert_eq!(err.message, "update failed");
    assert_eq!(parameters[0].0, "weight");
}

#[test]
fn pooling_window_arguments_expand() {
    assert_eq!(3i32.into_pair(), (3, 3));
    assert_eq!((2i32, 5i32).into_pair(), (2, 5));
    assert_eq!(4i32.into_triple(), (4, 4, 4));
    assert_eq!((1i32, 2i32, 3i32).into_triple(), (1, 2, 3));
}
