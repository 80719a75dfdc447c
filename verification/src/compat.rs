//! The closure-marshaling layer: a capability interface for callables
//! handed across the engine boundary.
//!
//! A callable is wrapped in a class with one fixed signature per
//! arity: single input and single output, vector input and vector
//! output, vector input and single output, pair input and single
//! output, and the three-vector form used for custom gradient rules.
//! The wrapper owns the boxed callable outright; the engine receives a
//! borrowed reference for the duration of one trampoline call and
//! cannot keep it, since every trampoline borrows the wrapper and
//! returns before its caller does.

use vstd::prelude::*;

use crate::array::Array;

verus! {

/// A callable over engine values: one abstract invocation, whose
/// result is pinned to the callable's own specification.
pub trait Function<Args> {
    /// The callable's result type.
    type Output;

    /// What the callable computes.
    spec fn func(&self, args: Args) -> Self::Output;

    /// Invokes the callable.
    fn execute(&self, args: Args) -> (r: Self::Output)
        ensures
            r == self.func(args),
    ;
}

/// The callable that hands its inputs back unchanged.
pub struct IdentityFn;

impl Function<Vec<Array>> for IdentityFn {
    type Output = Vec<Array>;

    open spec fn func(&self, args: Vec<Array>) -> Vec<Array> {
        args
    }

    fn execute(&self, args: Vec<Array>) -> (r: Vec<Array>) {
        args
    }
}

/// The callable that hands its single input back unchanged.
pub struct IdentityUnaryFn;

impl Function<Array> for IdentityUnaryFn {
    type Output = Array;

    open spec fn func(&self, args: Array) -> Array {
        args
    }

    fn execute(&self, args: Array) -> (r: Array) {
        args
    }
}

/// Ties a wrapper class to the boundary signature it is invoked
/// through.
pub trait CompatFn {
    /// The argument form of the class's fixed boundary signature.
    type Args;

    /// The result form of the class's fixed boundary signature.
    type Output;
}

/// A single-input, single-output callable wrapper.
pub struct UnaryFn<F>(pub Box<F>);

impl<F> CompatFn for UnaryFn<F> {
    type Args = Array;

    type Output = Array;
}

/// A vector-input, vector-output callable wrapper.
pub struct MultiaryFn<F>(pub Box<F>);

impl<F> CompatFn for MultiaryFn<F> {
    type Args = Vec<Array>;

    type Output = Vec<Array>;
}

/// A vector-input, single-output callable wrapper.
pub struct MultiInputSingleOutputFn<F>(pub Box<F>);

impl<F> CompatFn for MultiInputSingleOutputFn<F> {
    type Args = Vec<Array>;

    type Output = Array;
}

/// A pair-input, single-output callable wrapper.
pub struct PairInputSingleOutputFn<F>(pub Box<F>);

impl<F> CompatFn for PairInputSingleOutputFn<F> {
    type Args = (Array, Array);

    type Output = Array;
}

/// The three-vector callable wrapper used for custom gradient rules.
pub struct VjpFn<F>(pub Box<F>);

impl<F> CompatFn for VjpFn<F> {
    type Args = (Vec<Array>, Vec<Array>, Vec<Array>);

    type Output = Vec<Array>;
}

/// The fixed-signature trampoline for the unary class: invokes the
/// wrapped callable on one value.
pub fn execute_unary_fn<F: Function<Array, Output = Array>>(f: &UnaryFn<F>, args: Array) -> (r:
    Array)
    ensures
        r == f.0.func(args),
{
    f.0.execute(args)
}

/// The fixed-signature trampoline for the vector-to-vector class.
pub fn execute_multiary_fn<F: Function<Vec<Array>, Output = Vec<Array>>>(
    f: &MultiaryFn<F>,
    args: Vec<Array>,
) -> (r: Vec<Array>)
    ensures
        r == f.0.func(args),
{
    f.0.execute(args)
}

/// The fixed-signature trampoline for the vector-to-single class.
pub fn execute_multi_input_single_output_fn<F: Function<Vec<Array>, Output = Array>>(
    f: &MultiInputSingleOutputFn<F>,
    args: Vec<Array>,
) -> (r: Array)
    ensures
        r == f.0.func(args),
{
    f.0.execute(args)
}

/// The fixed-signature trampoline for the pair class: invokes the
/// wrapped callable on two values.
pub fn execute_pair_input_single_output_fn<F: Function<(Array, Array), Output = Array>>(
    f: &PairInputSingleOutputFn<F>,
    first: Array,
    second: Array,
) -> (r: Array)
    ensures
        r == f.0.func((first, second)),
{
    f.0.execute((first, second))
}

/// The fixed-signature trampoline for the three-vector class.
pub fn execute_vjp_fn<F: Function<(Vec<Array>, Vec<Array>, Vec<Array>), Output = Vec<Array>>>(
    f: &VjpFn<F>,
    arg1: Vec<Array>,
    arg2: Vec<Array>,
    arg3: Vec<Array>,
) -> (r: Vec<Array>)
    ensures
        r == f.0.func((arg1, arg2, arg3)),
{
    f.0.execute((arg1, arg2, arg3))
}

} // verus!
