//! The optimizer interface: applying gradients to named parameters.

use vstd::prelude::*;

use crate::array::Array;
use crate::error::Exception;

verus! {

/// A flat list of named values, as a module's parameters or gradients
/// are handed around.
pub type FlattenedModuleParam = Vec<(String, Array)>;

/// Trait for optimizers.
///
/// An optimizer holds its own per-parameter state and an update rule;
/// the rule's arithmetic runs in the engine and is not modeled here,
/// so nothing is promised of the updated value.
pub trait Optimizer {
    /// Update a single parameter with the given gradient.
    ///
    /// The implementation looks up its state for the parameter under
    /// the key and updates the state and the parameter accordingly.
    fn apply_single(&mut self, key: &String, gradient: &Array, parameter: &mut Array) -> Result<
        (),
        Exception,
    >;

    /// Apply the gradients to the parameters of the model: each
    /// gradient updates the parameter of the same name, gradients that
    /// match no parameter are skipped, and the first failure stops the
    /// pass. Whatever the update rule does to the values, the
    /// parameter list keeps its length and its names.
    fn apply(
        &mut self,
        parameters: &mut FlattenedModuleParam,
        gradients: &FlattenedModuleParam,
    ) -> (r: Result<(), Exception>) where Self: Sized
        ensures
            final(parameters)@.len() == old(parameters)@.len(),
            forall|i: int|
                0 <= i < final(parameters)@.len() ==> final(parameters)@[i].0 == old(
                    parameters,
                )@[i].0,
    {
        let gn = gradients.len();
        let mut g: usize = 0;
        while g < gn
            invariant
                g <= gn,
                gn == gradients@.len(),
                parameters@.len() == old(parameters)@.len(),
                forall|i: int|
                    0 <= i < parameters@.len() ==> parameters@[i].0 == old(parameters)@[i].0,
            decreases gn - g,
        {
            let (key, gradient) = &gradients[g];
            let pn = parameters.len();
            let mut p: usize = 0;
            let mut found: Option<usize> = None;
            while p < pn
                invariant
                    p <= pn,
                    pn == parameters@.len(),
                    match found {
                        Some(idx) => idx < pn,
                        None => true,
                    },
                decreases pn - p,
            {
                if found.is_none() && parameters[p].0 == *key {
                    found = Some(p);
                }
                p += 1;
            }
            if let Some(idx) = found {
                let ghost names_before = parameters@.map(|i: int, kv: (String, Array)| kv.0);
                let (param_key, mut param_value) = parameters.remove(idx);
                let result = self.apply_single(key, gradient, &mut param_value);
                parameters.insert(idx, (param_key, param_value));
                proof {
                    assert forall|i: int|
                        0 <= i < parameters@.len() implies parameters@[i].0 == old(
                        parameters,
                    )@[i].0 by {
                        assert(names_before[i] == old(parameters)@[i].0);
                    }
                }
                if let Err(e) = result {
                    return Err(e);
                }
            }
            g += 1;
        }
        Ok(())
    }
}

} // verus!
