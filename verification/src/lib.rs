//! A safe, verified core for a lazily evaluated tensor engine.
//!
//! The crate models the engine-visible behaviour of a reference-counted
//! tensor handle: a closed element-type lattice with a promotion rule,
//! pure shape and axis validation, an explicitly passed error bridge
//! with a take-and-clear discipline, array values whose element storage
//! is tracked as per-element bit patterns, a capability interface for
//! callables that cross the engine boundary, and a compiled-graph cache
//! whose registrations are tied to the lifetime of their owning wrapper.
//!
//! Element values of the inexact kinds (the 16- and 32-bit floating
//! kinds and the complex kind) are carried as raw encodings; arithmetic
//! on them is outside the model and lives with the caller.

use vstd::prelude::*;

pub mod array;
pub mod compat;
pub mod compile;
pub mod device;
pub mod dtype;
pub mod element;
pub mod error;
pub mod factory;
pub mod optimizer;
pub mod utils;

verus! {

/// A marker trait to prevent external implementations of the `Sealed` trait.
pub trait Sealed {}

} // verus!
