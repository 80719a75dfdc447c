//! Typed failures and the engine's last-error slot.
//!
//! The engine reports failures out of band: a boundary call that fails
//! records a message in a single last-error slot instead of returning it.
//! The slot is carried here as an explicit value, [`ErrorBridge`], so that
//! the take-and-clear discipline is part of every contract that touches
//! it: an owner of a boundary call must poll the slot immediately after
//! the call, or the next write silently overwrites the pending entry.

use vstd::prelude::*;

use crate::dtype::Dtype;

verus! {

/// A failure raised through the error bridge, carrying the recorded
/// message.
#[derive(Debug, Clone, PartialEq, Eq)]
pub struct Exception {
    /// The message the engine recorded for the failed call.
    pub message: String,
}

/// Failure of a scalar extraction.
#[derive(Debug, Clone, PartialEq, Eq)]
pub enum ItemError {
    /// The array holds more or fewer than one element.
    NotScalar,
    /// Materialization failed.
    Exception(Exception),
}

/// Failure of a checked slice access.
#[derive(Debug, Clone, PartialEq, Eq)]
pub enum AsSliceError {
    /// The requested element type does not match the array's element type.
    DtypeMismatch {
        /// The element type the caller asked for.
        expecting: Dtype,
        /// The element type the array holds.
        found: Dtype,
    },
    /// The materialized buffer is absent or empty.
    Null,
    /// Materialization failed.
    Exception(Exception),
}

/// Failure of a shape- or axis-dependent operation.
#[derive(Debug, Clone, PartialEq, Eq)]
pub enum OperationError {
    /// The input breaks a structural rule; the message names it.
    WrongInput(String),
    /// An axis lies outside the array's dimensionality.
    AxisOutOfBounds {
        /// The axis as the caller gave it, before normalization.
        axis: i32,
        /// The dimensionality it was checked against.
        dim: usize,
    },
}

/// Failure of a reshape legality check.
#[derive(Debug, Clone, PartialEq, Eq)]
pub enum ReshapeError {
    /// The target shape holds more than one inferred dimension.
    MultipleInferredDims,
    /// An inferred dimension cannot be solved against an empty extent.
    EmptyArray,
    /// The resolved target does not cover the array's size.
    InvalidShape {
        /// The number of elements the array holds.
        size: usize,
        /// The target shape that failed to match it.
        shape: Vec<i32>,
    },
}

/// The engine's process-wide last-error slot, carried as an explicit
/// value.
///
/// The slot moves between two states: unset, and pending once a failed
/// boundary call records a message. Taking the error returns the slot to
/// unset. A pending entry that is not taken before the next recording is
/// lost: the slot keeps the last write only.
#[derive(Debug)]
pub struct ErrorBridge {
    handler_installed: bool,
    pending: Option<String>,
}

impl ErrorBridge {
    /// The error handler has been installed on this bridge.
    pub closed spec fn handler_installed_spec(&self) -> bool {
        self.handler_installed
    }

    /// The message pending in the slot, if any.
    pub closed spec fn pending_spec(&self) -> Option<Seq<char>> {
        match self.pending {
            Some(m) => Some(m@),
            None => None,
        }
    }

    /// A fresh bridge: no handler installed, nothing pending.
    pub fn new() -> (r: Self)
        ensures
            !r.handler_installed_spec(),
            r.pending_spec() is None,
    {
        ErrorBridge { handler_installed: false, pending: None }
    }

    /// Whether the error handler has been installed.
    pub fn is_error_handler_set(&self) -> (r: bool)
        ensures
            r == self.handler_installed_spec(),
    {
        self.handler_installed
    }

    /// Install the error handler. Installation is idempotent: a redundant
    /// call changes nothing, and a pending entry is kept either way.
    pub fn setup_error_handler(&mut self)
        ensures
            final(self).handler_installed_spec(),
            final(self).pending_spec() == old(self).pending_spec(),
    {
        self.handler_installed = true;
    }

    /// Record a failure message in the slot, as the engine does during a
    /// failed boundary call. A message already pending is overwritten:
    /// the slot keeps the last write only.
    pub fn record_error(&mut self, message: String)
        ensures
            final(self).pending_spec() == Some(message@),
            final(self).handler_installed_spec() == old(self).handler_installed_spec(),
    {
        self.pending = Some(message);
    }

    /// Take the pending error, leaving the slot unset. Returns the
    /// pending entry as a typed failure, or nothing when the slot was
    /// already unset.
    pub fn get_and_clear_last_error(&mut self) -> (r: Option<Exception>)
        ensures
            final(self).pending_spec() is None,
            final(self).handler_installed_spec() == old(self).handler_installed_spec(),
            match r {
                Some(e) => old(self).pending_spec() == Some(e.message@),
                None => old(self).pending_spec() is None,
            },
    {
        let taken = self.pending.take();
        match taken {
            Some(message) => Some(Exception { message }),
            None => None,
        }
    }
}

} // verus!
