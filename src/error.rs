//! The failures that the engine surfaces. None is recovered internally.
use vstd::prelude::*;

use crate::params::ParamIssue;
use crate::scheme::{ApproachKind, Method};

verus! {

/// An engine failure; `E` is the error type of the dynamics callback.
#[derive(Debug, PartialEq, Eq)]
pub enum EngineError<E> {
    /// A parameter broke its rule; raised before any stepping.
    InvalidParameter(ParamIssue),
    /// No algorithm is defined for this method under this approach.
    NotImplemented(Method, ApproachKind),
    /// The dynamics callback failed; its error, as it came.
    Callback(E),
    /// Newton's linear system could not be solved.
    SingularJacobian,
    /// Newton's method used its whole iteration budget without converging.
    NotConverged,
}

} // verus!
