//! Stepping schemes and the approaches (fixed explicit, fixed implicit,
//! adaptive) that can drive them.
use vstd::prelude::*;

use crate::error::EngineError;

verus! {

/// A one-step integration algorithm.
#[derive(Clone, Copy, Debug, PartialEq, Eq, Structural)]
pub enum Method {
    Euler,
    Rk4,
    Rk45,
}

/// How an integration run advances time.
#[derive(Clone, Copy, Debug, PartialEq, Eq, Structural)]
pub enum ApproachKind {
    /// Uniform step, next state computed directly.
    Explicit,
    /// Uniform step, next state found by a nonlinear solve.
    Implicit,
    /// Step size chosen by an embedded error estimate.
    Adaptive,
}

/// The algorithm that a supported (method, approach) pair runs.
#[derive(Clone, Copy, Debug, PartialEq, Eq, Structural)]
pub enum StepRule {
    ForwardEuler,
    ClassicalRk4,
    BackwardEuler,
    DormandPrince,
}

/// The step rule of a pairing, or `None` where no algorithm is defined for it.
pub open spec fn rule_of(method: Method, approach: ApproachKind) -> Option<StepRule> {
    match (method, approach) {
        (Method::Euler, ApproachKind::Explicit) => Some(StepRule::ForwardEuler),
        (Method::Rk4, ApproachKind::Explicit) => Some(StepRule::ClassicalRk4),
        (Method::Euler, ApproachKind::Implicit) => Some(StepRule::BackwardEuler),
        (Method::Rk45, ApproachKind::Adaptive) => Some(StepRule::DormandPrince),
        _ => None,
    }
}

/// The step rule of a pairing, or the not-implemented failure.
pub open spec fn resolved<E>(method: Method, approach: ApproachKind) -> Result<
    StepRule,
    EngineError<E>,
> {
    match rule_of(method, approach) {
        Some(rule) => Ok(rule),
        None => Err(EngineError::NotImplemented(method, approach)),
    }
}

/// Picks the step rule for a method under an approach. Pairings with no
/// defined algorithm (implicit RK4, RK45 at a fixed step, an adaptive run
/// with a method that has no error estimate) are not implemented.
pub fn resolve<E>(method: Method, approach: ApproachKind) -> (r: Result<StepRule, EngineError<E>>)
    ensures
        r == resolved::<E>(method, approach),
{
    match (method, approach) {
        (Method::Euler, ApproachKind::Explicit) => Ok(StepRule::ForwardEuler),
        (Method::Rk4, ApproachKind::Explicit) => Ok(StepRule::ClassicalRk4),
        (Method::Euler, ApproachKind::Implicit) => Ok(StepRule::BackwardEuler),
        (Method::Rk45, ApproachKind::Adaptive) => Ok(StepRule::DormandPrince),
        _ => Err(EngineError::NotImplemented(method, approach)),
    }
}

/// The Dormand-Prince embedded pair of orders 5 and 4.
#[derive(Clone, Copy, Debug)]
pub struct Rk45;

/// The classical four-stage Runge-Kutta method.
#[derive(Clone, Copy, Debug)]
pub struct Rk4;

/// The Euler method, forward (explicit) or backward (implicit).
#[derive(Clone, Copy, Debug)]
pub struct Euler;

impl Rk45 {
    pub fn new() -> Self {
        Rk45
    }

    /// The step rule that this method runs under `approach`.
    pub fn rule_for<E>(&self, approach: ApproachKind) -> (r: Result<StepRule, EngineError<E>>)
        ensures
            r == resolved::<E>(Method::Rk45, approach),
    {
        resolve(Method::Rk45, approach)
    }
}

impl Rk4 {
    pub fn new() -> Self {
        Rk4
    }

    /// The step rule that this method runs under `approach`.
    pub fn rule_for<E>(&self, approach: ApproachKind) -> (r: Result<StepRule, EngineError<E>>)
        ensures
            r == resolved::<E>(Method::Rk4, approach),
    {
        resolve(Method::Rk4, approach)
    }
}

impl Euler {
    pub fn new() -> Self {
        Euler
    }

    /// The step rule that this method runs under `approach`.
    pub fn rule_for<E>(&self, approach: ApproachKind) -> (r: Result<StepRule, EngineError<E>>)
        ensures
            r == resolved::<E>(Method::Euler, approach),
    {
        resolve(Method::Euler, approach)
    }
}

} // verus!
