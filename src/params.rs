//! Eager validation of run parameters. A real parameter reaches the library
//! as its sign, the one thing the validation rules look at.
use vstd::prelude::*;

verus! {

/// Where a real number lies relative to zero; `NotANumber` for a value that
/// compares with nothing.
#[derive(Clone, Copy, Debug, PartialEq, Eq, Structural)]
pub enum Sign {
    Negative,
    Zero,
    Positive,
    NotANumber,
}

/// A run parameter that can be out of range.
#[derive(Clone, Copy, Debug, PartialEq, Eq, Structural)]
pub enum Param {
    /// `t_end - t_start` of an integration run.
    Span,
    /// The step size, or the initial trial step of an adaptive run.
    Step,
    AbsTol,
    RelTol,
    /// Length of the Lyapunov burn-in run.
    Transient,
    /// Total measured time of a Lyapunov run.
    Total,
    /// Length of one renormalization interval.
    Reorth,
    /// Magnitude of the Lyapunov perturbation vectors.
    Perturbation,
}

/// Why a set of parameters was rejected.
#[derive(Clone, Copy, Debug, PartialEq, Eq, Structural)]
pub enum ParamIssue {
    OutOfRange(Param),
    /// Both tolerances are zero, so step-size control has no criterion.
    BothTolerancesZero,
}

pub open spec fn is_nonneg(s: Sign) -> bool {
    s == Sign::Zero || s == Sign::Positive
}

pub open spec fn is_positive(s: Sign) -> bool {
    s == Sign::Positive
}

/// The first rule that fixed-step parameters break: the span must not be
/// negative, the step must be positive.
pub open spec fn fixed_issue(span: Sign, step: Sign) -> Option<ParamIssue> {
    if !is_nonneg(span) {
        Some(ParamIssue::OutOfRange(Param::Span))
    } else if !is_positive(step) {
        Some(ParamIssue::OutOfRange(Param::Step))
    } else {
        None
    }
}

/// The rules on the two tolerances of step-size control: neither negative,
/// not both zero.
pub open spec fn tolerance_issue(abstol: Sign, reltol: Sign) -> Option<ParamIssue> {
    if !is_nonneg(abstol) {
        Some(ParamIssue::OutOfRange(Param::AbsTol))
    } else if !is_nonneg(reltol) {
        Some(ParamIssue::OutOfRange(Param::RelTol))
    } else if abstol == Sign::Zero && reltol == Sign::Zero {
        Some(ParamIssue::BothTolerancesZero)
    } else {
        None
    }
}

/// The first rule that adaptive parameters break: those of a fixed-step run
/// (with the initial trial step as the step), then those on the tolerances.
pub open spec fn adaptive_issue(span: Sign, step: Sign, abstol: Sign, reltol: Sign) -> Option<
    ParamIssue,
> {
    if fixed_issue(span, step) is Some {
        fixed_issue(span, step)
    } else {
        tolerance_issue(abstol, reltol)
    }
}

/// The first rule that Lyapunov parameters break: the burn-in must not be
/// negative; total time, renormalization interval and initial trial step must
/// be positive; the tolerances as for an adaptive run; the perturbation
/// magnitude must be positive.
pub open spec fn lyapunov_issue(
    transient: Sign,
    total: Sign,
    reorth: Sign,
    step: Sign,
    abstol: Sign,
    reltol: Sign,
    eps: Sign,
) -> Option<ParamIssue> {
    if !is_nonneg(transient) {
        Some(ParamIssue::OutOfRange(Param::Transient))
    } else if !is_positive(total) {
        Some(ParamIssue::OutOfRange(Param::Total))
    } else if !is_positive(reorth) {
        Some(ParamIssue::OutOfRange(Param::Reorth))
    } else if !is_positive(step) {
        Some(ParamIssue::OutOfRange(Param::Step))
    } else if tolerance_issue(abstol, reltol) is Some {
        tolerance_issue(abstol, reltol)
    } else if !is_positive(eps) {
        Some(ParamIssue::OutOfRange(Param::Perturbation))
    } else {
        None
    }
}

/// A found issue as the result of a check.
pub open spec fn as_check(issue: Option<ParamIssue>) -> Result<(), ParamIssue> {
    match issue {
        Some(i) => Err(i),
        None => Ok(()),
    }
}

fn nonneg(s: Sign) -> (r: bool)
    ensures
        r == is_nonneg(s),
{
    match s {
        Sign::Zero | Sign::Positive => true,
        _ => false,
    }
}

fn positive(s: Sign) -> (r: bool)
    ensures
        r == is_positive(s),
{
    match s {
        Sign::Positive => true,
        _ => false,
    }
}

fn check_tolerances(abstol: Sign, reltol: Sign) -> (r: Result<(), ParamIssue>)
    ensures
        r == as_check(tolerance_issue(abstol, reltol)),
{
    if !nonneg(abstol) {
        Err(ParamIssue::OutOfRange(Param::AbsTol))
    } else if !nonneg(reltol) {
        Err(ParamIssue::OutOfRange(Param::RelTol))
    } else if abstol == Sign::Zero && reltol == Sign::Zero {
        Err(ParamIssue::BothTolerancesZero)
    } else {
        Ok(())
    }
}

/// Validates the parameters of a fixed-step run (explicit or implicit).
pub fn check_fixed(span: Sign, step: Sign) -> (r: Result<(), ParamIssue>)
    ensures
        r == as_check(fixed_issue(span, step)),
{
    if !nonneg(span) {
        Err(ParamIssue::OutOfRange(Param::Span))
    } else if !positive(step) {
        Err(ParamIssue::OutOfRange(Param::Step))
    } else {
        Ok(())
    }
}

/// Validates the parameters of an adaptive run.
pub fn check_adaptive(span: Sign, step: Sign, abstol: Sign, reltol: Sign) -> (r: Result<
    (),
    ParamIssue,
>)
    ensures
        r == as_check(adaptive_issue(span, step, abstol, reltol)),
{
    match check_fixed(span, step) {
        Err(i) => Err(i),
        Ok(()) => check_tolerances(abstol, reltol),
    }
}

/// Validates the parameters of a Lyapunov spectrum estimation.
pub fn check_lyapunov(
    transient: Sign,
    total: Sign,
    reorth: Sign,
    step: Sign,
    abstol: Sign,
    reltol: Sign,
    eps: Sign,
) -> (r: Result<(), ParamIssue>)
    ensures
        r == as_check(lyapunov_issue(transient, total, reorth, step, abstol, reltol, eps)),
{
    if !nonneg(transient) {
        Err(ParamIssue::OutOfRange(Param::Transient))
    } else if !positive(total) {
        Err(ParamIssue::OutOfRange(Param::Total))
    } else if !positive(reorth) {
        Err(ParamIssue::OutOfRange(Param::Reorth))
    } else if !positive(step) {
        Err(ParamIssue::OutOfRange(Param::Step))
    } else {
        match check_tolerances(abstol, reltol) {
            Err(i) => Err(i),
            Ok(()) => if !positive(eps) {
                Err(ParamIssue::OutOfRange(Param::Perturbation))
            } else {
                Ok(())
            },
        }
    }
}

} // verus!
