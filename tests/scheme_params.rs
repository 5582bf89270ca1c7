use dynamixplore::error::EngineError;
use dynamixplore::params::{
    check_adaptive, check_fixed, check_lyapunov, Param, ParamIssue, Sign,
};
use dynamixplore::scheme::{resolve, ApproachKind, Euler, Method, Rk4, Rk45, StepRule};

#[test]
fn supported_pairings_resolve_to_their_rules() {
    let r: Result<StepRule, EngineError<()>> = resolve(Method::Euler, ApproachKind::Explicit);
    assert_eq!(r, Ok(StepRule::ForwardEuler));
    let r: Result<StepRule, EngineError<()>> = resolve(Method::Rk4, ApproachKind::Explicit);
    assert_eq!(r, Ok(StepRule::ClassicalRk4));
    let r: Result<StepRule, EngineError<()>> = resolve(Method::Euler, ApproachKind::Implicit);
    assert_eq!(r, Ok(StepRule::BackwardEuler));
    let r: Result<StepRule, EngineError<()>> = resolve(Method::Rk45, ApproachKind::Adaptive);
    assert_eq!(r, Ok(StepRule::DormandPrince));
}

#[test]
fn implicit_rk4_is_not_implemented() {
    let r: Result<StepRule, EngineError<()>> = Rk4::new().rule_for(ApproachKind::Implicit);
    assert_eq!(r, Err(EngineError::NotImplemented(Method::Rk4, ApproachKind::Implicit)));
}

#[test]
fn mismatched_modes_are_not_implemented() {
    let r: Result<StepRule, EngineError<()>> = Rk45::new().rule_for(ApproachKind::Explicit);
    assert_eq!(r, Err(EngineError::NotImplemented(Method::Rk45, ApproachKind::Explicit)));
    let r: Result<StepRule, EngineError<()>> = Rk45::new().rule_for(ApproachKind::Implicit);
    assert_eq!(r, Err(EngineError::NotImplemented(Method::Rk45, ApproachKind::Implicit)));
    let r: Result<StepRule, EngineError<()>> = Euler::new().rule_for(ApproachKind::Adaptive);
    assert_eq!(r, Err(EngineError::NotImplemented(Method::Euler, ApproachKind::Adaptive)));
    let r: Result<StepRule, EngineError<()>> = Rk4::new().rule_for(ApproachKind::Adaptive);
    assert_eq!(r, Err(EngineError::NotImplemented(Method::Rk4, ApproachKind::Adaptive)));
}

#[test]
fn unit_structs_pick_their_rules() {
    let r: Result<StepRule, EngineError<()>> = Euler::new().rule_for(ApproachKind::Implicit);
    assert_eq!(r, Ok(StepRule::BackwardEuler));
    let r: Result<StepRule, EngineError<()>> = Rk4::new().rule_for(ApproachKind::Explicit);
    assert_eq!(r, Ok(StepRule::ClassicalRk4));
    let r: Result<StepRule, EngineError<()>> = Rk45::new().rule_for(ApproachKind::Adaptive);
    assert_eq!(r, Ok(StepRule::DormandPrince));
}

#[test]
fn fixed_parameters_accept_zero_span_and_positive_step() {
    assert_eq!(check_fixed(Sign::Zero, Sign::Positive), Ok(()));
    assert_eq!(check_fixed(Sign::Positive, Sign::Positive), Ok(()));
}

#[test]
fn fixed_parameters_reject_reversed_span_first() {
    assert_eq!(
        check_fixed(Sign::Negative, Sign::Negative),
        Err(ParamIssue::OutOfRange(Param::Span))
    );
    assert_eq!(
        check_fixed(Sign::NotANumber, Sign::Positive),
        Err(ParamIssue::OutOfRange(Param::Span))
    );
}

#[test]
fn fixed_parameters_reject_non_positive_step() {
    assert_eq!(
        check_fixed(Sign::Positive, Sign::Zero),
        Err(ParamIssue::OutOfRange(Param::Step))
    );
    assert_eq!(
        check_fixed(Sign::Positive, Sign::Negative),
        Err(ParamIssue::OutOfRange(Param::Step))
    );
    assert_eq!(
        check_fixed(Sign::Positive, Sign::NotANumber),
        Err(ParamIssue::OutOfRange(Param::Step))
    );
}

#[test]
fn adaptive_parameters_check_tolerances() {
    assert_eq!(check_adaptive(Sign::Positive, Sign::Positive, Sign::Zero, Sign::Positive), Ok(()));
    assert_eq!(check_adaptive(Sign::Positive, Sign::Positive, Sign::Positive, Sign::Zero), Ok(()));
    assert_eq!(
        check_adaptive(Sign::Positive, Sign::Positive, Sign::Negative, Sign::Positive),
        Err(ParamIssue::OutOfRange(Param::AbsTol))
    );
    assert_eq!(
        check_adaptive(Sign::Positive, Sign::Positive, Sign::Positive, Sign::Negative),
        Err(ParamIssue::OutOfRange(Param::RelTol))
    );
    assert_eq!(
        check_adaptive(Sign::Positive, Sign::Positive, Sign::Zero, Sign::Zero),
        Err(ParamIssue::BothTolerancesZero)
    );
    assert_eq!(
        check_adaptive(Sign::Positive, Sign::Zero, Sign::Zero, Sign::Zero),
        Err(ParamIssue::OutOfRange(Param::Step))
    );
}

#[test]
fn lyapunov_parameters_report_first_issue() {
    let p = Sign::Positive;
    assert_eq!(check_lyapunov(Sign::Zero, p, p, p, p, p, p), Ok(()));
    assert_eq!(
        check_lyapunov(Sign::Negative, p, p, p, p, p, p),
        Err(ParamIssue::OutOfRange(Param::Transient))
    );
    assert_eq!(
        check_lyapunov(p, Sign::Zero, p, p, p, p, p),
        Err(ParamIssue::OutOfRange(Param::Total))
    );
    assert_eq!(
        check_lyapunov(p, p, Sign::Zero, p, p, p, p),
        Err(ParamIssue::OutOfRange(Param::Reorth))
    );
    assert_eq!(
        check_lyapunov(p, p, p, Sign::Negative, p, p, p),
        Err(ParamIssue::OutOfRange(Param::Step))
    );
    assert_eq!(
        check_lyapunov(p, p, p, p, Sign::Zero, Sign::Zero, p),
        Err(ParamIssue::BothTolerancesZero)
    );
    assert_eq!(
        check_lyapunov(p, p, p, p, p, p, Sign::Zero),
        Err(ParamIssue::OutOfRange(Param::Perturbation))
    );
}
