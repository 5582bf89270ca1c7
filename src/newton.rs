//! Iteration control of the Newton-Raphson solve behind implicit steps.
//!
//! One iteration evaluates the residual at the current iterate and, when it is
//! not yet below tolerance, solves the linearised system for the next iterate.
//! That work is supplied by the caller; this module fixes the budget of
//! iterations and which failure each way of stopping reports.
use vstd::prelude::*;

use crate::error::EngineError;

verus! {

/// The iteration budget of one Newton solve.
pub const MAX_NEWTON_ITERATIONS: usize = 20;

/// What one Newton iteration found at the current iterate.
#[derive(Debug, PartialEq, Eq)]
pub enum NewtonStep<X> {
    /// The residual is below tolerance: the iterate is the root.
    Converged,
    /// The linearised system was solved; this is the next iterate.
    Update(X),
    /// The linearised system is singular.
    Singular,
}

/// Each iterate after the first is the update that `iterate` returned on the
/// one before it.
pub open spec fn newton_chain<X, E, F: Fn(&X) -> Result<NewtonStep<X>, E>>(
    iterate: F,
    xs: Seq<X>,
) -> bool {
    forall|k: int|
        #![trigger xs[k]]
        0 <= k < xs.len() - 1 ==> iterate.ensures(
            (&xs[k],),
            Ok(NewtonStep::Update(xs[k + 1])),
        )
}

/// `xs` is a chain of iterates from `x0` of which the last one is examined
/// at iteration `xs.len() - 1`, within the budget.
pub open spec fn examined_chain<X, E, F: Fn(&X) -> Result<NewtonStep<X>, E>>(
    iterate: F,
    x0: X,
    xs: Seq<X>,
) -> bool {
    &&& newton_chain(iterate, xs)
    &&& xs[0] == x0
    &&& 1 <= xs.len() <= MAX_NEWTON_ITERATIONS
}

/// What a Newton solve from `x0` may return: an iterate at which the residual
/// was found below tolerance; the callback's error, or a singular system, at
/// an iteration within the budget; or non-convergence after a full budget of
/// updates. No other failure comes out of a solve.
pub open spec fn newton_outcome<X, E, F: Fn(&X) -> Result<NewtonStep<X>, E>>(
    iterate: F,
    x0: X,
    r: Result<X, EngineError<E>>,
) -> bool {
    match r {
        Ok(x) => exists|xs: Seq<X>|
            {
                &&& #[trigger] examined_chain(iterate, x0, xs)
                &&& xs.last() == x
                &&& iterate.ensures((&x,), Ok(NewtonStep::Converged))
            },
        Err(EngineError::Callback(e)) => exists|xs: Seq<X>|
            {
                &&& #[trigger] examined_chain(iterate, x0, xs)
                &&& iterate.ensures((&xs.last(),), Err(e))
            },
        Err(EngineError::SingularJacobian) => exists|xs: Seq<X>|
            {
                &&& #[trigger] examined_chain(iterate, x0, xs)
                &&& iterate.ensures((&xs.last(),), Ok(NewtonStep::Singular))
            },
        Err(EngineError::NotConverged) => exists|xs: Seq<X>|
            {
                &&& #[trigger] newton_chain(iterate, xs)
                &&& xs[0] == x0
                &&& xs.len() == MAX_NEWTON_ITERATIONS + 1
            },
        Err(_) => false,
    }
}

/// Runs Newton iterations from `x0` until one reports convergence, one fails,
/// or the budget of `MAX_NEWTON_ITERATIONS` iterations is spent.
pub fn newton_solve<X, E, F: Fn(&X) -> Result<NewtonStep<X>, E>>(iterate: &F, x0: X) -> (r:
    Result<X, EngineError<E>>)
    requires
        forall|x: X| iterate.requires((&x,)),
    ensures
        newton_outcome(*iterate, x0, r),
{
    let ghost xs: Seq<X> = seq![x0];
    let mut x = x0;
    let mut i: usize = 0;
    while i < MAX_NEWTON_ITERATIONS
        invariant
            forall|x: X| iterate.requires((&x,)),
            i <= MAX_NEWTON_ITERATIONS,
            xs.len() == i + 1,
            xs[0] == x0,
            xs.last() == x,
            newton_chain(*iterate, xs),
        decreases MAX_NEWTON_ITERATIONS - i,
    {
        match iterate(&x) {
            Ok(NewtonStep::Converged) => {
                assert(examined_chain(*iterate, x0, xs));
                return Ok(x);
            },
            Ok(NewtonStep::Singular) => {
                assert(examined_chain(*iterate, x0, xs));
                return Err(EngineError::SingularJacobian);
            },
            Err(e) => {
                assert(examined_chain(*iterate, x0, xs));
                return Err(EngineError::Callback(e));
            },
            Ok(NewtonStep::Update(next)) => {
                let ghost before = xs;
                proof {
                    xs = xs.push(next);
                    assert(forall|j: int| 0 <= j < before.len() ==> xs[j] == before[j]);
                }
                x = next;
            },
        }
        i += 1;
    }
    assert(newton_chain(*iterate, xs));
    Err(EngineError::NotConverged)
}

/// An iteration that can return only one result for each iterate, which holds
/// where the dynamics are a function of time and state alone.
pub open spec fn newton_deterministic<X, E, F: Fn(&X) -> Result<NewtonStep<X>, E>>(
    iterate: F,
) -> bool {
    forall|x: X, a: Result<NewtonStep<X>, E>, b: Result<NewtonStep<X>, E>|
        #[trigger] iterate.ensures((&x,), a) && #[trigger] iterate.ensures((&x,), b) ==> a == b
}

/// The result of a solve whose iterates are `xs` and whose last iteration
/// reported `last` (`None`: the budget ran out after an update).
spec fn result_of<X, E>(xs: Seq<X>, last: Option<Result<NewtonStep<X>, E>>) -> Result<
    X,
    EngineError<E>,
> {
    match last {
        Some(Ok(NewtonStep::Converged)) => Ok(xs.last()),
        Some(Ok(NewtonStep::Singular)) => Err(EngineError::SingularJacobian),
        Some(Err(e)) => Err(EngineError::Callback(e)),
        _ => Err(EngineError::NotConverged),
    }
}

/// The iterates of a solve and what its last iteration reported.
proof fn outcome_witness<X, E, F: Fn(&X) -> Result<NewtonStep<X>, E>>(
    iterate: F,
    x0: X,
    r: Result<X, EngineError<E>>,
) -> (w: (Seq<X>, Option<Result<NewtonStep<X>, E>>))
    requires
        newton_outcome(iterate, x0, r),
    ensures
        newton_chain(iterate, w.0),
        w.0.len() >= 1,
        w.0[0] == x0,
        w.1 is Some ==> w.0.len() <= MAX_NEWTON_ITERATIONS && iterate.ensures(
            (&w.0.last(),),
            w.1->Some_0,
        ) && !(w.1->Some_0 is Ok && w.1->Some_0->Ok_0 is Update),
        w.1 is None ==> w.0.len() == MAX_NEWTON_ITERATIONS + 1,
        r == result_of(w.0, w.1),
{
    match r {
        Ok(x) => {
            let xs = choose|xs: Seq<X>|
                #[trigger] examined_chain(iterate, x0, xs) && xs.last() == x && iterate.ensures(
                    (&x,),
                    Ok(NewtonStep::Converged),
                );
            (xs, Some(Ok(NewtonStep::Converged)))
        },
        Err(EngineError::Callback(e)) => {
            let xs = choose|xs: Seq<X>|
                #[trigger] examined_chain(iterate, x0, xs) && iterate.ensures(
                    (&xs.last(),),
                    Err(e),
                );
            (xs, Some(Err(e)))
        },
        Err(EngineError::SingularJacobian) => {
            let xs = choose|xs: Seq<X>|
                #[trigger] examined_chain(iterate, x0, xs) && iterate.ensures(
                    (&xs.last(),),
                    Ok(NewtonStep::Singular),
                );
            (xs, Some(Ok(NewtonStep::Singular)))
        },
        _ => {
            let xs = choose|xs: Seq<X>|
                #[trigger] newton_chain(iterate, xs) && xs[0] == x0 && xs.len()
                    == MAX_NEWTON_ITERATIONS + 1;
            (xs, None)
        },
    }
}

/// Two chains of iterates from one start agree wherever both are defined.
proof fn lemma_newton_chains_agree<X, E, F: Fn(&X) -> Result<NewtonStep<X>, E>>(
    iterate: F,
    a: Seq<X>,
    b: Seq<X>,
    k: int,
)
    requires
        newton_deterministic(iterate),
        newton_chain(iterate, a),
        newton_chain(iterate, b),
        a[0] == b[0],
        0 <= k < a.len(),
        k < b.len(),
    ensures
        a[k] == b[k],
    decreases k,
{
    if k > 0 {
        lemma_newton_chains_agree(iterate, a, b, k - 1);
        assert(iterate.ensures((&a[k - 1],), Ok(NewtonStep::Update(a[k]))));
        assert(iterate.ensures((&b[k - 1],), Ok(NewtonStep::Update(b[k]))));
    }
}

/// A chain that stopped at its last iterate is no longer than any chain
/// from the same start.
proof fn lemma_stop_not_before<X, E, F: Fn(&X) -> Result<NewtonStep<X>, E>>(
    iterate: F,
    a: Seq<X>,
    ev: Result<NewtonStep<X>, E>,
    b: Seq<X>,
)
    requires
        newton_deterministic(iterate),
        newton_chain(iterate, a),
        newton_chain(iterate, b),
        a.len() >= 1,
        a[0] == b[0],
        iterate.ensures((&a.last(),), ev),
        !(ev is Ok && ev->Ok_0 is Update),
    ensures
        b.len() <= a.len(),
{
    if b.len() > a.len() {
        let m = a.len() - 1;
        lemma_newton_chains_agree(iterate, a, b, m);
        assert(iterate.ensures((&b[m],), Ok(NewtonStep::Update(b[m + 1]))));
    }
}

/// Determinism of the Newton solve: two solves from the same initial guess,
/// with an iteration that gives one result per iterate, return the same root
/// or the same failure.
pub proof fn lemma_newton_deterministic<X, E, F: Fn(&X) -> Result<NewtonStep<X>, E>>(
    iterate: F,
    x0: X,
    r1: Result<X, EngineError<E>>,
    r2: Result<X, EngineError<E>>,
)
    requires
        newton_deterministic(iterate),
        newton_outcome(iterate, x0, r1),
        newton_outcome(iterate, x0, r2),
    ensures
        r1 == r2,
{
    let (a, ea) = outcome_witness(iterate, x0, r1);
    let (b, eb) = outcome_witness(iterate, x0, r2);
    if ea is Some {
        lemma_stop_not_before(iterate, a, ea->Some_0, b);
    }
    if eb is Some {
        lemma_stop_not_before(iterate, b, eb->Some_0, a);
    }
    assert(a.len() == b.len());
    assert forall|k: int| 0 <= k < a.len() implies a[k] == b[k] by {
        lemma_newton_chains_agree(iterate, a, b, k);
    }
    assert(a =~= b);
}

} // verus!
