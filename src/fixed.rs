//! The fixed-step integration loop, shared by the explicit and the implicit
//! approaches: a uniform number of steps, each one sample after the last,
//! with no step ever rejected.
use vstd::prelude::*;

use crate::trajectory::Trajectory;

verus! {

/// Each sample after the first is what `step` returned on the one before it.
pub open spec fn step_chain<T, S, E, F: Fn(&T, &S) -> Result<(T, S), E>>(
    step: F,
    samples: Seq<(T, S)>,
) -> bool {
    forall|k: int|
        0 <= k < samples.len() - 1 ==> step.ensures(
            (&(#[trigger] samples[k]).0, &samples[k].1),
            Ok(samples[k + 1]),
        )
}

/// What a fixed-step run of `num_steps` steps from `(t0, y0)` may return: the
/// whole chain of `num_steps + 1` samples, or the error of the first step that
/// failed, with no samples past it.
pub open spec fn fixed_outcome<T, S, E, F: Fn(&T, &S) -> Result<(T, S), E>>(
    step: F,
    t0: T,
    y0: S,
    num_steps: nat,
    r: Result<Seq<(T, S)>, E>,
) -> bool {
    match r {
        Ok(samples) => {
            &&& step_chain(step, samples)
            &&& samples.len() == num_steps + 1
            &&& samples[0] == (t0, y0)
        },
        Err(e) => exists|samples: Seq<(T, S)>|
            {
                &&& #[trigger] step_chain(step, samples)
                &&& 1 <= samples.len() <= num_steps
                &&& samples[0] == (t0, y0)
                &&& step.ensures((&samples.last().0, &samples.last().1), Err(e))
            },
    }
}

/// The samples of a run's trajectory, in the shape of `fixed_outcome`.
pub open spec fn trajectory_view<T, S, E>(r: Result<Trajectory<T, S>, E>) -> Result<
    Seq<(T, S)>,
    E,
> {
    match r {
        Ok(tr) => Ok(tr@),
        Err(e) => Err(e),
    }
}

/// Runs `num_steps` uniform steps from `(t0, y0)`. `step` maps a sample to the
/// next one (the step rule's state and the advanced time). The first error of
/// a step ends the run and is returned as it came.
pub fn integrate_fixed<T, S, E, F: Fn(&T, &S) -> Result<(T, S), E>>(
    step: &F,
    t0: T,
    y0: S,
    num_steps: usize,
) -> (r: Result<Trajectory<T, S>, E>)
    requires
        forall|t: T, y: S| step.requires((&t, &y)),
    ensures
        r is Ok ==> r->Ok_0.wf(),
        fixed_outcome(*step, t0, y0, num_steps as nat, trajectory_view(r)),
{
    let mut traj = Trajectory::new(t0, y0);
    let mut k: usize = 0;
    while k < num_steps
        invariant
            forall|t: T, y: S| step.requires((&t, &y)),
            k <= num_steps,
            traj.wf(),
            traj@.len() == k + 1,
            traj@[0] == (t0, y0),
            step_chain(*step, traj@),
        decreases num_steps - k,
    {
        let ghost before = traj@;
        match step(traj.last_time(), traj.last_state()) {
            Ok((t, y)) => {
                traj.push(t, y);
                assert(forall|j: int| 0 <= j < before.len() ==> traj@[j] == before[j]);
            },
            Err(e) => {
                assert(step_chain(*step, traj@));
                return Err(e);
            },
        }
        k += 1;
    }
    Ok(traj)
}

/// A step rule that can return only one result for each sample, which holds
/// where the dynamics are a function of time and state alone.
pub open spec fn step_deterministic<T, S, E, F: Fn(&T, &S) -> Result<(T, S), E>>(
    step: F,
) -> bool {
    forall|t: T, y: S, a: Result<(T, S), E>, b: Result<(T, S), E>|
        #[trigger] step.ensures((&t, &y), a) && #[trigger] step.ensures((&t, &y), b) ==> a == b
}

/// Two chains from one initial sample agree wherever both are defined.
proof fn lemma_step_chains_agree<T, S, E, F: Fn(&T, &S) -> Result<(T, S), E>>(
    step: F,
    a: Seq<(T, S)>,
    b: Seq<(T, S)>,
    k: int,
)
    requires
        step_deterministic(step),
        step_chain(step, a),
        step_chain(step, b),
        a[0] == b[0],
        0 <= k < a.len(),
        k < b.len(),
    ensures
        a[k] == b[k],
    decreases k,
{
    if k > 0 {
        lemma_step_chains_agree(step, a, b, k - 1);
        assert(step.ensures((&a[k - 1].0, &a[k - 1].1), Ok(a[k])));
        assert(step.ensures((&b[k - 1].0, &b[k - 1].1), Ok(b[k])));
    }
}

/// Determinism of fixed-step integration: two runs with the same step rule,
/// initial sample and step count, where the step rule gives one result per
/// sample, return the same trajectory or the same error.
pub proof fn lemma_fixed_deterministic<T, S, E, F: Fn(&T, &S) -> Result<(T, S), E>>(
    step: F,
    t0: T,
    y0: S,
    num_steps: nat,
    r1: Result<Seq<(T, S)>, E>,
    r2: Result<Seq<(T, S)>, E>,
)
    requires
        step_deterministic(step),
        fixed_outcome(step, t0, y0, num_steps, r1),
        fixed_outcome(step, t0, y0, num_steps, r2),
    ensures
        r1 == r2,
{
    match (r1, r2) {
        (Ok(a), Ok(b)) => {
            assert forall|k: int| 0 <= k < a.len() implies a[k] == b[k] by {
                lemma_step_chains_agree(step, a, b, k);
            }
            assert(a =~= b);
        },
        (Ok(a), Err(e)) => {
            let b = choose|s: Seq<(T, S)>|
                #[trigger] step_chain(step, s) && 1 <= s.len() <= num_steps && s[0] == (t0, y0)
                    && step.ensures((&s.last().0, &s.last().1), Err(e));
            let m = b.len() - 1;
            lemma_step_chains_agree(step, a, b, m);
            assert(step.ensures((&a[m].0, &a[m].1), Ok(a[m + 1])));
        },
        (Err(e), Ok(b)) => {
            let a = choose|s: Seq<(T, S)>|
                #[trigger] step_chain(step, s) && 1 <= s.len() <= num_steps && s[0] == (t0, y0)
                    && step.ensures((&s.last().0, &s.last().1), Err(e));
            let m = a.len() - 1;
            lemma_step_chains_agree(step, a, b, m);
            assert(step.ensures((&b[m].0, &b[m].1), Ok(b[m + 1])));
        },
        (Err(e1), Err(e2)) => {
            let a = choose|s: Seq<(T, S)>|
                #[trigger] step_chain(step, s) && 1 <= s.len() <= num_steps && s[0] == (t0, y0)
                    && step.ensures((&s.last().0, &s.last().1), Err(e1));
            let b = choose|s: Seq<(T, S)>|
                #[trigger] step_chain(step, s) && 1 <= s.len() <= num_steps && s[0] == (t0, y0)
                    && step.ensures((&s.last().0, &s.last().1), Err(e2));
            let ma = a.len() - 1;
            let mb = b.len() - 1;
            if ma < mb {
                lemma_step_chains_agree(step, a, b, ma);
                assert(step.ensures((&b[ma].0, &b[ma].1), Ok(b[ma + 1])));
            } else if mb < ma {
                lemma_step_chains_agree(step, a, b, mb);
                assert(step.ensures((&a[mb].0, &a[mb].1), Ok(a[mb + 1])));
            } else {
                lemma_step_chains_agree(step, a, b, ma);
            }
        },
    }
}

} // verus!
