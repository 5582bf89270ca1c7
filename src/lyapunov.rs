//! The renormalization-interval loop of Benettin's method.
//!
//! One interval takes the estimator state (reference orbit point,
//! perturbation directions, running sums) forward by the renormalization time
//! and yields a record for the spectrum history. The arithmetic of an interval
//! is supplied by the caller; this module fixes how intervals follow each other,
//! that the history gets one record per completed interval, and that a failing
//! interval ends the run with its error.
use vstd::prelude::*;

verus! {

/// Estimator of the Lyapunov spectrum by Benettin's method. It holds no state
/// between estimations.
#[derive(Clone, Copy, Debug)]
pub struct Lyapunov;

impl Lyapunov {
    pub fn new() -> Self {
        Lyapunov
    }
}

/// `states` and `records` describe a run of intervals: record `k` and state
/// `k + 1` are what interval `k` returned when handed state `k`.
pub open spec fn interval_chain<L, R, E, F: Fn(&L, usize) -> Result<(L, R), E>>(
    interval: F,
    states: Seq<L>,
    records: Seq<R>,
) -> bool {
    &&& states.len() == records.len() + 1
    &&& forall|k: int|
        0 <= k < records.len() ==> interval.ensures(
            (&states[k], k as usize),
            Ok((states[k + 1], #[trigger] records[k])),
        )
}

/// What a run of `count` intervals from `start` may return: the last state and
/// all records of a full chain, or the error of the first interval that failed.
pub open spec fn intervals_outcome<L, R, E, F: Fn(&L, usize) -> Result<(L, R), E>>(
    interval: F,
    start: L,
    count: nat,
    r: Result<(L, Seq<R>), E>,
) -> bool {
    match r {
        Ok((last, records)) => exists|states: Seq<L>, recs: Seq<R>|
            {
                &&& #[trigger] interval_chain(interval, states, recs)
                &&& recs == records
                &&& states[0] == start
                &&& recs.len() == count
                &&& states.last() == last
            },
        Err(e) => exists|states: Seq<L>, records: Seq<R>|
            {
                &&& #[trigger] interval_chain(interval, states, records)
                &&& states[0] == start
                &&& records.len() < count
                &&& interval.ensures((&states.last(), records.len() as usize), Err(e))
            },
    }
}

/// The value of a run in the shape of `intervals_outcome`.
pub open spec fn outcome_view<L, R, E>(r: Result<(L, Vec<R>), E>) -> Result<(L, Seq<R>), E> {
    match r {
        Ok((last, records)) => Ok((last, records@)),
        Err(e) => Err(e),
    }
}

/// Runs `count` renormalization intervals from `start`, handing each interval
/// its index. Returns the state after the last interval and the records in
/// interval order, or the first error.
pub fn run_intervals<L, R, E, F: Fn(&L, usize) -> Result<(L, R), E>>(
    interval: &F,
    start: L,
    count: usize,
) -> (r: Result<(L, Vec<R>), E>)
    requires
        forall|l: L, k: usize| interval.requires((&l, k)),
    ensures
        intervals_outcome(*interval, start, count as nat, outcome_view(r)),
{
    let ghost states: Seq<L> = seq![start];
    let mut state = start;
    let mut records: Vec<R> = Vec::new();
    let mut k: usize = 0;
    while k < count
        invariant
            forall|l: L, j: usize| interval.requires((&l, j)),
            k <= count,
            records.len() == k,
            interval_chain(*interval, states, records@),
            states[0] == start,
            states.last() == state,
        decreases count - k,
    {
        match interval(&state, k) {
            Ok((next, record)) => {
                proof {
                    states = states.push(next);
                }
                state = next;
                records.push(record);
                assert(interval_chain(*interval, states, records@));
            },
            Err(e) => {
                assert(interval_chain(*interval, states, records@));
                assert(interval.ensures((&states.last(), records@.len() as usize), Err(e)));
                return Err(e);
            },
        }
        k += 1;
    }
    assert(interval_chain(*interval, states, records@));
    Ok((state, records))
}

/// Splits the final states of one interval's seed runs. The reference run
/// comes first; then comes one run per perturbation direction, in the column
/// order of the perturbation matrix.
pub fn split_reference<S>(finals: Vec<S>) -> (r: (S, Vec<S>))
    requires
        finals.len() >= 1,
    ensures
        r.0 == finals@[0],
        r.1@ == finals@.subrange(1, finals@.len() as int),
{
    let mut rest = finals;
    let reference = rest.remove(0);
    assert(rest@ =~= finals@.subrange(1, finals@.len() as int));
    (reference, rest)
}

/// An interval step that can return only one result for each state and index,
/// which holds where the dynamics are a function of time and state alone.
pub open spec fn interval_deterministic<L, R, E, F: Fn(&L, usize) -> Result<(L, R), E>>(
    interval: F,
) -> bool {
    forall|l: L, k: usize, a: Result<(L, R), E>, b: Result<(L, R), E>|
        #[trigger] interval.ensures((&l, k), a) && #[trigger] interval.ensures((&l, k), b) ==> a
            == b
}

/// Two chains from one start agree wherever both are defined.
proof fn lemma_chains_agree<L, R, E, F: Fn(&L, usize) -> Result<(L, R), E>>(
    interval: F,
    s1: Seq<L>,
    c1: Seq<R>,
    s2: Seq<L>,
    c2: Seq<R>,
    k: int,
)
    requires
        interval_deterministic(interval),
        interval_chain(interval, s1, c1),
        interval_chain(interval, s2, c2),
        s1[0] == s2[0],
        0 <= k < s1.len(),
        k < s2.len(),
    ensures
        s1[k] == s2[k],
        k < c1.len() && k < c2.len() ==> c1[k] == c2[k],
    decreases k,
{
    if k > 0 {
        lemma_chains_agree(interval, s1, c1, s2, c2, k - 1);
        let a = Ok::<(L, R), E>((s1[k], c1[k - 1]));
        let b = Ok::<(L, R), E>((s2[k], c2[k - 1]));
        assert(interval.ensures((&s1[k - 1], (k - 1) as usize), a));
        assert(interval.ensures((&s2[k - 1], (k - 1) as usize), b));
    }
    if k < c1.len() && k < c2.len() {
        let a = Ok::<(L, R), E>((s1[k + 1], c1[k]));
        let b = Ok::<(L, R), E>((s2[k + 1], c2[k]));
        assert(interval.ensures((&s1[k], k as usize), a));
        assert(interval.ensures((&s2[k], k as usize), b));
    }
}

/// Determinism of the interval loop: two runs from the same start over the same
/// number of intervals, with an interval step that gives one result per input,
/// end alike, with the same final state and history or with the same error.
pub proof fn lemma_intervals_deterministic<L, R, E, F: Fn(&L, usize) -> Result<(L, R), E>>(
    interval: F,
    start: L,
    count: nat,
    r1: Result<(L, Seq<R>), E>,
    r2: Result<(L, Seq<R>), E>,
)
    requires
        interval_deterministic(interval),
        intervals_outcome(interval, start, count, r1),
        intervals_outcome(interval, start, count, r2),
    ensures
        r1 == r2,
{
    match (r1, r2) {
        (Ok((l1, h1)), Ok((l2, h2))) => {
            let (s1, c1) = choose|s: Seq<L>, c: Seq<R>|
                #[trigger] interval_chain(interval, s, c) && c == h1 && s[0] == start && c.len()
                    == count && s.last() == l1;
            let (s2, c2) = choose|s: Seq<L>, c: Seq<R>|
                #[trigger] interval_chain(interval, s, c) && c == h2 && s[0] == start && c.len()
                    == count && s.last() == l2;
            assert forall|k: int| 0 <= k < count implies c1[k] == c2[k] by {
                lemma_chains_agree(interval, s1, c1, s2, c2, k);
            }
            lemma_chains_agree(interval, s1, c1, s2, c2, count as int);
            assert(h1 =~= h2);
        },
        (Ok((l1, h1)), Err(e2)) => {
            let (s1, c1) = choose|s: Seq<L>, c: Seq<R>|
                #[trigger] interval_chain(interval, s, c) && c == h1 && s[0] == start && c.len()
                    == count && s.last() == l1;
            let (s2, c2) = choose|s: Seq<L>, c: Seq<R>|
                #[trigger] interval_chain(interval, s, c) && s[0] == start && c.len() < count
                    && interval.ensures((&s.last(), c.len() as usize), Err(e2));
            let m = c2.len() as int;
            lemma_chains_agree(interval, s1, c1, s2, c2, m);
            assert(interval.ensures((&s1[m], m as usize), Ok((s1[m + 1], c1[m]))));
        },
        (Err(e1), Ok((l2, h2))) => {
            let (s2, c2) = choose|s: Seq<L>, c: Seq<R>|
                #[trigger] interval_chain(interval, s, c) && c == h2 && s[0] == start && c.len()
                    == count && s.last() == l2;
            let (s1, c1) = choose|s: Seq<L>, c: Seq<R>|
                #[trigger] interval_chain(interval, s, c) && s[0] == start && c.len() < count
                    && interval.ensures((&s.last(), c.len() as usize), Err(e1));
            let m = c1.len() as int;
            lemma_chains_agree(interval, s1, c1, s2, c2, m);
            assert(interval.ensures((&s2[m], m as usize), Ok((s2[m + 1], c2[m]))));
        },
        (Err(e1), Err(e2)) => {
            let (s1, c1) = choose|s: Seq<L>, c: Seq<R>|
                #[trigger] interval_chain(interval, s, c) && s[0] == start && c.len() < count
                    && interval.ensures((&s.last(), c.len() as usize), Err(e1));
            let (s2, c2) = choose|s: Seq<L>, c: Seq<R>|
                #[trigger] interval_chain(interval, s, c) && s[0] == start && c.len() < count
                    && interval.ensures((&s.last(), c.len() as usize), Err(e2));
            let m1 = c1.len() as int;
            let m2 = c2.len() as int;
            if m1 < m2 {
                lemma_chains_agree(interval, s1, c1, s2, c2, m1);
                assert(interval.ensures((&s2[m1], m1 as usize), Ok((s2[m1 + 1], c2[m1]))));
            } else if m2 < m1 {
                lemma_chains_agree(interval, s1, c1, s2, c2, m2);
                assert(interval.ensures((&s1[m2], m2 as usize), Ok((s1[m2 + 1], c1[m2]))));
            } else {
                lemma_chains_agree(interval, s1, c1, s2, c2, m1);
            }
        },
    }
}

} // verus!
