//! Trajectories: chronological samples of (time, state), starting with the
//! initial condition and only ever extended at the end.
use vstd::prelude::*;

verus! {

/// Samples of one integration run. The time array and the state array are kept
/// aligned row for row, and a trajectory always holds its initial sample.
pub struct Trajectory<T, S> {
    times: Vec<T>,
    states: Vec<S>,
}

impl<T, S> View for Trajectory<T, S> {
    type V = Seq<(T, S)>;

    closed spec fn view(&self) -> Seq<(T, S)> {
        Seq::new(self.states@.len(), |i: int| (self.times@[i], self.states@[i]))
    }
}

impl<T, S> Trajectory<T, S> {
    /// The time and state arrays are aligned and hold the initial sample.
    pub closed spec fn wf(&self) -> bool {
        &&& self.times@.len() == self.states@.len()
        &&& self.states@.len() >= 1
    }

    /// A trajectory holding only the initial condition.
    pub fn new(t0: T, y0: S) -> (r: Self)
        ensures
            r.wf(),
            r@ == seq![(t0, y0)],
    {
        let r = Trajectory { times: vec![t0], states: vec![y0] };
        assert(r@ =~= seq![(t0, y0)]);
        r
    }

    /// Appends a sample after the last one.
    pub fn push(&mut self, t: T, y: S)
        requires
            old(self).wf(),
        ensures
            final(self).wf(),
            final(self)@ == old(self)@.push((t, y)),
    {
        self.times.push(t);
        self.states.push(y);
        assert(final(self)@ =~= old(self)@.push((t, y)));
    }

    /// Number of samples.
    pub fn len(&self) -> (r: usize)
        requires
            self.wf(),
        ensures
            r == self@.len(),
            r >= 1,
    {
        self.states.len()
    }

    /// Time of sample `i`.
    pub fn time(&self, i: usize) -> (r: &T)
        requires
            self.wf(),
            i < self@.len(),
        ensures
            *r == self@[i as int].0,
    {
        &self.times[i]
    }

    /// State of sample `i`.
    pub fn state(&self, i: usize) -> (r: &S)
        requires
            self.wf(),
            i < self@.len(),
        ensures
            *r == self@[i as int].1,
    {
        &self.states[i]
    }

    /// Time of the latest sample.
    pub fn last_time(&self) -> (r: &T)
        requires
            self.wf(),
        ensures
            *r == self@.last().0,
    {
        &self.times[self.times.len() - 1]
    }

    /// State of the latest sample.
    pub fn last_state(&self) -> (r: &S)
        requires
            self.wf(),
        ensures
            *r == self@.last().1,
    {
        &self.states[self.states.len() - 1]
    }

    /// Splits the trajectory into its time array and its state array.
    pub fn into_parts(self) -> (r: (Vec<T>, Vec<S>))
        requires
            self.wf(),
        ensures
            r.0@.len() == self@.len(),
            r.1@.len() == self@.len(),
            forall|i: int| 0 <= i < self@.len() ==> (r.0@[i], r.1@[i]) == #[trigger] self@[i],
    {
        (self.times, self.states)
    }
}

} // verus!
