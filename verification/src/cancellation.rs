use crate::canceller::is_raised;
use crate::clock::{before, instant_nanos, now};
use std::sync::atomic::AtomicBool;
use std::sync::Arc;
use trice::Instant;
use vstd::prelude::*;

verus! {

/// A view of a context's cancellation status that borrows nothing: the
/// context's deadline and the signals of the context and its ancestors.
#[derive(Clone, Debug)]
pub struct Cancellation {
    deadline: Option<Instant>,
    cancellations: Vec<Arc<AtomicBool>>,
}

/// Done where the deadline is reached or one of the signals is raised.
pub open spec fn done_spec(deadline: Option<Instant>, at: int, raised: Seq<bool>) -> bool {
    (deadline matches Some(d) && instant_nanos(d) <= at) || raised.contains(true)
}

impl Cancellation {
    /// The deadline that is watched.
    pub closed spec fn deadline_of(&self) -> Option<Instant> {
        self.deadline
    }

    /// The signals that are watched.
    pub closed spec fn signals(&self) -> Seq<Arc<AtomicBool>> {
        self.cancellations@
    }

    /// A view that watches `deadline` and `cancellations`.
    pub fn new(deadline: Option<Instant>, cancellations: Vec<Arc<AtomicBool>>) -> (r: Cancellation)
        ensures
            r.deadline_of() == deadline,
            r.signals() == cancellations@,
    {
        Cancellation { deadline, cancellations }
    }

    /// Whether a clock that reads `at` finds the deadline reached.
    pub fn expired_at(&self, at: Instant) -> (r: bool)
        ensures
            r == (self.deadline_of() matches Some(d) && instant_nanos(d) <= instant_nanos(at)),
    {
        match self.deadline {
            Some(deadline) => !before(at, deadline),
            None => false,
        }
    }

    /// Whether work has to stop: the answer that follows from some reading
    /// of the clock and some observation of each signal.
    pub fn is_done(&self) -> (r: bool)
        ensures
            exists|at: int, raised: Seq<bool>|
                raised.len() == self.signals().len() && r == #[trigger] done_spec(
                    self.deadline_of(),
                    at,
                    raised,
                ),
    {
        let at = now();
        let n: usize = self.cancellations.len();
        let ghost quiet = Seq::new(n as nat, |i: int| false);
        if self.expired_at(at) {
            assert(done_spec(self.deadline_of(), instant_nanos(at), quiet));
            return true;
        }
        let mut i: usize = 0;
        while i < n
            invariant
                i <= n,
                n == self.cancellations@.len(),
            decreases n - i,
        {
            if is_raised(&self.cancellations[i]) {
                proof {
                    let raised = Seq::new(n as nat, |j: int| j == i);
                    assert(raised[i as int]);
                    assert(done_spec(self.deadline_of(), instant_nanos(at), raised));
                }
                return true;
            }
            i += 1;
        }
        assert(!done_spec(self.deadline_of(), instant_nanos(at), quiet));
        false
    }
}

} // verus!
