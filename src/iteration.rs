//! Bounded iteration: every iterative routine stops after a fixed number of
//! rounds and reports that it did not converge.
use vstd::prelude::*;

verus! {

/// Rounds of iterative refinement of an LU solution.
pub const REFINEMENT_CAP: usize = 50;

/// Rounds of the Jacobi-Richardson and Gauss-Seidel solvers.
pub const ITERATIVE_SOLVER_CAP: usize = 10000;

/// Rounds of the power method and of the LR iteration.
pub const EIGEN_CAP: usize = 10000;

/// Rounds of a scalar root finder.
pub const ROOT_CAP: usize = 10000;

/// What an iterative routine does after a round.
#[derive(Clone, Copy, Debug, PartialEq, Eq, Structural)]
pub enum Step {
    /// Run another round.
    Continue,
    /// The stopping criterion held: return the current iterate.
    Converged,
    /// The cap is reached without convergence: report failure.
    Exhausted,
}

/// Count of the rounds an iterative routine has run, against its cap.
#[derive(Clone, Copy, Debug, PartialEq, Eq, Structural)]
pub struct Iteration {
    /// Most rounds the routine may run.
    pub cap: usize,
    /// Rounds run so far.
    pub done: usize,
}

impl Iteration {
    /// At most `cap` rounds have run.
    pub open spec fn wf(&self) -> bool {
        self.done <= self.cap
    }

    /// No round has run yet, and at most `cap` may.
    pub fn new(cap: usize) -> (it: Iteration)
        ensures
            it.wf(),
            it.cap == cap,
            it.done == 0,
    {
        Iteration { cap, done: 0 }
    }

    /// Another round is allowed.
    pub fn may_run(&self) -> (r: bool)
        requires
            self.wf(),
        ensures
            r == (self.done < self.cap),
    {
        self.done < self.cap
    }

    /// Records one finished round, `converged` telling whether the stopping
    /// criterion held after it, and decides what comes next: stop with the
    /// iterate when it converged, give up when this was the last round allowed,
    /// go on otherwise.
    pub fn record(&mut self, converged: bool) -> (s: Step)
        requires
            old(self).wf(),
            old(self).done < old(self).cap,
        ensures
            final(self).wf(),
            final(self).cap == old(self).cap,
            final(self).done == old(self).done + 1,
            s == (if converged {
                Step::Converged
            } else if final(self).done == final(self).cap {
                Step::Exhausted
            } else {
                Step::Continue
            }),
    {
        self.done = self.done + 1;
        if converged {
            Step::Converged
        } else if self.done == self.cap {
            Step::Exhausted
        } else {
            Step::Continue
        }
    }
}

} // verus!
