//! Work-capping observer for bounded loops.
use vstd::prelude::*;
use crate::error::DfimError;

verus! {

/// Monitors an iteration count and enforces a deterministic work cap.
pub struct PatternObserver {
    max_iterations: usize,
    count: usize,
}

/// Abstract state of an observer: `(cap, ticks so far)`.
pub struct ObserverState {
    pub max_iterations: nat,
    pub count: nat,
}

impl View for PatternObserver {
    type V = ObserverState;

    closed spec fn view(&self) -> ObserverState {
        ObserverState { max_iterations: self.max_iterations as nat, count: self.count as nat }
    }
}

impl PatternObserver {
    /// The observer's invariant: a positive cap that fits in `usize`, and a count that fits too.
    pub open spec fn wf(&self) -> bool {
        &&& self@.max_iterations > 0
        &&& self@.max_iterations <= usize::MAX
        &&& self@.count <= usize::MAX
    }

    /// Creates an observer capped at `max_iterations`; a zero cap is rejected.
    pub fn new(max_iterations: usize) -> (r: Result<Self, DfimError>)
        ensures
            max_iterations == 0 <==> r is Err,
            r is Err ==> r == Err::<Self, DfimError>(DfimError::InvalidParameter),
            r matches Ok(o) ==> o.wf() && o@.max_iterations == max_iterations && o@.count == 0,
    {
        if max_iterations == 0 {
            return Err(DfimError::InvalidParameter);
        }
        Ok(PatternObserver { max_iterations, count: 0 })
    }

    /// Counts one iteration (saturating); fails once the count exceeds the cap.
    pub fn tick(&mut self) -> (r: Result<(), DfimError>)
        requires
            old(self).wf(),
        ensures
            final(self).wf(),
            final(self)@.max_iterations == old(self)@.max_iterations,
            final(self)@.count == if old(self)@.count == usize::MAX {
                old(self)@.count
            } else {
                old(self)@.count + 1
            },
            r is Ok <==> final(self)@.count <= final(self)@.max_iterations,
            r is Err ==> r == Err::<(), DfimError>(DfimError::WorkCapExceeded),
    {
        self.count = self.count.saturating_add(1);
        if self.count > self.max_iterations {
            return Err(DfimError::WorkCapExceeded);
        }
        Ok(())
    }

    /// Iterations counted so far.
    pub fn count(&self) -> (c: usize)
        ensures
            c == self@.count,
    {
        self.count
    }

    /// The configured cap.
    pub fn max_iterations(&self) -> (m: usize)
        ensures
            m == self@.max_iterations,
    {
        self.max_iterations
    }

    /// Clears the count, keeping the cap.
    pub fn reset(&mut self)
        requires
            old(self).wf(),
        ensures
            final(self).wf(),
            final(self)@.max_iterations == old(self)@.max_iterations,
            final(self)@.count == 0,
    {
        self.count = 0;
    }
}

} // verus!
