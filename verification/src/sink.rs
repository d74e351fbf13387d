//! The result sink: the collector every worker hands its finished outcomes
//! to. It never loses or reorders what was pushed, and releases the whole
//! collection only as one draining move once the pool is finished.

use vstd::prelude::*;
use crate::outcome::ProbeOutcome;

verus! {

/// Accumulates probe outcomes in arrival order.
pub struct ResultSink {
    results: Vec<ProbeOutcome>,
}

impl ResultSink {
    /// The outcomes collected so far, in arrival order.
    pub closed spec fn collected(self) -> Seq<ProbeOutcome> {
        self.results@
    }

    /// An empty sink.
    pub fn new() -> (s: ResultSink)
        ensures
            s.collected() == Seq::<ProbeOutcome>::empty(),
    {
        let s = ResultSink { results: Vec::new() };
        proof {
            assert(s.collected() =~= Seq::<ProbeOutcome>::empty());
        }
        s
    }

    /// Record one completed outcome; nothing already collected is touched.
    pub fn push(&mut self, outcome: ProbeOutcome)
        ensures
            final(self).collected() == old(self).collected().push(outcome),
    {
        self.results.push(outcome);
    }

    /// How many outcomes have arrived.
    pub fn len(&self) -> (n: usize)
        ensures
            n == self.collected().len(),
    {
        self.results.len()
    }

    /// Drain the sink: hand every collected outcome to the caller, in
    /// arrival order, exactly once.
    pub fn into_results(self) -> (r: Vec<ProbeOutcome>)
        ensures
            r@ == self.collected(),
    {
        self.results
    }
}

} // verus!
