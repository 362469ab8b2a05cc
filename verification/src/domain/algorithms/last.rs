//! The newest sample of a window.

use vstd::prelude::*;
use crate::domain::sample::Sample;

verus! {

/// Follows the newest sample of a window.
#[derive(Debug, Clone, Copy, PartialEq, Eq, Structural)]
pub struct LastAlg {
    last: Sample,
}

impl LastAlg {
    /// The sample that is held.
    pub closed spec fn value(&self) -> Sample {
        self.last
    }

    /// Whether the sample held is the newest of `window`.
    pub open spec fn follows(&self, window: Seq<Sample>) -> bool {
        window.len() > 0 && self.value() == window.last()
    }

    /// Starts on a window, which holds at least one sample.
    pub fn new(data: &[Sample]) -> (alg: LastAlg)
        requires
            data@.len() > 0,
        ensures
            alg.value() == data@.last(),
    {
        LastAlg { last: data[data.len() - 1] }
    }

    /// The newest sample.
    pub fn get(&self) -> (last: Sample)
        ensures
            last == self.value(),
    {
        self.last
    }

    /// Takes the newest of the incoming samples; with none the sample held stays.
    pub fn update(&mut self, incoming: &[Sample])
        ensures
            final(self).value() == if incoming@.len() > 0 {
                incoming@.last()
            } else {
                old(self).value()
            },
    {
        if incoming.len() > 0 {
            self.last = incoming[incoming.len() - 1];
        }
    }

    /// Where the window moves on by the incoming samples, the sample held
    /// after the update is the newest of the new window.
    pub proof fn update_follows_window(
        before: LastAlg,
        after: LastAlg,
        inside: Seq<Sample>,
        incoming: Seq<Sample>,
    )
        requires
            inside.len() + incoming.len() > 0,
            incoming.len() == 0 ==> before.follows(inside),
            after.value() == if incoming.len() > 0 {
                incoming.last()
            } else {
                before.value()
            },
        ensures
            after.follows(inside + incoming),
    {
    }
}

} // verus!
