//! The largest sample of a window.

use vstd::prelude::*;
use crate::domain::algorithms::extreme::{
    fold, fold_count_bound, fold_finds_extreme, fold_of_concat, is_extreme_of, occurrences,
    sentinel, slide, slide_follows_window,
};
use crate::domain::sample::Sample;

verus! {

/// Follows the largest sample of a window, and how often it occurs there.
#[derive(Debug, Clone, Copy, PartialEq, Eq, Structural)]
pub struct MaxAlg {
    // number of occurrences of the largest sample
    seen: usize,
    max: Sample,
}

impl MaxAlg {
    /// The largest sample and the number of its occurrences.
    pub closed spec fn state(&self) -> (Sample, nat) {
        (self.max, self.seen as nat)
    }

    /// Whether what is held is the largest sample of `window` and the number
    /// of its occurrences there.
    pub open spec fn follows(&self, window: Seq<Sample>) -> bool {
        is_extreme_of(self.state(), window, true)
    }

    /// Starts on a window: one pass over it from the lowest finite number.
    pub fn new(data: &[Sample]) -> (alg: MaxAlg)
        ensures
            alg.state() == fold(data@, (sentinel(true), 0), true),
            alg.follows(data@),
    {
        // a slice is no longer than a count can go
        let len: usize = data.len();
        proof {
            assert(data@.len() == len);
            fold_finds_extreme(data@, true);
        }
        let (max, seen) = fold_max(data, Sample::lowest(), 0);
        MaxAlg { max, seen }
    }

    /// The largest sample.
    pub fn get(&self) -> (max: Sample)
        ensures
            max == self.state().0,
    {
        self.max
    }

    /// Moves the window on: `outgoing` leaves it, `inside` stays, `incoming`
    /// enters. No more occurrences of the largest sample may leave than were
    /// counted. Where the window was followed before, it is followed after.
    pub fn update(&mut self, incoming: &[Sample], outgoing: &[Sample], inside: &[Sample])
        requires
            occurrences(outgoing@, old(self).state().0) <= old(self).state().1,
            old(self).state().1 + incoming@.len() <= usize::MAX,
            incoming@.len() + inside@.len() <= usize::MAX,
        ensures
            final(self).state() == slide(old(self).state(), incoming@, outgoing@, inside@, true),
            old(self).follows(outgoing@ + inside@) ==> final(self).follows(inside@ + incoming@),
    {
        proof {
            if old(self).follows(outgoing@ + inside@) {
                slide_follows_window(old(self).state(), incoming@, outgoing@, inside@, true);
            }
        }
        let gone: usize = count_equal(outgoing, self.max);
        self.seen = self.seen - gone;
        let (max, seen) = fold_max(incoming, self.max, self.seen);

        // Every occurrence of the largest sample left the window and nothing
        // as large came in: the whole window is looked through.
        if seen == 0 {
            let (max, seen) = fold_max(incoming, Sample::lowest(), 0);
            proof {
                fold_count_bound(incoming@, (sentinel(true), 0), true);
                fold_of_concat(incoming@, inside@, (sentinel(true), 0), true);
            }
            let (max, seen) = fold_max(inside, max, seen);
            self.seen = seen;
            self.max = max;
        } else {
            self.seen = seen;
            self.max = max;
        }
    }
}

/// How many of `data` equal `value` as numbers.
fn count_equal(data: &[Sample], value: Sample) -> (count: usize)
    ensures
        count == occurrences(data@, value),
{
    let mut count: usize = 0;
    let mut i: usize = 0;
    while i < data.len()
        invariant
            i <= data@.len(),
            count <= i,
            count == occurrences(data@.take(i as int), value),
        decreases data@.len() - i,
    {
        proof {
            assert(data@.take(i + 1).drop_last() =~= data@.take(i as int));
        }
        if data[i].equal_to(&value) {
            count = count + 1;
        }
        i = i + 1;
    }
    proof {
        assert(data@.take(i as int) =~= data@);
    }
    count
}

/// One pass over `data` for the largest sample, from the given state.
pub fn fold_max(data: &[Sample], max: Sample, seen: usize) -> (end: (Sample, usize))
    requires
        seen + data@.len() <= usize::MAX,
    ensures
        (end.0, end.1 as nat) == fold(data@, (max, seen as nat), true),
{
    let mut best: Sample = max;
    let mut count: usize = seen;
    let mut i: usize = 0;
    while i < data.len()
        invariant
            i <= data@.len(),
            seen + data@.len() <= usize::MAX,
            count <= seen + i,
            (best, count as nat) == fold(data@.take(i as int), (max, seen as nat), true),
        decreases data@.len() - i,
    {
        proof {
            assert(data@.take(i + 1).drop_last() =~= data@.take(i as int));
        }
        let value: Sample = data[i];
        if value.greater_than(&best) {
            best = value;
            count = 1;
        } else if value.equal_to(&best) {
            count = count + 1;
        }
        i = i + 1;
    }
    proof {
        assert(data@.take(i as int) =~= data@);
    }
    (best, count)
}

} // verus!
