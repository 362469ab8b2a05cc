//! The smallest sample of a window.

use vstd::prelude::*;
use crate::domain::algorithms::extreme::{
    fold, fold_count_bound, fold_finds_extreme, fold_of_concat, is_extreme_of, occurrences,
    sentinel, slide, slide_follows_window,
};
use crate::domain::sample::Sample;

verus! {

/// Follows the smallest sample of a window, and how often it occurs there.
#[derive(Debug, Clone, Copy, PartialEq, Eq, Structural)]
pub struct MinAlg {
    // number of occurrences of the smallest sample
    seen: usize,
    min: Sample,
}

impl MinAlg {
    /// The smallest sample and the number of its occurrences.
    pub closed spec fn state(&self) -> (Sample, nat) {
        (self.min, self.seen as nat)
    }

    /// Whether what is held is the smallest sample of `window` and the number
    /// of its occurrences there.
    pub open spec fn follows(&self, window: Seq<Sample>) -> bool {
        is_extreme_of(self.state(), window, false)
    }

    /// Starts on a window: one pass over it from the highest finite number.
    pub fn new(data: &[Sample]) -> (alg: MinAlg)
        ensures
            alg.state() == fold(data@, (sentinel(false), 0), false),
            alg.follows(data@),
    {
        // a slice is no longer than a count can go
        let len: usize = data.len();
        proof {
            assert(data@.len() == len);
            fold_finds_extreme(data@, false);
        }
        let (min, seen) = fold_min(data, Sample::highest(), 0);
        MinAlg { min, seen }
    }

    /// The smallest sample.
    pub fn get(&self) -> (min: Sample)
        ensures
            min == self.state().0,
    {
        self.min
    }

    /// Moves the window on: `outgoing` leaves it, `inside` stays, `incoming`
    /// enters. No more occurrences of the smallest sample may leave than were
    /// counted. Where the window was followed before, it is followed after.
    pub fn update(&mut self, incoming: &[Sample], outgoing: &[Sample], inside: &[Sample])
        requires
            occurrences(outgoing@, old(self).state().0) <= old(self).state().1,
            old(self).state().1 + incoming@.len() <= usize::MAX,
            incoming@.len() + inside@.len() <= usize::MAX,
        ensures
            final(self).state() == slide(old(self).state(), incoming@, outgoing@, inside@, false),
            old(self).follows(outgoing@ + inside@) ==> final(self).follows(inside@ + incoming@),
    {
        proof {
            if old(self).follows(outgoing@ + inside@) {
                slide_follows_window(old(self).state(), incoming@, outgoing@, inside@, false);
            }
        }
        let gone: usize = count_equal(outgoing, self.min);
        self.seen = self.seen - gone;
        let (min, seen) = fold_min(incoming, self.min, self.seen);

        // Every occurrence of the smallest sample left the window and nothing
        // as small came in: the whole window is looked through.
        if seen == 0 {
            let (min, seen) = fold_min(incoming, Sample::highest(), 0);
            proof {
                fold_count_bound(incoming@, (sentinel(false), 0), false);
                fold_of_concat(incoming@, inside@, (sentinel(false), 0), false);
            }
            let (min, seen) = fold_min(inside, min, seen);
            self.seen = seen;
            self.min = min;
        } else {
            self.seen = seen;
            self.min = min;
        }
    }
}

/// How many of `data` equal `value` as numbers.
fn count_equal(data: &[Sample], value: Sample) -> (count: usize)
    ensures
        count == occurrences(data@, value),
{
    let mut count: usize = 0;
    let mut i: usize = 0;
    while i < data.len()
        invariant
            i <= data@.len(),
            count <= i,
            count == occurrences(data@.take(i as int), value),
        decreases data@.len() - i,
    {
        proof {
            assert(data@.take(i + 1).drop_last() =~= data@.take(i as int));
        }
        if data[i].equal_to(&value) {
            count = count + 1;
        }
        i = i + 1;
    }
    proof {
        assert(data@.take(i as int) =~= data@);
    }
    count
}

/// One pass over `data` for the smallest sample, from the given state.
pub fn fold_min(data: &[Sample], min: Sample, seen: usize) -> (end: (Sample, usize))
    requires
        seen + data@.len() <= usize::MAX,
    ensures
        (end.0, end.1 as nat) == fold(data@, (min, seen as nat), false),
{
    let mut best: Sample = min;
    let mut count: usize = seen;
    let mut i: usize = 0;
    while i < data.len()
        invariant
            i <= data@.len(),
            seen + data@.len() <= usize::MAX,
            count <= seen + i,
            (best, count as nat) == fold(data@.take(i as int), (min, seen as nat), false),
        decreases data@.len() - i,
    {
        proof {
            assert(data@.take(i + 1).drop_last() =~= data@.take(i as int));
        }
        let value: Sample = data[i];
        if value.less_than(&best) {
            best = value;
            count = 1;
        } else if value.equal_to(&best) {
            count = count + 1;
        }
        i = i + 1;
    }
    proof {
        assert(data@.take(i as int) =~= data@);
    }
    (best, count)
}

} // verus!
