//! The statistics of one series: for each window size the algorithms that
//! follow it, once the series is long enough.

use vstd::prelude::*;
use crate::domain::algorithms::extreme::{
    fold, occurrences, occurrences_at_most_len, sentinel, slide, slide_follows_window,
};
use crate::domain::algorithms::last::LastAlg;
use crate::domain::algorithms::max::MaxAlg;
use crate::domain::algorithms::min::MinAlg;
use crate::domain::models::WindowSize;
use crate::domain::sample::Sample;

verus! {

/// The algorithms that follow one window of one series.
#[derive(Debug, Clone, Copy, PartialEq, Eq, Structural)]
pub struct Computations {
    pub last: LastAlg,
    pub max: MaxAlg,
    pub min: MinAlg,
}

impl Computations {
    /// Whether each algorithm holds what a start on `window` gives.
    pub open spec fn built_from(&self, window: Seq<Sample>) -> bool {
        &&& self.last.value() == window.last()
        &&& self.max.state() == fold(window, (sentinel(true), 0), true)
        &&& self.min.state() == fold(window, (sentinel(false), 0), false)
    }

    /// Whether each algorithm holds what its update gives from `before`.
    pub open spec fn moved_from(
        &self,
        before: Computations,
        incoming: Seq<Sample>,
        outgoing: Seq<Sample>,
        inside: Seq<Sample>,
    ) -> bool {
        &&& self.last.value() == if incoming.len() > 0 {
            incoming.last()
        } else {
            before.last.value()
        }
        &&& self.max.state() == slide(before.max.state(), incoming, outgoing, inside, true)
        &&& self.min.state() == slide(before.min.state(), incoming, outgoing, inside, false)
    }

    /// Whether the algorithms hold the newest, the largest and the smallest
    /// sample of `window`.
    pub open spec fn follows(&self, window: Seq<Sample>) -> bool {
        &&& self.last.follows(window)
        &&& self.max.follows(window)
        &&& self.min.follows(window)
    }

    /// A bundle that follows a window can be moved on by any batch that
    /// counts can hold together with the window.
    pub proof fn follows_allows_update(
        self,
        incoming: Seq<Sample>,
        outgoing: Seq<Sample>,
        inside: Seq<Sample>,
    )
        requires
            self.follows(outgoing + inside),
            outgoing.len() + inside.len() + incoming.len() <= usize::MAX,
        ensures
            occurrences(outgoing, self.max.state().0) <= self.max.state().1,
            occurrences(outgoing, self.min.state().0) <= self.min.state().1,
            self.max.state().1 + incoming.len() <= usize::MAX,
            self.min.state().1 + incoming.len() <= usize::MAX,
    {
        slide_follows_window(self.max.state(), incoming, outgoing, inside, true);
        slide_follows_window(self.min.state(), incoming, outgoing, inside, false);
        occurrences_at_most_len(outgoing + inside, self.max.state().0);
        occurrences_at_most_len(outgoing + inside, self.min.state().0);
    }

    /// Starts every algorithm on a window, which holds at least one sample.
    pub fn new(data: &[Sample]) -> (bundle: Computations)
        requires
            data@.len() > 0,
        ensures
            bundle.built_from(data@),
            bundle.follows(data@),
    {
        Computations { last: LastAlg::new(data), max: MaxAlg::new(data), min: MinAlg::new(data) }
    }

    /// Moves every algorithm on: `outgoing` leaves the window, `inside`
    /// stays, `incoming` enters. Where the window was followed before, the
    /// new window is followed after.
    pub fn update(&mut self, incoming: &[Sample], outgoing: &[Sample], inside: &[Sample])
        requires
            occurrences(outgoing@, old(self).max.state().0) <= old(self).max.state().1,
            occurrences(outgoing@, old(self).min.state().0) <= old(self).min.state().1,
            old(self).max.state().1 + incoming@.len() <= usize::MAX,
            old(self).min.state().1 + incoming@.len() <= usize::MAX,
            incoming@.len() + inside@.len() <= usize::MAX,
        ensures
            final(self).moved_from(*old(self), incoming@, outgoing@, inside@),
            old(self).follows(outgoing@ + inside@) && inside@.len() + incoming@.len() > 0
                ==> final(self).follows(inside@ + incoming@),
    {
        proof {
            if old(self).follows(outgoing@ + inside@) && incoming@.len() == 0 {
                if inside@.len() > 0 {
                    assert((outgoing@ + inside@).last() == inside@.last());
                    assert(inside@ + incoming@ =~= inside@);
                }
            }
        }
        self.last.update(incoming);
        self.max.update(incoming, outgoing, inside);
        self.min.update(incoming, outgoing, inside);
    }
}

/// The bundles of one series, one place for each window size: a place is
/// empty until the series is as long as the window.
#[derive(Debug, Clone, Copy, PartialEq, Eq, Structural)]
pub struct WindowedComputations {
    pub e1: Option<Computations>,
    pub e2: Option<Computations>,
    pub e3: Option<Computations>,
    pub e4: Option<Computations>,
    pub e5: Option<Computations>,
    pub e6: Option<Computations>,
    pub e7: Option<Computations>,
    pub e8: Option<Computations>,
}

impl Default for WindowedComputations {
    fn default() -> (windows: WindowedComputations)
        ensures
            forall|size: WindowSize| windows.slot(size) is None,
    {
        WindowedComputations {
            e1: None,
            e2: None,
            e3: None,
            e4: None,
            e5: None,
            e6: None,
            e7: None,
            e8: None,
        }
    }
}

impl WindowedComputations {
    /// What the place of `size` holds.
    pub open spec fn slot(&self, size: WindowSize) -> Option<Computations> {
        match size {
            WindowSize::E1 => self.e1,
            WindowSize::E2 => self.e2,
            WindowSize::E3 => self.e3,
            WindowSize::E4 => self.e4,
            WindowSize::E5 => self.e5,
            WindowSize::E6 => self.e6,
            WindowSize::E7 => self.e7,
            WindowSize::E8 => self.e8,
        }
    }

    /// The bundle of `size`, where there is one.
    pub fn get_window(&self, size: WindowSize) -> (bundle: Option<&Computations>)
        ensures
            match bundle {
                Some(found) => self.slot(size) == Some(*found),
                None => self.slot(size) is None,
            },
    {
        match size {
            WindowSize::E1 => self.e1.as_ref(),
            WindowSize::E2 => self.e2.as_ref(),
            WindowSize::E3 => self.e3.as_ref(),
            WindowSize::E4 => self.e4.as_ref(),
            WindowSize::E5 => self.e5.as_ref(),
            WindowSize::E6 => self.e6.as_ref(),
            WindowSize::E7 => self.e7.as_ref(),
            WindowSize::E8 => self.e8.as_ref(),
        }
    }

    /// The bundle of `size` to be changed in place, where there is one. What
    /// the other places hold stays.
    pub fn get_window_mut(&mut self, size: WindowSize) -> (bundle: Option<&mut Computations>)
        ensures
            match bundle {
                Some(found) => {
                    &&& old(self).slot(size) == Some(*found)
                    &&& final(self).slot(size) == Some(*final(found))
                },
                None => {
                    &&& old(self).slot(size) is None
                    &&& final(self).slot(size) is None
                },
            },
            forall|other: WindowSize| other != size ==> final(self).slot(other) == old(self).slot(other),
    {
        match size {
            WindowSize::E1 => self.e1.as_mut(),
            WindowSize::E2 => self.e2.as_mut(),
            WindowSize::E3 => self.e3.as_mut(),
            WindowSize::E4 => self.e4.as_mut(),
            WindowSize::E5 => self.e5.as_mut(),
            WindowSize::E6 => self.e6.as_mut(),
            WindowSize::E7 => self.e7.as_mut(),
            WindowSize::E8 => self.e8.as_mut(),
        }
    }

    /// Puts a bundle in the place of `size`, instead of what was there. What
    /// the other places hold stays.
    pub fn insert(&mut self, size: WindowSize, computation: Computations)
        ensures
            final(self).slot(size) == Some(computation),
            forall|other: WindowSize| other != size ==> final(self).slot(other) == old(self).slot(other),
    {
        match size {
            WindowSize::E1 => self.e1 = Some(computation),
            WindowSize::E2 => self.e2 = Some(computation),
            WindowSize::E3 => self.e3 = Some(computation),
            WindowSize::E4 => self.e4 = Some(computation),
            WindowSize::E5 => self.e5 = Some(computation),
            WindowSize::E6 => self.e6 = Some(computation),
            WindowSize::E7 => self.e7 = Some(computation),
            WindowSize::E8 => self.e8 = Some(computation),
        }
    }
}

} // verus!
