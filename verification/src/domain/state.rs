//! The registry: every series by its name, with its store and its windows.

use vstd::prelude::*;
use dashmap::DashMap;
use crate::domain::algorithms::extreme::{beyond, extreme_is_attained, sentinel};
use crate::domain::computation::{Computations, WindowedComputations};
use crate::domain::models::{Stats, StatsError, WindowSize};
use crate::domain::registry::{
    find_windows, no_storages, no_windows, put_storage, put_windows, storages_held, take_storage,
    windows_held,
};
use crate::domain::sample::Sample;
use crate::domain::storage::{newest, Storage};
use crate::domain::window::{
    advance_windows, appended, empty_slot_in_step, in_step, nth_size, reached, slot_advanced,
    slot_filled_when_long_enough, slot_in_step, step_matches, WindowStep,
};

verus! {

/// Every series that was taken in, by name.
pub struct State {
    computations: DashMap<String, WindowedComputations>,
    storages: DashMap<String, Storage>,  // data order is from oldest to newest
}

impl State {
    /// The windows of every series, by the characters of its name.
    pub closed spec fn windows(&self) -> Map<Seq<char>, WindowedComputations> {
        windows_held(self.computations)
    }

    /// The samples in store of every series, oldest first, by the characters
    /// of its name.
    pub closed spec fn series(&self) -> Map<Seq<char>, Seq<Sample>> {
        Map::new(
            |name: Seq<char>| storages_held(self.storages).contains_key(name),
            |name: Seq<char>| storages_held(self.storages)[name]@,
        )
    }

    /// Whether a batch was ever taken in under `name`.
    pub open spec fn knows(&self, name: Seq<char>) -> bool {
        self.windows().contains_key(name)
    }

    /// The samples in store under `name`: none where the name is not known.
    pub open spec fn series_of(&self, name: Seq<char>) -> Seq<Sample> {
        if self.series().contains_key(name) {
            self.series()[name]
        } else {
            Seq::empty()
        }
    }

    /// What the place of `size` holds for `name`: nothing where the name is
    /// not known.
    pub open spec fn slot_of(&self, name: Seq<char>, size: WindowSize) -> Option<Computations> {
        if self.knows(name) {
            self.windows()[name].slot(size)
        } else {
            None
        }
    }

    /// The registry keeps its own order: a name has windows exactly when it
    /// has a store, and the windows are in step with the store.
    pub open spec fn wf(&self) -> bool {
        &&& forall|name: Seq<char>| #[trigger] self.knows(name) <==> self.series().contains_key(name)
        &&& forall|name: Seq<char>| #[trigger]
            self.knows(name) ==> in_step(self.windows()[name], self.series()[name])
    }

    /// The answer to a query.
    pub open spec fn stats(&self, name: Seq<char>, size: WindowSize) -> Result<Stats, StatsError> {
        if !self.knows(name) {
            Err(StatsError::NameNotFound)
        } else {
            match self.windows()[name].slot(size) {
                None => Err(StatsError::WindowIsNotFilled),
                Some(bundle) => Ok(
                    Stats {
                        min: bundle.min.state().0,
                        max: bundle.max.state().0,
                        last: bundle.last.value(),
                    },
                ),
            }
        }
    }

    /// Whether `self` is what taking in `batch` under `name` makes of
    /// `before`: the batch is appended to the store of the name, each of its
    /// windows is brought up to date, and no other name is touched.
    pub open spec fn follows_batch(&self, before: State, name: Seq<char>, batch: Seq<Sample>) -> bool {
        &&& self.series() == before.series().insert(name, appended(before.series_of(name), batch))
        &&& forall|other: Seq<char>|
            #[trigger] self.knows(other) <==> (other == name || before.knows(other))
        &&& forall|other: Seq<char>|
            other != name && before.knows(other) ==> #[trigger] self.windows()[other]
                == before.windows()[other]
        &&& forall|size: WindowSize|
            slot_advanced(
                #[trigger] before.slot_of(name, size),
                self.slot_of(name, size),
                before.series_of(name),
                batch,
                size,
            )
    }

    /// Asking twice, with no batch taken in between, is answered the same
    /// both times: whatever two calls of [`State::get_stats`] on one registry
    /// return for one name and one window is equal.
    pub proof fn asking_twice_gives_the_same(
        &self,
        name: &str,
        size: WindowSize,
        first: Result<Stats, StatsError>,
        second: Result<Stats, StatsError>,
    )
        requires
            call_ensures(State::get_stats, (self, name, size), first),
            call_ensures(State::get_stats, (self, name, size), second),
        ensures
            first == second,
            first == self.stats(name@, size),
    {
    }

    /// A query for a name that no batch was taken in under is refused as
    /// such.
    pub proof fn unknown_name_is_refused(&self, name: Seq<char>, size: WindowSize)
        requires
            self.wf(),
            !self.knows(name),
        ensures
            self.stats(name, size) == Err::<Stats, StatsError>(StatsError::NameNotFound),
    {
    }

    /// A query for a window that is longer than the series is refused as
    /// not filled.
    pub proof fn short_series_is_refused(&self, name: Seq<char>, size: WindowSize)
        requires
            self.wf(),
            self.knows(name),
            self.series()[name].len() < size.length(),
        ensures
            self.stats(name, size) == Err::<Stats, StatsError>(StatsError::WindowIsNotFilled),
    {
        slot_filled_when_long_enough(self.windows()[name].slot(size), self.series()[name], size);
    }

    /// A query is answered exactly when the series is known and as long as
    /// the window.
    pub proof fn answered_when_long_enough(&self, name: Seq<char>, size: WindowSize)
        requires
            self.wf(),
        ensures
            self.stats(name, size) is Ok <==> self.knows(name) && self.series_of(name).len()
                >= size.length(),
    {
        if self.knows(name) {
            slot_filled_when_long_enough(
                self.windows()[name].slot(size),
                self.series()[name],
                size,
            );
        }
    }

    /// A window answers from the very batch on with which the samples taken
    /// in under the name are as many as the window is long, and not before.
    pub proof fn window_fills_on_threshold(
        &self,
        before: State,
        name: Seq<char>,
        batch: Seq<Sample>,
        size: WindowSize,
    )
        requires
            before.wf(),
            self.wf(),
            self.follows_batch(before, name, batch),
        ensures
            self.stats(name, size) is Ok <==> before.series_of(name).len() + batch.len()
                >= size.length(),
            before.stats(name, size) is Ok <==> before.series_of(name).len() >= size.length(),
    {
        size.length_is_power_of_ten();
        self.answered_when_long_enough(name, size);
        before.answered_when_long_enough(name, size);
        assert(self.knows(name));
        assert(self.series_of(name) == appended(before.series_of(name), batch));
    }

    /// What a query answers is of the window: the newest sample of the
    /// series, a sample that none of the window lies above and one that none
    /// lies below. Where the window holds a finite number, the largest and
    /// the smallest are samples of the window, up to the sign of a zero.
    pub proof fn stats_are_of_window(&self, name: Seq<char>, size: WindowSize, stats: Stats)
        requires
            self.wf(),
            self.stats(name, size) == Ok::<Stats, StatsError>(stats),
        ensures
            ({
                let window = newest(self.series_of(name), size.length());
                &&& window.len() == size.length()
                &&& stats.last == window.last()
                &&& forall|i: int| 0 <= i < window.len() ==> !(#[trigger] window[i]).above(stats.max)
                &&& forall|i: int| 0 <= i < window.len() ==> !(#[trigger] window[i]).below(stats.min)
                &&& (exists|i: int| 0 <= i < window.len() && (#[trigger] window[i]).is_finite())
                    ==> (exists|i: int| 0 <= i < window.len() && (#[trigger] window[i]).same(stats.max))
                    && (exists|i: int| 0 <= i < window.len() && (#[trigger] window[i]).same(stats.min))
            }),
    {
        let window = newest(self.series_of(name), size.length());
        let bundle = self.windows()[name].slot(size).unwrap();
        slot_filled_when_long_enough(self.windows()[name].slot(size), self.series()[name], size);
        assert forall|i: int| 0 <= i < window.len() implies !(#[trigger] window[i]).above(
            stats.max,
        ) by {
            assert(!beyond(window[i], bundle.max.state().0, true));
        }
        assert forall|i: int| 0 <= i < window.len() implies !(#[trigger] window[i]).below(
            stats.min,
        ) by {
            assert(!beyond(window[i], bundle.min.state().0, false));
        }
        if exists|i: int| 0 <= i < window.len() && (#[trigger] window[i]).is_finite() {
            let i = choose|i: int| 0 <= i < window.len() && (#[trigger] window[i]).is_finite();
            assert(!window[i].is_nan() && !beyond(sentinel(true), window[i], true));
            assert(!window[i].is_nan() && !beyond(sentinel(false), window[i], false));
            extreme_is_attained(bundle.max.state(), window, true);
            extreme_is_attained(bundle.min.state(), window, false);
        }
    }

    /// Batches for two different names do not touch each other: after a
    /// batch for one name and then a batch for another, the first name has
    /// what its own batch made, and the second has what its batch makes of
    /// what it had before either.
    pub proof fn other_names_do_not_interfere(
        &self,
        start: State,
        between: State,
        first: Seq<char>,
        first_batch: Seq<Sample>,
        second: Seq<char>,
        second_batch: Seq<Sample>,
    )
        requires
            first != second,
            between.follows_batch(start, first, first_batch),
            self.follows_batch(between, second, second_batch),
        ensures
            self.series_of(first) == between.series_of(first),
            forall|size: WindowSize|
                #[trigger] self.slot_of(first, size) == between.slot_of(first, size),
            self.series_of(second) == appended(start.series_of(second), second_batch),
            forall|size: WindowSize|
                slot_advanced(
                    #[trigger] start.slot_of(second, size),
                    self.slot_of(second, size),
                    start.series_of(second),
                    second_batch,
                    size,
                ),
    {
        assert(between.series_of(second) == start.series_of(second));
        assert forall|size: WindowSize|
            slot_advanced(
                #[trigger] start.slot_of(second, size),
                self.slot_of(second, size),
                start.series_of(second),
                second_batch,
                size,
            ) by {
            assert(between.slot_of(second, size) == start.slot_of(second, size));
        }
    }

    /// A registry that knows no name.
    pub fn new() -> (state: State)
        ensures
            state.wf(),
            forall|name: Seq<char>| !state.knows(name),
    {
        State { computations: no_windows(), storages: no_storages() }
    }

    /// The statistics of the window `size` of the series `name`.
    pub fn get_stats(&self, name: &str, size: WindowSize) -> (result: Result<Stats, StatsError>)
        ensures
            result == self.stats(name@, size),
    {
        let computations = match find_windows(&self.computations, name) {
            Some(computations) => computations,
            None => {
                return Err(StatsError::NameNotFound);
            },
        };
        let computation = match computations.get_window(size) {
            Some(computation) => computation,
            None => {
                return Err(StatsError::WindowIsNotFilled);
            },
        };

        Ok(
            Stats {
                min: computation.min.get(),
                max: computation.max.get(),
                last: computation.last.get(),
            },
        )
    }

    /// Takes in a batch for the series `name`, oldest sample first, and
    /// reports what was done to each window that the series is now long
    /// enough for, from the shortest on.
    pub fn add_batch(&mut self, name: String, batch: Vec<Sample>) -> (steps: Vec<WindowStep>)
        requires
            old(self).wf(),
        ensures
            final(self).wf(),
            final(self).follows_batch(*old(self), name@, batch@),
            steps@.len() == reached(old(self).series_of(name@).len() + batch@.len()),
            forall|i: int|
                0 <= i < steps@.len() ==> step_matches(
                    #[trigger] steps@[i],
                    old(self).slot_of(name@, nth_size(i)),
                    old(self).series_of(name@),
                    batch@,
                    nth_size(i),
                ),
    {
        let mut computations = match find_windows(&self.computations, name.as_str()) {
            Some(computations) => computations,
            None => WindowedComputations::default(),
        };
        let mut storage = match take_storage(&mut self.storages, name.as_str()) {
            Some(storage) => storage,
            None => Storage::new(),
        };
        let ghost before = computations;
        let ghost series = storage@;
        proof {
            assert(series == old(self).series_of(name@));
            assert forall|size: WindowSize| before.slot(size) == old(self).slot_of(name@, size) by {
            }
            if !old(self).knows(name@) {
                assert forall|size: WindowSize|
                    slot_in_step(#[trigger] before.slot(size), series, size) by {
                    empty_slot_in_step(size);
                }
            }
        }
        let steps = advance_windows(&mut computations, &storage, batch.as_slice());
        storage.append(batch);
        put_windows(&mut self.computations, name.clone(), computations);
        put_storage(&mut self.storages, name, storage);
        proof {
            assert(final(self).series() =~= old(self).series().insert(
                name@,
                appended(series, batch@),
            ));
            assert(final(self).windows() == old(self).windows().insert(name@, computations));
            assert forall|other: Seq<char>| #[trigger]
                final(self).knows(other) <==> final(self).series().contains_key(other) by {
                assert(old(self).knows(other) <==> old(self).series().contains_key(other));
            }
            assert forall|other: Seq<char>| #[trigger]
                final(self).knows(other) implies in_step(
                final(self).windows()[other],
                final(self).series()[other],
            ) by {
                if other != name@ {
                    assert(old(self).knows(other));
                }
            }
        }
        steps
    }
}

impl Default for State {
    fn default() -> (state: State)
        ensures
            state.wf(),
            forall|name: Seq<char>| !state.knows(name),
    {
        State::new()
    }
}

} // verus!
