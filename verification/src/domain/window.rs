//! What a batch does to one window of one series.

use vstd::prelude::*;
use vstd::slice::slice_subrange;
use vstd::slice::slice_to_vec;
use crate::domain::computation::{Computations, WindowedComputations};
use crate::domain::models::{WindowSize, LONGEST_WINDOW};
use crate::domain::sample::Sample;
use crate::domain::storage::{newest, Storage};

verus! {

/// What was done to one window when a batch came in, with the samples that
/// a statistic kept elsewhere needs to follow the window too.
#[derive(Debug, PartialEq, Eq)]
pub enum WindowStep {
    /// The window was started anew: `window` holds its samples, oldest first.
    Rebuilt { size: WindowSize, window: Vec<Sample> },
    /// The window moved on by the batch: `outgoing` holds the samples that
    /// left it, oldest first, as many as the batch brought in.
    Advanced { size: WindowSize, outgoing: Vec<Sample> },
}

/// The samples that leave a window of length `window` when a shorter batch
/// of `incoming` samples comes in: the oldest of the window.
pub open spec fn leaving(series: Seq<Sample>, incoming: nat, window: nat) -> Seq<Sample> {
    series.subrange(series.len() - window, series.len() - window + incoming)
}

/// The samples that stay in a window of length `window` when a shorter batch
/// of `incoming` samples comes in: the newest of the series, as many as the
/// batch leaves room for.
pub open spec fn staying(series: Seq<Sample>, incoming: nat, window: nat) -> Seq<Sample> {
    newest(series, (window - incoming) as nat)
}

/// The series after a batch: what it held followed by the batch, cut to
/// the newest samples that the store has room for.
pub open spec fn appended(series: Seq<Sample>, batch: Seq<Sample>) -> Seq<Sample> {
    newest(series + batch, LONGEST_WINDOW as nat)
}

/// Whether `after` is what a batch makes of the place `before` of a window,
/// for a series that held `series` when the batch came.
///
/// A window longer than series and batch together is left alone. A window
/// no longer than the batch is started anew on the newest samples of the
/// batch. Otherwise a bundle that is there moves on, and one that is not is
/// started on the newest samples of the series followed by the batch.
#[verifier::opaque]
pub open spec fn slot_advanced(
    before: Option<Computations>,
    after: Option<Computations>,
    series: Seq<Sample>,
    batch: Seq<Sample>,
    size: WindowSize,
) -> bool {
    let window = size.length();
    if window > series.len() + batch.len() {
        after == before
    } else if batch.len() >= window {
        after is Some && after.unwrap().built_from(newest(batch, window))
    } else {
        match before {
            Some(bundle) => after is Some && after.unwrap().moved_from(
                bundle,
                batch,
                leaving(series, batch.len(), window),
                staying(series, batch.len(), window),
            ),
            None => after is Some && after.unwrap().built_from(
                staying(series, batch.len(), window) + batch,
            ),
        }
    }
}

/// Whether `step` reports what a batch did to a window that it reached.
#[verifier::opaque]
pub open spec fn step_matches(
    step: WindowStep,
    before: Option<Computations>,
    series: Seq<Sample>,
    batch: Seq<Sample>,
    size: WindowSize,
) -> bool {
    let window = size.length();
    match step {
        WindowStep::Rebuilt { size: of, window: samples } => {
            &&& of == size
            &&& batch.len() >= window || before is None
            &&& samples@ == if batch.len() >= window {
                newest(batch, window)
            } else {
                staying(series, batch.len(), window) + batch
            }
        },
        WindowStep::Advanced { size: of, outgoing } => {
            &&& of == size
            &&& batch.len() < window
            &&& before is Some
            &&& outgoing@ == leaving(series, batch.len(), window)
        },
    }
}

/// Whether the place of `size` is in step with the series: it is filled
/// once the series is as long as the window, and the bundle in it follows
/// the newest samples of the series.
#[verifier::opaque]
pub open spec fn slot_in_step(slot: Option<Computations>, series: Seq<Sample>, size: WindowSize) -> bool {
    match slot {
        Some(bundle) => series.len() >= size.length() && bundle.follows(
            newest(series, size.length()),
        ),
        None => series.len() < size.length(),
    }
}

/// Whether `after` is what a batch makes of the place `before`, and is in
/// step with the series after the batch.
pub open spec fn settled(
    before: Option<Computations>,
    after: Option<Computations>,
    series: Seq<Sample>,
    batch: Seq<Sample>,
    size: WindowSize,
) -> bool {
    &&& slot_advanced(before, after, series, batch, size)
    &&& slot_in_step(after, appended(series, batch), size)
}

/// Whether every place is in step with the series.
pub open spec fn in_step(windows: WindowedComputations, series: Seq<Sample>) -> bool {
    &&& series.len() <= LONGEST_WINDOW
    &&& forall|size: WindowSize| slot_in_step(#[trigger] windows.slot(size), series, size)
}

/// A window that is longer than the batch is made of the samples that leave
/// and those that stay.
pub proof fn window_parts(series: Seq<Sample>, incoming: nat, window: nat)
    requires
        incoming < window <= series.len(),
    ensures
        newest(series, window) == leaving(series, incoming, window) + staying(
            series,
            incoming,
            window,
        ),
        leaving(series, incoming, window).len() == incoming,
        staying(series, incoming, window).len() == window - incoming,
{
    assert(newest(series, window) =~= leaving(series, incoming, window) + staying(
        series,
        incoming,
        window,
    ));
}

/// The window of a series after a batch: the newest samples of the batch
/// where the batch fills it, else the samples that stay followed by the
/// batch.
pub proof fn window_after_batch(series: Seq<Sample>, batch: Seq<Sample>, size: WindowSize)
    requires
        series.len() <= LONGEST_WINDOW,
        size.length() <= series.len() + batch.len(),
    ensures
        appended(series, batch).len() >= size.length(),
        appended(series, batch).len() <= LONGEST_WINDOW,
        newest(appended(series, batch), size.length()) == if batch.len() >= size.length() {
            newest(batch, size.length())
        } else {
            staying(series, batch.len(), size.length()) + batch
        },
{
    let window = size.length();
    let all = series + batch;
    if batch.len() >= window {
        assert(newest(appended(series, batch), window) =~= newest(batch, window));
    } else {
        assert(newest(appended(series, batch), window) =~= staying(series, batch.len(), window)
            + batch);
    }
}

/// A window that a batch does not reach is left alone, and its place stays
/// in step with the series: it was empty and stays so.
pub proof fn window_out_of_reach(
    slot: Option<Computations>,
    series: Seq<Sample>,
    batch: Seq<Sample>,
    size: WindowSize,
)
    requires
        slot_in_step(slot, series, size),
        size.length() > series.len() + batch.len(),
    ensures
        slot is None,
        slot_advanced(slot, slot, series, batch, size),
        slot_in_step(slot, appended(series, batch), size),
{
    reveal(slot_advanced);
    reveal(slot_in_step);
}

/// A place is empty exactly as long as the series is shorter than the
/// window.
pub proof fn slot_filled_when_long_enough(
    slot: Option<Computations>,
    series: Seq<Sample>,
    size: WindowSize,
)
    requires
        slot_in_step(slot, series, size),
    ensures
        slot is Some <==> series.len() >= size.length(),
        slot is Some ==> slot.unwrap().follows(newest(series, size.length())),
{
    reveal(slot_in_step);
}

/// An empty place is in step with a series that holds nothing.
pub proof fn empty_slot_in_step(size: WindowSize)
    ensures
        slot_in_step(None, Seq::empty(), size),
{
    reveal(slot_in_step);
}

/// The newest `count` samples of `data`, or all where there are no more.
fn tail(data: &[Sample], count: usize) -> (samples: &[Sample])
    ensures
        samples@ == newest(data@, count as nat),
{
    let len: usize = data.len();
    if count >= len {
        data
    } else {
        slice_subrange(data, len - count, len)
    }
}

/// Brings the window of `size` up to date with a batch that reaches it:
/// series and batch together are as long as the window. The store still
/// holds the series as it was before the batch.
pub fn advance_window(
    windows: &mut WindowedComputations,
    storage: &Storage,
    batch: &[Sample],
    size: WindowSize,
) -> (step: WindowStep)
    requires
        slot_in_step(old(windows).slot(size), storage@, size),
        size.length() <= storage@.len() + batch@.len(),
    ensures
        slot_advanced(old(windows).slot(size), final(windows).slot(size), storage@, batch@, size),
        slot_in_step(final(windows).slot(size), appended(storage@, batch@), size),
        step_matches(step, old(windows).slot(size), storage@, batch@, size),
        forall|other: WindowSize|
            other != size ==> final(windows).slot(other) == old(windows).slot(other),
{
    let window_size: usize = size.into();
    let stored: usize = storage.len();
    proof {
        reveal(slot_advanced);
        reveal(slot_in_step);
        reveal(step_matches);
        size.length_is_power_of_ten();
        window_after_batch(storage@, batch@, size);
    }
    if batch.len() >= window_size {
        // the batch alone fills the window
        let window = tail(batch, window_size);
        windows.insert(size, Computations::new(window));
        WindowStep::Rebuilt { size, window: slice_to_vec(window) }
    } else {
        match windows.get_window_mut(size) {
            Some(computation) => {
                let first: usize = stored - window_size;
                let outgoing = storage.range(first, first + batch.len());
                let inside = storage.recent(window_size - batch.len());
                proof {
                    window_parts(storage@, batch@.len() as nat, size.length());
                    computation.follows_allows_update(batch@, outgoing@, inside@);
                }
                computation.update(batch, outgoing.as_slice(), inside.as_slice());
                WindowStep::Advanced { size, outgoing }
            },
            None => {
                // series and batch together fill the window for the first time
                let mut window = storage.recent(window_size - batch.len());
                let ghost inside = window@;
                window.extend_from_slice(batch);
                proof {
                    assert(window@ =~= inside + batch@);
                }
                windows.insert(size, Computations::new(window.as_slice()));
                WindowStep::Rebuilt { size, window }
            },
        }
    }
}

/// How many windows a series of `total` samples is long enough for.
pub open spec fn reached(total: nat) -> nat {
    if total < 10 {
        0
    } else if total < 100 {
        1
    } else if total < 1_000 {
        2
    } else if total < 10_000 {
        3
    } else if total < 100_000 {
        4
    } else if total < 1_000_000 {
        5
    } else if total < 10_000_000 {
        6
    } else if total < 100_000_000 {
        7
    } else {
        8
    }
}

/// The window at place `index` of the windows in ascending order.
pub open spec fn nth_size(index: int) -> WindowSize {
    if index <= 0 {
        WindowSize::E1
    } else if index == 1 {
        WindowSize::E2
    } else if index == 2 {
        WindowSize::E3
    } else if index == 3 {
        WindowSize::E4
    } else if index == 4 {
        WindowSize::E5
    } else if index == 5 {
        WindowSize::E6
    } else if index == 6 {
        WindowSize::E7
    } else {
        WindowSize::E8
    }
}

/// A series is long enough for a window exactly when the window is among
/// the first that it has reached.
pub proof fn reached_counts_windows(total: nat, size: WindowSize)
    ensures
        size.length() <= total <==> size.exponent() <= reached(total),
        nth_size(size.exponent() - 1) == size,
{
}

/// Brings every window up to date with a batch, from the shortest on, and
/// stops at the first that series and batch together do not fill: no longer
/// one is filled either. The store still holds the series as it was before
/// the batch. The steps come in the order of the windows.
pub fn advance_windows(
    windows: &mut WindowedComputations,
    storage: &Storage,
    batch: &[Sample],
) -> (steps: Vec<WindowStep>)
    requires
        in_step(*old(windows), storage@),
    ensures
        in_step(*final(windows), appended(storage@, batch@)),
        forall|size: WindowSize|
            slot_advanced(
                old(windows).slot(size),
                #[trigger] final(windows).slot(size),
                storage@,
                batch@,
                size,
            ),
        steps@.len() == reached(storage@.len() + batch@.len()),
        forall|i: int|
            0 <= i < steps@.len() ==> step_matches(
                #[trigger] steps@[i],
                old(windows).slot(nth_size(i)),
                storage@,
                batch@,
                nth_size(i),
            ),
{
    let ghost before = *windows;
    let ghost series = storage@;
    let ghost total = series.len() + batch@.len();
    let sizes = WindowSize::ascending();
    let mut steps: Vec<WindowStep> = Vec::new();
    let mut i: usize = 0;
    while i < 8
        invariant
            i <= 8,
            i <= reached(total),
            total == series.len() + batch@.len(),
            storage@ == series,
            series.len() <= LONGEST_WINDOW,
            forall|k: int|
                0 <= k < 8 ==> WindowSize::of_exponent((k + 1) as nat) == Some(#[trigger] sizes[k]),
            forall|size: WindowSize|
                size.exponent() > i ==> #[trigger] windows.slot(size) == before.slot(size),
            forall|size: WindowSize| slot_in_step(#[trigger] before.slot(size), series, size),
            forall|size: WindowSize|
                size.exponent() <= i ==> settled(
                    before.slot(size),
                    #[trigger] windows.slot(size),
                    series,
                    batch@,
                    size,
                ),
            steps@.len() == i,
            forall|k: int|
                0 <= k < i ==> step_matches(
                    #[trigger] steps@[k],
                    before.slot(nth_size(k)),
                    series,
                    batch@,
                    nth_size(k),
                ),
        ensures
            steps@.len() == reached(total),
            forall|size: WindowSize|
                settled(before.slot(size), #[trigger] windows.slot(size), series, batch@, size),
            forall|k: int|
                0 <= k < steps@.len() ==> step_matches(
                    #[trigger] steps@[k],
                    before.slot(nth_size(k)),
                    series,
                    batch@,
                    nth_size(k),
                ),
        decreases 8 - i,
    {
        let size = sizes[i];
        let window_size: usize = size.into();
        proof {
            assert(size == nth_size(i as int));
            reached_counts_windows(total, size);
        }

        // not enough samples yet for this window, nor for a longer one
        if batch.len() < window_size && storage.len() < window_size - batch.len() {
            proof {
                assert forall|other: WindowSize|
                    settled(
                        before.slot(other),
                        #[trigger] windows.slot(other),
                        series,
                        batch@,
                        other,
                    ) by {
                    if other.exponent() > i {
                        size.length_grows_with_exponent(other);
                        window_out_of_reach(before.slot(other), series, batch@, other);
                    }
                }
            }
            break ;
        }
        let ghost earlier = *windows;
        proof {
            assert(windows.slot(size) == before.slot(size));
        }
        let step = advance_window(windows, storage, batch, size);
        steps.push(step);
        i = i + 1;
        proof {
            assert forall|other: WindowSize| other.exponent() <= i implies settled(
                before.slot(other),
                #[trigger] windows.slot(other),
                series,
                batch@,
                other,
            ) by {
                if other != size {
                    assert(windows.slot(other) == earlier.slot(other));
                    assert(other.exponent() <= i - 1);
                }
            }
        }
    }
    proof {
        assert forall|size: WindowSize|
            slot_in_step(#[trigger] windows.slot(size), appended(series, batch@), size) by {
            assert(settled(before.slot(size), windows.slot(size), series, batch@, size));
        }
    }
    steps
}

} // verus!
