//! What the largest and the smallest sample of a window have in common: one
//! pass over the samples that keeps the extreme seen so far and counts how
//! often it occurred.

use vstd::prelude::*;
use crate::domain::sample::Sample;

verus! {

/// Whether `value` lies strictly beyond `extreme`: above it where the
/// largest is sought (`upward`), below it where the smallest is.
pub open spec fn beyond(value: Sample, extreme: Sample, upward: bool) -> bool {
    if upward {
        value.above(extreme)
    } else {
        value.below(extreme)
    }
}

/// Where a pass starts: the finite number that every other finite number
/// lies beyond or equals.
pub open spec fn sentinel(upward: bool) -> Sample {
    if upward {
        Sample::spec_lowest()
    } else {
        Sample::spec_highest()
    }
}

/// One step of a pass: a sample beyond the extreme takes its place and is
/// counted once, one equal to it is counted too, any other changes nothing.
pub open spec fn step(state: (Sample, nat), value: Sample, upward: bool) -> (Sample, nat) {
    if beyond(value, state.0, upward) {
        (value, 1)
    } else if value.same(state.0) {
        (state.0, state.1 + 1)
    } else {
        state
    }
}

/// The pass over `data`, oldest sample first, from the given state.
pub open spec fn fold(data: Seq<Sample>, state: (Sample, nat), upward: bool) -> (Sample, nat)
    decreases data.len(),
{
    if data.len() == 0 {
        state
    } else {
        step(fold(data.drop_last(), state, upward), data.last(), upward)
    }
}

/// How many samples of `data` equal `value` as numbers.
pub open spec fn occurrences(data: Seq<Sample>, value: Sample) -> nat
    decreases data.len(),
{
    if data.len() == 0 {
        0
    } else {
        occurrences(data.drop_last(), value) + if data.last().same(value) {
            1nat
        } else {
            0nat
        }
    }
}

/// Whether `state` is the extreme of `window` with the number of its
/// occurrences: no sample lies beyond it, the count is that of the samples
/// equal to it, and where none equals it, it is the sentinel.
pub open spec fn is_extreme_of(state: (Sample, nat), window: Seq<Sample>, upward: bool) -> bool {
    &&& !state.0.is_nan()
    &&& !beyond(sentinel(upward), state.0, upward)
    &&& forall|i: int| 0 <= i < window.len() ==> !beyond(#[trigger] window[i], state.0, upward)
    &&& state.1 == occurrences(window, state.0)
    &&& state.1 == 0 ==> state.0 == sentinel(upward)
}

/// The state after a window has moved on: the occurrences that left are
/// taken off the count, the incoming samples are passed over, and where no
/// occurrence is left, the whole new window is passed over from the sentinel.
pub open spec fn slide(
    state: (Sample, nat),
    incoming: Seq<Sample>,
    outgoing: Seq<Sample>,
    inside: Seq<Sample>,
    upward: bool,
) -> (Sample, nat) {
    let left = (state.1 - occurrences(outgoing, state.0)) as nat;
    let next = fold(incoming, (state.0, left), upward);
    if next.1 == 0 {
        fold(incoming + inside, (sentinel(upward), 0), upward)
    } else {
        next
    }
}

/// A pass over two runs of samples is the pass over the second from where
/// the pass over the first ended.
pub proof fn fold_of_concat(
    first: Seq<Sample>,
    second: Seq<Sample>,
    state: (Sample, nat),
    upward: bool,
)
    ensures
        fold(first + second, state, upward) == fold(second, fold(first, state, upward), upward),
    decreases second.len(),
{
    if second.len() == 0 {
        assert(first + second =~= first);
    } else {
        assert((first + second).drop_last() =~= first + second.drop_last());
        assert((first + second).last() == second.last());
        fold_of_concat(first, second.drop_last(), state, upward);
    }
}

/// The occurrences in two runs of samples add up.
pub proof fn occurrences_of_concat(first: Seq<Sample>, second: Seq<Sample>, value: Sample)
    ensures
        occurrences(first + second, value) == occurrences(first, value) + occurrences(
            second,
            value,
        ),
    decreases second.len(),
{
    if second.len() == 0 {
        assert(first + second =~= first);
    } else {
        assert((first + second).drop_last() =~= first + second.drop_last());
        assert((first + second).last() == second.last());
        occurrences_of_concat(first, second.drop_last(), value);
    }
}

/// There are no more occurrences than samples.
pub proof fn occurrences_at_most_len(data: Seq<Sample>, value: Sample)
    ensures
        occurrences(data, value) <= data.len(),
    decreases data.len(),
{
    if data.len() > 0 {
        occurrences_at_most_len(data.drop_last(), value);
    }
}

/// A pass raises the count by no more than the number of samples.
pub proof fn fold_count_bound(data: Seq<Sample>, state: (Sample, nat), upward: bool)
    ensures
        fold(data, state, upward).1 <= state.1 + data.len(),
    decreases data.len(),
{
    if data.len() > 0 {
        fold_count_bound(data.drop_last(), state, upward);
    }
}

/// A value that occurs is found at some place, and the other way round.
pub proof fn occurrences_positive(data: Seq<Sample>, value: Sample)
    ensures
        occurrences(data, value) > 0 <==> exists|i: int|
            0 <= i < data.len() && (#[trigger] data[i]).same(value),
    decreases data.len(),
{
    if data.len() > 0 {
        let front = data.drop_last();
        occurrences_positive(front, value);
        if occurrences(data, value) > 0 {
            if data.last().same(value) {
                assert(data[data.len() - 1].same(value));
            } else {
                let i = choose|i: int| 0 <= i < front.len() && (#[trigger] front[i]).same(value);
                assert(data[i].same(value));
            }
        }
        if exists|i: int| 0 <= i < data.len() && (#[trigger] data[i]).same(value) {
            let i = choose|i: int| 0 <= i < data.len() && (#[trigger] data[i]).same(value);
            if i < data.len() - 1 {
                assert(front[i].same(value));
            }
        }
    }
}

/// Two values that are equal as numbers occur equally often.
pub proof fn occurrences_of_same(data: Seq<Sample>, value: Sample, other: Sample)
    requires
        value.same(other),
    ensures
        occurrences(data, value) == occurrences(data, other),
    decreases data.len(),
{
    if data.len() > 0 {
        occurrences_of_same(data.drop_last(), value, other);
    }
}

/// What a pass from a state that is a number ends in: an extreme that no
/// sample passed lies beyond. Either no sample lay beyond the first extreme,
/// which then stays, its count raised by its occurrences; or the extreme is
/// one of the samples, counted as often as it occurs.
pub proof fn fold_result(data: Seq<Sample>, state: (Sample, nat), upward: bool)
    requires
        !state.0.is_nan(),
    ensures
        ({
            let end = fold(data, state, upward);
            &&& !end.0.is_nan()
            &&& !beyond(state.0, end.0, upward)
            &&& forall|i: int| 0 <= i < data.len() ==> !beyond(#[trigger] data[i], end.0, upward)
            &&& if beyond(end.0, state.0, upward) {
                &&& end.1 == occurrences(data, end.0)
                &&& end.1 > 0
            } else {
                &&& end.0 == state.0
                &&& end.1 == state.1 + occurrences(data, state.0)
            }
        }),
    decreases data.len(),
{
    if data.len() > 0 {
        let front = data.drop_last();
        let value = data.last();
        let mid = fold(front, state, upward);
        let end = fold(data, state, upward);
        fold_result(front, state, upward);
        assert(end == step(mid, value, upward));
        assert forall|i: int| 0 <= i < data.len() implies !beyond(
            #[trigger] data[i],
            end.0,
            upward,
        ) by {
            if i < data.len() - 1 {
                assert(data[i] == front[i]);
                assert(!beyond(front[i], mid.0, upward));
            }
        }
        if beyond(value, mid.0, upward) {
            // the new extreme was not seen before
            assert(occurrences(front, value) == 0) by {
                occurrences_positive(front, value);
                if occurrences(front, value) > 0 {
                    let i = choose|i: int| 0 <= i < front.len() && (#[trigger] front[i]).same(value);
                    assert(!beyond(front[i], mid.0, upward));
                }
            }
        } else if value.same(mid.0) {
            occurrences_of_same(front, value, mid.0);
        }
    }
}

/// A pass from the sentinel finds the extreme of what it passed.
pub proof fn fold_finds_extreme(window: Seq<Sample>, upward: bool)
    ensures
        is_extreme_of(fold(window, (sentinel(upward), 0), upward), window, upward),
{
    fold_result(window, (sentinel(upward), 0), upward);
}

/// Whether a state is the extreme of a window does not depend on the order
/// of two runs that make up the window.
pub proof fn extreme_of_swapped(
    state: (Sample, nat),
    first: Seq<Sample>,
    second: Seq<Sample>,
    upward: bool,
)
    requires
        is_extreme_of(state, first + second, upward),
    ensures
        is_extreme_of(state, second + first, upward),
{
    occurrences_of_concat(first, second, state.0);
    occurrences_of_concat(second, first, state.0);
    let a = first + second;
    let b = second + first;
    assert forall|i: int| 0 <= i < b.len() implies !beyond(#[trigger] b[i], state.0, upward) by {
        if i < second.len() {
            assert(b[i] == a[first.len() + i]);
        } else {
            assert(b[i] == a[i - second.len()]);
        }
    }
}

/// The extreme follows the window: where the state is the extreme of a
/// window made of the outgoing samples and those that stay, the state after
/// the slide is the extreme of those that stay followed by the incoming ones.
pub proof fn slide_follows_window(
    state: (Sample, nat),
    incoming: Seq<Sample>,
    outgoing: Seq<Sample>,
    inside: Seq<Sample>,
    upward: bool,
)
    requires
        is_extreme_of(state, outgoing + inside, upward),
    ensures
        occurrences(outgoing, state.0) <= state.1,
        is_extreme_of(slide(state, incoming, outgoing, inside, upward), inside + incoming, upward),
{
    let old_window = outgoing + inside;
    let new_window = inside + incoming;
    occurrences_of_concat(outgoing, inside, state.0);
    let left = (state.1 - occurrences(outgoing, state.0)) as nat;
    assert(left == occurrences(inside, state.0));
    let next = fold(incoming, (state.0, left), upward);
    if next.1 == 0 {
        fold_finds_extreme(incoming + inside, upward);
        extreme_of_swapped(
            fold(incoming + inside, (sentinel(upward), 0), upward),
            incoming,
            inside,
            upward,
        );
    } else {
        fold_result(incoming, (state.0, left), upward);
        assert forall|i: int| 0 <= i < inside.len() implies !beyond(
            #[trigger] inside[i],
            state.0,
            upward,
        ) by {
            assert(inside[i] == old_window[outgoing.len() + i]);
        }
        assert forall|i: int| 0 <= i < new_window.len() implies !beyond(
            #[trigger] new_window[i],
            next.0,
            upward,
        ) by {
            if i < inside.len() {
                assert(new_window[i] == inside[i]);
                assert(!beyond(inside[i], state.0, upward));
            } else {
                assert(new_window[i] == incoming[i - inside.len()]);
            }
        }
        occurrences_of_concat(inside, incoming, next.0);
        if beyond(next.0, state.0, upward) {
            assert(occurrences(inside, next.0) == 0) by {
                occurrences_positive(inside, next.0);
                if occurrences(inside, next.0) > 0 {
                    let i = choose|i: int|
                        0 <= i < inside.len() && (#[trigger] inside[i]).same(next.0);
                    assert(!beyond(inside[i], state.0, upward));
                }
            }
        }
    }
}

/// Where a window holds a number that the sentinel does not lie beyond, the
/// extreme of the window is one of its samples, up to the sign of a zero,
/// and no sample lies beyond it.
pub proof fn extreme_is_attained(state: (Sample, nat), window: Seq<Sample>, upward: bool)
    requires
        is_extreme_of(state, window, upward),
        exists|i: int|
            0 <= i < window.len() && !(#[trigger] window[i]).is_nan() && !beyond(
                sentinel(upward),
                window[i],
                upward,
            ),
    ensures
        state.1 > 0,
        exists|i: int| 0 <= i < window.len() && (#[trigger] window[i]).same(state.0),
        forall|i: int| 0 <= i < window.len() ==> !beyond(#[trigger] window[i], state.0, upward),
{
    let i = choose|i: int|
        0 <= i < window.len() && !(#[trigger] window[i]).is_nan() && !beyond(
            sentinel(upward),
            window[i],
            upward,
        );
    occurrences_positive(window, state.0);
    if state.1 == 0 {
        assert(!beyond(window[i], state.0, upward));
        assert(window[i].same(state.0));
    }
}

} // verus!
