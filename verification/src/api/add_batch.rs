//! Taking in a batch.

use vstd::prelude::*;
use crate::api::{ApiError, AppState};
use crate::domain::sample::Sample;
use crate::domain::window::{nth_size, reached, step_matches, WindowStep};

verus! {

/// Takes in the values of a request for the series `symbol`, oldest first.
/// A request without values is refused, and the registry stays as it was.
pub fn add_batch(app_state: &mut AppState, symbol: String, values: Vec<Sample>) -> (result: Result<
    Vec<WindowStep>,
    ApiError,
>)
    requires
        old(app_state).state.wf(),
    ensures
        final(app_state).state.wf(),
        values@.len() == 0 ==> result == Err::<Vec<WindowStep>, ApiError>(ApiError::EmptyValues)
            && *final(app_state) == *old(app_state),
        values@.len() > 0 ==> result is Ok && final(app_state).state.follows_batch(
            old(app_state).state,
            symbol@,
            values@,
        ),
        result matches Ok(steps) ==> {
            &&& steps@.len() == reached(
                old(app_state).state.series_of(symbol@).len() + values@.len(),
            )
            &&& forall|i: int|
                0 <= i < steps@.len() ==> step_matches(
                    #[trigger] steps@[i],
                    old(app_state).state.slot_of(symbol@, nth_size(i)),
                    old(app_state).state.series_of(symbol@),
                    values@,
                    nth_size(i),
                )
        },
{
    if values.is_empty() {
        return Err(ApiError::EmptyValues);
    }
    Ok(app_state.state.add_batch(symbol, values))
}

} // verus!
