//! Answering a query.

use vstd::prelude::*;
use crate::api::{ApiError, AppState};
use crate::domain::models::{OutOfRange, Stats, WindowSize};

verus! {

/// What a query for the window with exponent `k` is answered.
pub open spec fn answer(app_state: AppState, symbol: Seq<char>, k: u8) -> Result<Stats, ApiError> {
    match WindowSize::of_exponent(k as nat) {
        None => Err(ApiError::InvalidK(OutOfRange { value: k })),
        Some(size) => match app_state.state.stats(symbol, size) {
            Ok(stats) => Ok(stats),
            Err(error) => Err(ApiError::Stats(error)),
        },
    }
}

/// Answers a query for the series `symbol` and the window of ten to the
/// power `k` samples. Only the exponents from 1 to 8 name a window.
pub fn stats(app_state: &AppState, symbol: &str, k: u8) -> (result: Result<Stats, ApiError>)
    ensures
        result == answer(*app_state, symbol@, k),
{
    let window_size: WindowSize = match WindowSize::try_from(k) {
        Ok(window_size) => window_size,
        Err(err) => {
            return Err(ApiError::InvalidK(err));
        },
    };

    match app_state.state.get_stats(symbol, window_size) {
        Ok(stats) => Ok(stats),
        Err(err) => Err(ApiError::Stats(err)),
    }
}

} // verus!
