//! The two operations that the service offers, on plain values: what is
//! checked of a request, and what is answered.

use vstd::prelude::*;
use crate::domain::models::{OutOfRange, StatsError};
use crate::domain::state::State;

pub mod add_batch;
pub mod stats;

verus! {

/// What every request handler shares: the one registry of the process.
pub struct AppState {
    pub state: State,
}

impl AppState {
    /// A holder with a registry that knows no name.
    pub fn new() -> (app_state: AppState)
        ensures
            app_state.state.wf(),
            forall|name: Seq<char>| !app_state.state.knows(name),
    {
        AppState { state: State::new() }
    }
}

/// Why a request is refused.
#[derive(Debug, Clone, Copy, PartialEq, Eq, Structural)]
pub enum ApiError {
    /// A batch without values.
    EmptyValues,
    /// An exponent that names no window.
    InvalidK(OutOfRange),
    /// The registry has no answer.
    Stats(StatsError),
}

impl ApiError {
    /// The text that is sent back.
    pub fn message(&self) -> (text: String)
        ensures
            text@ == match *self {
                ApiError::EmptyValues => "`values` should not be empty"@,
                ApiError::InvalidK(_) => "invalid `k` parameter"@,
                ApiError::Stats(StatsError::NameNotFound) => "Name not found"@,
                ApiError::Stats(StatsError::WindowIsNotFilled) => "Window doesn't have enough data"@,
            },
    {
        match self {
            ApiError::EmptyValues => "`values` should not be empty".to_owned(),
            ApiError::InvalidK(_) => "invalid `k` parameter".to_owned(),
            ApiError::Stats(error) => error.message(),
        }
    }
}

} // verus!
