//! The rolling algorithms: each follows one statistic of a sliding window.

pub mod extreme;
pub mod last;
pub mod max;
pub mod min;
