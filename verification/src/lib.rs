//! Rolling-window statistics over named series of samples.
//!
//! A series takes in batches of samples. For each window of ten, a hundred,
//! and so on up to a hundred million of its newest samples, the registry
//! follows the smallest, the largest and the newest sample without looking
//! through the window again for every query.

pub mod api;
pub mod domain;
