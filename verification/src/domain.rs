//! The domain: window sizes, samples, the rolling algorithms and the registry.

pub mod algorithms;
pub mod computation;
pub mod models;
pub mod registry;
pub mod sample;
pub mod state;
pub mod storage;
pub mod window;
