//! Epochs of the measurement instances: how they are counted and when the
//! next one begins.

pub mod types;
pub mod utils;
