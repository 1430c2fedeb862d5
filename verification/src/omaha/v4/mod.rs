//! Protocol 4.0: JSON only, with pipelines of operations.

pub mod protocol;
pub mod request;
pub mod response;
