//! Protocols 3.0 and 3.1: JSON or XML, with one manifest for each update.

pub mod protocol;
pub mod request;
pub mod response;
