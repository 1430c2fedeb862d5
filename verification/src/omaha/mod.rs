//! The Omaha update protocol: its dialects, requests and responses.

pub mod factory;
pub mod protocol;
pub mod request;
pub mod v3;
pub mod v4;
