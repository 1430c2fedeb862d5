//! Update resolution for browser extensions and components, speaking the
//! Omaha update protocol in its 3.x and 4.0 dialects.

pub mod channel;
pub mod constellation;
pub mod error;
pub mod json;
pub mod middleware;
pub mod omaha;
pub mod response;
pub mod service;
pub mod text;
pub mod update2;
pub mod version;
pub mod worker;
pub mod xml;
