//! The extension registry and the decisions taken against it.

pub mod extension;
pub mod import;
pub mod loader;
pub mod model;
pub mod registry;
pub mod response;
pub mod utils;
