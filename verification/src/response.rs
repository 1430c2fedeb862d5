//! The short form of a listing response: each app with the status of its
//! ping and of its update check, and no manifest.

use crate::update2::response::DayStart;
use vstd::prelude::*;

verus! {

/// The status of a ping.
#[derive(Debug)]
pub struct AppPing {
    pub status: String,
}

/// The status of an update check.
#[derive(Debug)]
pub struct UpdateCheck {
    pub status: String,
}

/// One app of a short response.
#[derive(Debug)]
pub struct AppResponse {
    pub appid: String,
    pub cohort: String,
    pub status: String,
    pub cohortname: String,
    pub ping: AppPing,
    pub updatecheck: UpdateCheck,
}

/// The body of a short response.
#[derive(Debug)]
pub struct Response {
    pub server: String,
    pub protocol: String,
    pub daystart: DayStart,
    pub app: Vec<AppResponse>,
}

/// A short response.
#[derive(Debug)]
pub struct ResponseRoot {
    pub response: Response,
}

} // verus!
