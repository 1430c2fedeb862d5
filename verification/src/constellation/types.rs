//! What the measurement routes take and give.

use vstd::prelude::*;

verus! {

/// A measurement that a client sends in.
#[derive(Debug)]
pub struct MeasureRequest {
    pub data: Vec<u8>,
    pub epoch: u8,
}

/// The public key of an instance in an epoch.
#[derive(Debug)]
pub struct PublicKeyResponse {
    pub public_key: String,
    pub epoch: u8,
}

/// What an instance tells about itself.
#[derive(Debug)]
pub struct InstanceInfo {
    pub public_key: String,
    pub current_epoch: i64,
    /// When the next epoch begins, as an RFC 3339 time.
    pub next_epoch_time: String,
    pub max_points: u32,
}

/// A public key as it is stored, with the speed of the instance it is for.
#[derive(Debug)]
pub struct PublicKey {
    pub id: i32,
    pub key: String,
    pub speed: String,
}

} // verus!
