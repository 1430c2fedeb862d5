//! The check that guards the service's routes.

use crate::text::str_eq;
use vstd::prelude::*;

verus! {

/// Lets a request pass where it carries the service key.
#[derive(Clone, Copy, Debug)]
pub struct AuthMiddleware;

/// Whether a request may pass: it must carry a key, and the key must be the
/// expected one.
pub open spec fn carries_key(expected_key: Seq<char>, header: Option<&str>) -> bool {
    match header {
        Some(given) => given@ == expected_key,
        None => false,
    }
}

impl AuthMiddleware {
    /// The guard.
    pub fn new() -> (guard: AuthMiddleware)
        ensures
            guard == AuthMiddleware,
    {
        AuthMiddleware
    }

    /// Whether a request with the key header `header` may pass.
    pub fn authorized(&self, expected_key: &str, header: Option<&str>) -> (pass: bool)
        ensures
            pass == carries_key(expected_key@, header),
    {
        match header {
            Some(given) => str_eq(given, expected_key),
            None => false,
        }
    }
}

} // verus!
