//! Listening for configuration changes.
//!
//! The database is the single source of truth about when a snapshot went stale:
//! every write publishes the environment it changed.

use vstd::prelude::*;

use crate::ids::{uuid_in, Uuid};

verus! {

/// Channel the triggers publish to.
pub const CHANGE_CHANNEL: &'static str = "flagforge_env_changed";

/// The environment a notification says has changed.
///
/// A payload that is not an identifier gives `None` and is skipped: an unrelated
/// notification on the same channel should not tear down the listener.
pub fn next_changed(payload: &str) -> (environment: Option<Uuid>)
    ensures
        environment == (match uuid_in(payload@) {
            Some(bits) => Some(Uuid { bits }),
            None => None,
        }),
{
    Uuid::parse(payload)
}

} // verus!
