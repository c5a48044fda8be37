//! What crosses the socket between Xenon and this sidecar, as the sidecar reads it.

use vstd::prelude::*;

pub use crate::events::Subscription;

verus! {

/// What one browser's service worker reads out of a push message.
pub struct Payload {
    pub room_id: String,
    pub room: String,
    pub author: String,
    pub body: String,
    pub renotify: bool,
}

} // verus!
