//! The push sidecar: stored browser subscriptions, message encryption, the
//! signed token sent with each push, and what a push service's answer means.

pub mod config;
pub mod encrypt;
pub mod events;
pub mod keys;
pub mod outcome;
pub mod send;
pub mod store;
pub mod vapid;
