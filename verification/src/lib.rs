//! Verified core of the Xenon chat server and its push sidecar.

pub mod auth;
pub mod config;
pub mod events;
pub mod files;
pub mod ids;
pub mod mentions;
pub mod messages;
pub mod models;
pub mod presence;
pub mod push;
pub mod registry;
pub mod requests;
pub mod rooms;
pub mod sidecar;
pub mod text;
pub mod users;
