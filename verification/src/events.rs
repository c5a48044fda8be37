//! What the server pushes to a connected client, and what one may send back,
//! as far as the verified logic reads it.

use vstd::prelude::*;

use crate::models::{Platform, Status};

verus! {

/// How a user appears to a viewer, from their [`Status`] and whether they hold
/// a connection (Invisible appears as Offline).
#[derive(Debug, Clone, Copy, PartialEq, Eq, Structural)]
pub enum Presence {
    Offline,
    Online,
    Busy,
    Away,
}

/// What a user is connected from, for a client to show beside their presence.
#[derive(Debug, Clone, Copy, PartialEq, Eq, Structural)]
pub enum Device {
    Windows,
    Macos,
    Linux,
    Android,
    Ios,
    Xbox,
}

/// What a client sends over its socket.
#[derive(Debug, Clone, Copy, PartialEq, Eq, Structural)]
pub enum ClientEvent {
    /// The status this connection declares
    Status { status: Status },
}

/// Query string a client's socket handshake carries.
#[derive(Debug, Clone, Copy, PartialEq, Eq, Structural)]
pub struct ConnectQuery {
    /// What the client is running on; a client that names none still connects
    pub device: Option<Device>,
}

/// How a linked game account appears to someone sharing a room with it.
#[derive(Debug, Clone, Copy, PartialEq, Eq, Structural)]
pub enum GamePresence {
    Online,
    Offline,
    Away,
}

/// What a linked account last reported about the user who owns it.
pub struct GameActivity {
    pub platform: Platform,
    pub status: GamePresence,
    /// Name of the game
    pub title: Option<String>,
    /// What the game says they are doing
    pub activity: Option<String>,
}

fn copy_text(s: &Option<String>) -> (r: Option<String>)
    ensures
        r == *s,
{
    match s {
        Some(t) => Some(t.clone()),
        None => None,
    }
}

impl GameActivity {
    /// A copy of the report.
    pub fn duplicate(&self) -> (r: GameActivity)
        ensures
            r == *self,
    {
        GameActivity {
            platform: self.platform,
            status: self.status,
            title: copy_text(&self.title),
            activity: copy_text(&self.activity),
        }
    }
}

/// A user and what the reader is told to show for them.
#[derive(Debug, Clone, Copy, PartialEq, Eq, Structural)]
pub struct UserPresence {
    pub user_id: u128,
    pub presence: Presence,
    /// Unset until the user's client declares one
    pub device: Option<Device>,
}

/// A user and the linked account they are on.
pub struct UserGamePresence {
    pub user_id: u128,
    pub game: GameActivity,
}

/// One browser a push message is sent to.
pub struct Subscription {
    pub endpoint: String,
    pub p256dh: Vec<u8>,
    pub auth: Vec<u8>,
}

} // verus!
