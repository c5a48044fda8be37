//! What the HTTP routes read from clients and answer with.

use vstd::prelude::*;

use crate::config::Info;
use crate::messages::Incoming;
use crate::models::{GlobalRole, Message, Platform, Status};

verus! {

/// POST body for creating an account.
pub struct RegisterRequest {
    pub invite_code: String,
    pub username: String,
    pub display_name: String,
    pub password: String,
}

/// POST body for starting a session.
pub struct LoginRequest {
    pub username: String,
    pub password: String,
}

/// POST body for creating a registration code.
pub struct CreateInviteRequest {
    pub max_uses: Option<i64>,
    pub lifetime: Option<i64>,
}

/// Response carrying a session token.
pub struct LoginResponse {
    pub token: String,
}

/// Response carrying a registration code.
pub struct CreateInviteResponse {
    pub code: String,
}

/// POST body for posting a message.
pub struct PostMessageRequest {
    pub body: Option<String>,
    pub client_nonce: String,
    pub attachments: Vec<Incoming>,
}

/// PATCH body for editing a message.
pub struct EditMessageRequest {
    pub body: Option<String>,
}

/// Response to an edit: when it took effect.
pub struct EditMessageResponse {
    pub edited_at: i64,
}

/// Query string for a page of messages.
pub struct FetchQuery {
    pub after: Option<i64>,
    pub before: Option<i64>,
}

/// DELETE body for dropping a push subscription.
pub struct UnsubscribeRequest {
    pub endpoint: String,
}

/// PATCH body for changing a user's server-wide role.
pub struct SetRoleRequest {
    pub role: GlobalRole,
}

/// PATCH body for replacing a password.
pub struct PasswordRequest {
    pub current_password: String,
    pub new_password: String,
    /// Revokes every session but the one making the request
    pub revoke_others: bool,
}

/// DELETE body for closing your own account.
pub struct DeleteAccountRequest {
    /// Replaces the names and releases the username
    pub anonymize: bool,
    /// Tombstones every message the account wrote
    pub delete_history: bool,
}

/// PATCH body for the status a user prefers.
pub struct StatusRequest {
    pub status: Status,
}

/// The server's name, version, kind and description.
pub struct ServerInfo {
    pub name: String,
    pub version: String,
    pub kind: String,
    pub description: String,
}

impl ServerInfo {
    /// What the server reports about itself: the configured name, kind and
    /// description, and the version it was built as.
    ///
    /// # Arguments
    ///
    /// * `info` - The `[info]` section of the config.
    /// * `version` - The version the server was built as.
    pub fn describe(info: &Info, version: &str) -> (r: ServerInfo)
        ensures
            r.name@ == info.name@,
            r.version@ == version@,
            r.kind@ == info.kind@,
            r.description@ == info.description@,
    {
        ServerInfo {
            name: info.name.clone(),
            version: version.to_string(),
            kind: info.kind.clone(),
            description: info.description.clone(),
        }
    }
}

/// A `linked_accounts` row.
pub struct LinkedAccount {
    /// Platform's name (ie. Xbox)
    pub platform: Platform,
    /// Name shown for the account
    pub handle: String,
}

/// One of a user's linked accounts, as the user sees it.
pub struct LinkResponse {
    pub platform: Platform,
    /// Name to show for the account, the gamertag on Xbox
    pub handle: String,
    /// Set once the link stopped renewing and has to be made again
    pub needs_reauth: bool,
}

/// The caller's linked accounts in the order they were read, each marked with
/// whether the caller has a link to make again.
///
/// # Arguments
///
/// * `accounts` - The caller's `linked_accounts` rows.
/// * `needs_reauth` - Whether one of the caller's links stopped renewing.
pub fn link_responses(accounts: &[LinkedAccount], needs_reauth: bool) -> (r: Vec<LinkResponse>)
    ensures
        r@.len() == accounts@.len(),
        forall|i: int| 0 <= i < r@.len() ==> {
            &&& #[trigger] r@[i].platform == accounts@[i].platform
            &&& r@[i].handle@ == accounts@[i].handle@
            &&& r@[i].needs_reauth == needs_reauth
        },
{
    let mut out: Vec<LinkResponse> = Vec::new();
    let mut i: usize = 0;
    while i < accounts.len()
        invariant
            i <= accounts@.len(),
            out@.len() == i,
            forall|k: int| 0 <= k < i ==> {
                &&& #[trigger] out@[k].platform == accounts@[k].platform
                &&& out@[k].handle@ == accounts@[k].handle@
                &&& out@[k].needs_reauth == needs_reauth
            },
        decreases accounts.len() - i,
    {
        let account = &accounts[i];
        out.push(LinkResponse { platform: account.platform, handle: account.handle.clone(), needs_reauth });
        i = i + 1;
    }
    out
}

/// One file as a message attaches it.
pub struct AttachmentResponse {
    pub id: u128,
    pub filename: String,
    pub mime: String,
    pub byte_size: i64,
    pub spoiler: bool,
}

/// A message and the files attached to it.
pub struct MessageResponse {
    pub seq: i64,
    pub id: u128,
    pub room_id: u128,
    pub author_id: u128,
    pub body: Option<String>,
    pub created_at: i64,
    pub edited_at: Option<i64>,
    pub deleted_at: Option<i64>,
    pub attachments: Vec<AttachmentResponse>,
}

impl MessageResponse {
    /// Joins a stored message to the files attached to it.
    ///
    /// # Arguments
    ///
    /// * `message` - The stored message.
    /// * `attachments` - Files the message carries.
    pub fn new(message: Message, attachments: Vec<AttachmentResponse>) -> (r: MessageResponse)
        ensures
            r.seq == message.seq,
            r.id == message.id,
            r.room_id == message.room_id,
            r.author_id == message.author_id,
            r.body == message.body,
            r.created_at == message.created_at,
            r.edited_at == message.edited_at,
            r.deleted_at == message.deleted_at,
            r.attachments == attachments,
    {
        MessageResponse {
            seq: message.seq,
            id: message.id,
            room_id: message.room_id,
            author_id: message.author_id,
            body: message.body,
            created_at: message.created_at,
            edited_at: message.edited_at,
            deleted_at: message.deleted_at,
            attachments,
        }
    }
}

} // verus!
