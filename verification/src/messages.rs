//! What may be posted, edited and deleted, and which page of history is read.

use vstd::prelude::*;

use crate::ids::id_in;
use std::collections::HashMap;

use crate::models::{Message, Permission, Permissions};
use crate::text::{hex_decode, hex_decoded};

verus! {

broadcast use vstd::std_specs::hash::group_hash_axioms;

/// Which page of a room's history to read.
#[derive(Debug, Clone, Copy, PartialEq, Eq, Structural)]
pub enum Cursor {
    /// Newest page.
    Latest,
    /// Everything newer than the given seq, used on reconnect.
    After(i64),
    /// The page older than the given seq, used when scrolling up.
    Before(i64),
}

impl Cursor {
    /// The seq a page is read from, and whether it runs to older messages
    /// (below the seq, newest first) rather than newer ones (above it).
    pub open spec fn spec_anchor(self) -> (i64, bool) {
        match self {
            Cursor::Latest => (i64::MAX, true),
            Cursor::Before(seq) => (seq, true),
            Cursor::After(seq) => (seq, false),
        }
    }

    /// The seq a page is read from, and whether it runs to older messages.
    /// The newest page reads below the largest seq.
    pub fn anchor(&self) -> (r: (i64, bool))
        ensures
            r == self.spec_anchor(),
    {
        match self {
            Cursor::Latest => (i64::MAX, true),
            Cursor::Before(seq) => (*seq, true),
            Cursor::After(seq) => (*seq, false),
        }
    }
}

/// One file a new message attaches.
#[derive(Debug, Clone, Copy, PartialEq, Eq, Structural)]
pub struct Incoming {
    pub file_id: u128,
    pub spoiler: bool,
}

/// Why a message request is refused.
#[derive(Debug, Clone, Copy, PartialEq, Eq, Structural)]
pub enum MessageError {
    /// Neither a body nor an attachment
    NoContent,
    /// More attachments than the limit allows
    TooManyAttachments { max: usize },
    /// A body longer than the limit allows
    BodyTooLong { max: usize },
    /// The same file attached twice
    DuplicateAttachment,
    /// Both `before` and `after` given
    BothCursors,
    /// A `client_nonce` that is not hex
    NonceNotHex,
    /// A `client_nonce` that is not 16 bytes
    NonceWrongLength,
    /// An edit that leaves neither a body nor an attachment
    EmptyEdit,
    /// The caller may not do this
    Forbidden,
}

/// Checks a message body against the length limit, counted in characters.
pub fn check_message_body(text: &str, max: usize) -> (r: Result<(), MessageError>)
    ensures
        r is Ok <==> text@.len() <= max,
        r is Err ==> r == Err::<(), MessageError>(MessageError::BodyTooLong { max }),
{
    if text.unicode_len() > max {
        return Err(MessageError::BodyTooLong { max });
    }
    Ok(())
}

/// Whether no file is attached twice.
pub open spec fn distinct_files(attachments: Seq<Incoming>) -> bool {
    forall|i: int, j: int| 0 <= i < j < attachments.len() ==> attachments[i].file_id != attachments[j].file_id
}

/// The refusal a post meets, in the order the checks run, or `None`.
pub open spec fn post_problem(body: Option<Seq<char>>, attachments: Seq<Incoming>, max_attachments: usize, body_max: usize) -> Option<MessageError> {
    if body is None && attachments.len() == 0 {
        Some(MessageError::NoContent)
    } else if attachments.len() > max_attachments {
        Some(MessageError::TooManyAttachments { max: max_attachments })
    } else if body matches Some(text) && text.len() > body_max {
        Some(MessageError::BodyTooLong { max: body_max })
    } else if !distinct_files(attachments) {
        Some(MessageError::DuplicateAttachment)
    } else {
        None
    }
}

/// Checks a post's body and attachment count.
///
/// # Arguments
///
/// * `body` - Message contents, `None` when the message is attachments only.
/// * `attachments` - Files the message carries.
/// * `max_attachments` - Most files one message may carry.
/// * `body_max` - Most characters a body may hold.
pub fn validate_post(body: Option<&str>, attachments: &[Incoming], max_attachments: usize, body_max: usize) -> (r: Result<(), MessageError>)
    ensures
        match post_problem(match body { Some(t) => Some(t@), None => None }, attachments@, max_attachments, body_max) {
            Some(e) => r == Err::<(), MessageError>(e),
            None => r is Ok,
        },
{
    if body.is_none() && attachments.len() == 0 {
        return Err(MessageError::NoContent);
    }
    if attachments.len() > max_attachments {
        return Err(MessageError::TooManyAttachments { max: max_attachments });
    }
    if let Some(text) = body {
        check_message_body(text, body_max)?;
    }
    let ghost view_body: Option<Seq<char>> = match body { Some(t) => Some(t@), None => None };
    assert(!(view_body is None && attachments@.len() == 0));
    assert(!(view_body matches Some(text) && text.len() > body_max));
    assert(post_problem(view_body, attachments@, max_attachments, body_max)
        == (if !distinct_files(attachments@) { Some(MessageError::DuplicateAttachment) } else { None }));
    let mut i: usize = 0;
    while i < attachments.len()
        invariant
            post_problem(view_body, attachments@, max_attachments, body_max)
                == (if !distinct_files(attachments@) { Some(MessageError::DuplicateAttachment) } else { None }),
            view_body == (match body { Some(t) => Some(t@), None => None::<Seq<char>> }),
            i <= attachments.len(),
            forall|a: int, b: int| 0 <= a < i && a < b < attachments.len() ==> attachments@[a].file_id != attachments@[b].file_id,
        decreases attachments.len() - i,
    {
        let mut j: usize = i + 1;
        while j < attachments.len()
            invariant
                post_problem(view_body, attachments@, max_attachments, body_max)
                    == (if !distinct_files(attachments@) { Some(MessageError::DuplicateAttachment) } else { None }),
                view_body == (match body { Some(t) => Some(t@), None => None::<Seq<char>> }),
                i < attachments.len(),
                i + 1 <= j <= attachments.len(),
                forall|a: int, b: int| 0 <= a < i && a < b < attachments.len() ==> attachments@[a].file_id != attachments@[b].file_id,
                forall|b: int| i < b < j ==> attachments@[i as int].file_id != attachments@[b].file_id,
            decreases attachments.len() - j,
        {
            if attachments[i].file_id == attachments[j].file_id {
                proof {
                    assert(!distinct_files(attachments@)) by {
                        let a = i as int;
                        let b = j as int;
                        assert(0 <= a < b < attachments@.len() && attachments@[a].file_id == attachments@[b].file_id);
                    }
                }
                return Err(MessageError::DuplicateAttachment);
            }
            j = j + 1;
        }
        i = i + 1;
    }
    Ok(())
}

/// Whether a member may post: a member holding `Post`, and `Attach` too when
/// the message carries files.
pub open spec fn post_allowed(perms: Option<Permissions>, has_attachments: bool) -> bool {
    match perms {
        Some(p) => p.grants(Permission::Post) && (!has_attachments || p.grants(Permission::Attach)),
        None => false,
    }
}

/// Reports whether a user may post the message they sent.
///
/// # Arguments
///
/// * `perms` - The user's resolved permissions, `None` when they are not a member.
/// * `has_attachments` - Whether the message carries files.
pub fn can_post(perms: Option<Permissions>, has_attachments: bool) -> (r: bool)
    ensures
        r == post_allowed(perms, has_attachments),
{
    let perms = match perms {
        Some(p) => p,
        None => return false,
    };
    if !perms.has(Permission::Post) {
        return false;
    }
    if has_attachments && !perms.has(Permission::Attach) {
        return false;
    }
    true
}

/// Whether a user may delete a message: its author always, a member with
/// `DeleteMsg` too.
pub open spec fn delete_allowed(perms: Option<Permissions>, caller_id: u128, author_id: u128) -> bool {
    match perms {
        Some(p) => caller_id == author_id || p.grants(Permission::DeleteMsg),
        None => caller_id == author_id,
    }
}

/// Reports whether a user may delete a message.
///
/// # Arguments
///
/// * `perms` - The caller's resolved permissions, `None` when they are not a member.
/// * `caller_id` - Who is deleting the message.
/// * `author_id` - Who wrote the message.
pub fn can_delete(perms: Option<Permissions>, caller_id: u128, author_id: u128) -> (r: bool)
    ensures
        r == delete_allowed(perms, caller_id, author_id),
{
    if caller_id == author_id {
        return true;
    }
    match perms {
        Some(p) => p.has(Permission::DeleteMsg),
        None => false,
    }
}

/// Checks an edit: only the author edits, and an edit removing the body must
/// leave attachments behind.
///
/// # Arguments
///
/// * `caller_id` - Who is editing.
/// * `author_id` - Who wrote the message.
/// * `body_present` - Whether the edit carries a body.
/// * `has_attachments` - Whether the message carries files.
pub fn check_edit(caller_id: u128, author_id: u128, body_present: bool, has_attachments: bool) -> (r: Result<(), MessageError>)
    ensures
        r == (if author_id != caller_id {
            Err(MessageError::Forbidden)
        } else if !body_present && !has_attachments {
            Err(MessageError::EmptyEdit)
        } else {
            Ok(())
        }),
{
    if author_id != caller_id {
        return Err(MessageError::Forbidden);
    }
    if !body_present && !has_attachments {
        return Err(MessageError::EmptyEdit);
    }
    Ok(())
}

/// Turns the `after` and `before` query parameters into a cursor.
pub fn cursor_from_query(after: Option<i64>, before: Option<i64>) -> (r: Result<Cursor, MessageError>)
    ensures
        r == (match (after, before) {
            (None, None) => Ok(Cursor::Latest),
            (Some(seq), None) => Ok(Cursor::After(seq)),
            (None, Some(seq)) => Ok(Cursor::Before(seq)),
            (Some(_), Some(_)) => Err(MessageError::BothCursors),
        }),
{
    match (after, before) {
        (None, None) => Ok(Cursor::Latest),
        (Some(seq), None) => Ok(Cursor::After(seq)),
        (None, Some(seq)) => Ok(Cursor::Before(seq)),
        (Some(_), Some(_)) => Err(MessageError::BothCursors),
    }
}

/// Reads a client's per-composition nonce: 16 bytes written as hex.
pub fn parse_client_nonce(text: &str) -> (r: Result<[u8; 16], MessageError>)
    ensures
        match hex_decoded(text@) {
            None => r == Err::<[u8; 16], MessageError>(MessageError::NonceNotHex),
            Some(bytes) => if bytes.len() == 16 {
                r matches Ok(n) && n@ == bytes
            } else {
                r == Err::<[u8; 16], MessageError>(MessageError::NonceWrongLength)
            },
        },
{
    let bytes = match hex_decode(text) {
        Some(bytes) => bytes,
        None => return Err(MessageError::NonceNotHex),
    };
    if bytes.len() != 16 {
        return Err(MessageError::NonceWrongLength);
    }
    let mut nonce = [0u8; 16];
    let mut i: usize = 0;
    while i < 16
        invariant
            i <= 16,
            bytes@.len() == 16,
            forall|j: int| 0 <= j < i ==> nonce@[j] == bytes@[j],
        decreases 16 - i,
    {
        nonce[i] = bytes[i];
        i = i + 1;
    }
    assert(nonce@ =~= bytes@);
    Ok(nonce)
}

/// Whether a file id is among the attachments.
pub fn attaches(attachments: &[Incoming], file_id: u128) -> (r: bool)
    ensures
        r == exists|i: int| 0 <= i < attachments@.len() && (#[trigger] attachments@[i]).file_id == file_id,
{
    let mut ids: Vec<u128> = Vec::new();
    let mut i: usize = 0;
    while i < attachments.len()
        invariant
            i <= attachments.len(),
            ids@.len() == i,
            forall|j: int| 0 <= j < i ==> ids@[j] == attachments@[j].file_id,
        decreases attachments.len() - i,
    {
        ids.push(attachments[i].file_id);
        i = i + 1;
    }
    let r = id_in(&ids, file_id);
    proof {
        if r {
            let k = choose|k: int| 0 <= k < ids@.len() && ids@[k] == file_id;
            assert(attachments@[k].file_id == file_id);
        }
        if exists|i: int| 0 <= i < attachments@.len() && (#[trigger] attachments@[i]).file_id == file_id {
            let k = choose|i: int| 0 <= i < attachments@.len() && (#[trigger] attachments@[i]).file_id == file_id;
            assert(ids@[k] == file_id);
        }
    }
    r
}

// Pages //

/// Whether a page's seqs strictly rise, oldest first.
pub open spec fn ascending(messages: Seq<Message>) -> bool {
    forall|i: int, j: int| 0 <= i < j < messages.len() ==> messages[i].seq < messages[j].seq
}

/// Whether rows strictly fall, as the query toward older messages returns them.
pub open spec fn descending(messages: Seq<Message>) -> bool {
    forall|i: int, j: int| 0 <= i < j < messages.len() ==> messages[i].seq > messages[j].seq
}

/// Puts a page oldest first: rows read toward older messages come newest
/// first and are reversed, rows read toward newer ones are kept.
///
/// # Arguments
///
/// * `rows` - The page as the query returned it.
/// * `older` - Whether the query read below its anchor, newest first.
pub fn page_in_order(rows: Vec<Message>, older: bool) -> (r: Vec<Message>)
    ensures
        r@ == (if older { rows@.reverse() } else { rows@ }),
{
    if !older {
        return rows;
    }
    let mut rows = rows;
    let ghost given = rows@;
    let mut out: Vec<Message> = Vec::new();
    while rows.len() > 0
        invariant
            out@ + rows@.reverse() == given.reverse(),
        decreases rows.len(),
    {
        let ghost before = rows@;
        let last = rows.pop().unwrap();
        proof {
            assert(before == rows@.push(last));
            assert(before.reverse() =~= seq![last] + rows@.reverse());
            assert((out@.push(last)) + rows@.reverse() =~= out@ + before.reverse());
        }
        out.push(last);
    }
    assert(out@ =~= given.reverse());
    out
}

/// A page read toward older messages, once reversed, runs oldest first, as
/// does a page read toward newer ones: callers always get ascending seqs.
pub proof fn law_page_ascending(rows: Seq<Message>, older: bool)
    requires
        older ==> descending(rows),
        !older ==> ascending(rows),
    ensures
        ascending(if older { rows.reverse() } else { rows }),
{
    if older {
        let r = rows.reverse();
        assert forall|i: int, j: int| 0 <= i < j < r.len() implies r[i].seq < r[j].seq by {
            assert(r[i] == rows[rows.len() - 1 - i]);
            assert(r[j] == rows[rows.len() - 1 - j]);
        }
    }
}

/// The lowest and highest seq on a page that runs oldest first, which bound
/// the attachments read for it; `None` for an empty page.
pub fn page_range(messages: &[Message]) -> (r: Option<(i64, i64)>)
    ensures
        match r {
            Some((low, high)) => messages@.len() > 0 && low == messages@[0].seq && high == messages@.last().seq,
            None => messages@.len() == 0,
        },
{
    if messages.len() == 0 {
        return None;
    }
    Some((messages[0].seq, messages[messages.len() - 1].seq))
}

/// Whether an id is among the first `k` messages.
pub open spec fn seen_before(messages: Seq<Message>, k: int, id: u128) -> bool {
    exists|j: int| 0 <= j < k && messages[j].id == id
}

/// Pairs each message with the files read for it; a message with none, or
/// whose id an earlier message already took, gets an empty list.
///
/// # Arguments
///
/// * `messages` - The page, oldest first.
/// * `files` - Attachments read for the page, by message id.
pub fn pair_files<T>(messages: Vec<Message>, files: HashMap<u128, Vec<T>>) -> (r: Vec<(Message, Vec<T>)>)
    ensures
        r@.len() == messages@.len(),
        forall|i: int| 0 <= i < r@.len() ==> {
            &&& (#[trigger] r@[i]).0 == messages@[i]
            &&& r@[i].1@ == (if files@.contains_key(messages@[i].id) && !seen_before(messages@, i, messages@[i].id) {
                files@[messages@[i].id]@
            } else {
                Seq::empty()
            })
        },
{
    let ghost all = messages@;
    let ghost given = files@;
    let mut files = files;
    let mut result: Vec<(Message, Vec<T>)> = Vec::new();
    // Oldest first: reversed, the page pops from its end
    let mut reversed = page_in_order(messages, true);
    let ghost rev = reversed@;
    assert(rev == all.reverse());
    while reversed.len() > 0
        invariant
            rev == all.reverse(),
            reversed@.len() + result@.len() == all.len(),
            reversed@ == rev.take(reversed@.len() as int),
            forall|k: u128| #[trigger] files@.contains_key(k) <==> (given.contains_key(k) && !seen_before(all, result@.len() as int, k)),
            forall|k: u128| files@.contains_key(k) ==> #[trigger] files@[k] == given[k],
            forall|i: int| 0 <= i < result@.len() ==> {
                &&& (#[trigger] result@[i]).0 == all[i]
                &&& result@[i].1@ == (if given.contains_key(all[i].id) && !seen_before(all, i, all[i].id) {
                    given[all[i].id]@
                } else {
                    Seq::empty()
                })
            },
        decreases reversed.len(),
    {
        let n = result.len();
        let message = reversed.pop().unwrap();
        proof {
            assert(message == rev[reversed@.len() as int]);
            assert(rev[reversed@.len() as int] == all[all.len() - 1 - reversed@.len()]);
            assert(message == all[n as int]);
        }
        let found = files.remove(&message.id);
        let attached = match found {
            Some(v) => v,
            None => Vec::new(),
        };
        proof {
            assert forall|k: u128| #[trigger] files@.contains_key(k) <==> (given.contains_key(k) && !seen_before(all, n as int + 1, k)) by {
                if seen_before(all, n as int + 1, k) && !seen_before(all, n as int, k) {
                    let j = choose|j: int| 0 <= j < n as int + 1 && all[j].id == k;
                    assert(j == n);
                }
                if seen_before(all, n as int, k) {
                    let j = choose|j: int| 0 <= j < n as int && all[j].id == k;
                    assert(0 <= j < n as int + 1 && all[j].id == k);
                }
            }
        }
        result.push((message, attached));
        proof {
            assert(reversed@ =~= rev.take(reversed@.len() as int));
        }
    }
    result
}

} // verus!
