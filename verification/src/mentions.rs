//! Mentions in a message body, and who is notified of a new message.
//!
//! A mention is `@` followed by an account's hyphenated uuid.

use std::collections::HashMap;

use vstd::prelude::*;

use crate::ids::{hyphenated_uuid, id_in, parse_hyphenated_uuid};
use crate::models::Notify;
use crate::text::{chars_of, string_from_chars};

verus! {

broadcast use vstd::std_specs::hash::group_hash_axioms;

/// The account named by the 36 characters starting at `after_at`, if they are
/// a hyphenated uuid.
pub open spec fn mention_at(s: Seq<char>, after_at: int) -> Option<u128> {
    if 0 <= after_at && after_at + 36 <= s.len() {
        hyphenated_uuid(s.subrange(after_at, after_at + 36))
    } else {
        None
    }
}

/// The accounts mentioned in the first `k` characters' `@`s, each account
/// once, in the order first mentioned.
pub open spec fn mentions_upto(s: Seq<char>, k: int) -> Seq<u128>
    decreases k,
{
    if k <= 0 {
        Seq::empty()
    } else {
        let prev = mentions_upto(s, k - 1);
        if s[k - 1] == '@' && mention_at(s, k) is Some && !prev.contains(mention_at(s, k)->0) {
            prev.push(mention_at(s, k)->0)
        } else {
            prev
        }
    }
}

/// The accounts a body mentions, each once, in the order first mentioned.
pub open spec fn mentioned(s: Seq<char>) -> Seq<u128> {
    mentions_upto(s, s.len() as int)
}

/// Whether some `@` among the first `k` characters is followed by the id.
pub open spec fn mentions_somewhere(s: Seq<char>, k: int, id: u128) -> bool {
    exists|i: int| 0 <= i < k && s[i] == '@' && #[trigger] mention_at(s, i + 1) == Some(id)
}

/// Reads the account a mention names, from the position just after its `@`.
///
/// # Arguments
///
/// * `text` - Message contents.
/// * `after_at` - Character position just after the `@`.
pub fn mention_id(text: &str, after_at: usize) -> (r: Option<u128>)
    requires
        after_at <= text@.len(),
    ensures
        r == mention_at(text@, after_at as int),
{
    let len = text.unicode_len();
    if len - after_at < 36 {
        return None;
    }
    let window = text.substring_char(after_at, after_at + 36);
    parse_hyphenated_uuid(window)
}

proof fn lemma_mentions_upto(s: Seq<char>, k: int)
    requires
        0 <= k <= s.len(),
    ensures
        mentions_upto(s, k).no_duplicates(),
        forall|id: u128| mentions_upto(s, k).contains(id) <==> mentions_somewhere(s, k, id),
    decreases k,
{
    if k > 0 {
        lemma_mentions_upto(s, k - 1);
        let prev = mentions_upto(s, k - 1);
        let cur = mentions_upto(s, k);
        let pushed = s[k - 1] == '@' && mention_at(s, k) is Some && !prev.contains(mention_at(s, k)->0);
        assert forall|id: u128| cur.contains(id) <==> mentions_somewhere(s, k, id) by {
            if pushed {
                let m = mention_at(s, k)->0;
                assert(cur == prev.push(m));
                if cur.contains(id) {
                    let j = choose|j: int| 0 <= j < cur.len() && cur[j] == id;
                    if j < prev.len() {
                        assert(prev[j] == id);
                        assert(prev.contains(id));
                        assert(mentions_somewhere(s, k - 1, id));
                        let i = choose|i: int| 0 <= i < k - 1 && s[i] == '@' && #[trigger] mention_at(s, i + 1) == Some(id);
                        assert(0 <= i < k && s[i] == '@' && mention_at(s, i + 1) == Some(id));
                    } else {
                        assert(id == m);
                        assert(s[k - 1] == '@' && mention_at(s, (k - 1) + 1) == Some(id));
                    }
                }
                if mentions_somewhere(s, k, id) {
                    let i = choose|i: int| 0 <= i < k && s[i] == '@' && #[trigger] mention_at(s, i + 1) == Some(id);
                    if i < k - 1 {
                        assert(mentions_somewhere(s, k - 1, id));
                        assert(prev.contains(id));
                        let j = choose|j: int| 0 <= j < prev.len() && prev[j] == id;
                        assert(cur[j] == id);
                    } else {
                        assert(id == m);
                        assert(cur[prev.len() as int] == id);
                    }
                }
            } else {
                assert(cur == prev);
                if cur.contains(id) {
                    assert(mentions_somewhere(s, k - 1, id));
                    let i = choose|i: int| 0 <= i < k - 1 && s[i] == '@' && #[trigger] mention_at(s, i + 1) == Some(id);
                    assert(0 <= i < k && s[i] == '@' && mention_at(s, i + 1) == Some(id));
                }
                if mentions_somewhere(s, k, id) {
                    let i = choose|i: int| 0 <= i < k && s[i] == '@' && #[trigger] mention_at(s, i + 1) == Some(id);
                    if i < k - 1 {
                        assert(mentions_somewhere(s, k - 1, id));
                    } else {
                        assert(mention_at(s, k) == Some(id));
                        assert(prev.contains(id));
                    }
                }
            }
        }
    }
}

/// Collects the accounts a message body mentions, each account once.
///
/// An `@` not followed by a hyphenated uuid is ignored.
///
/// # Arguments
///
/// * `body` - Message contents as they are stored.
pub fn mentioned_ids(body: &str) -> (r: Vec<u128>)
    ensures
        r@ == mentioned(body@),
        r@.no_duplicates(),
        forall|id: u128| r@.contains(id) <==> mentions_somewhere(body@, body@.len() as int, id),
{
    let chars = chars_of(body);
    let mut found: Vec<u128> = Vec::new();
    let mut i: usize = 0;
    while i < chars.len()
        invariant
            i <= chars.len(),
            chars@ == body@,
            found@ == mentions_upto(body@, i as int),
        decreases chars.len() - i,
    {
        if chars[i] == '@' {
            if let Some(id) = mention_id(body, i + 1) {
                if !id_in(&found, id) {
                    found.push(id);
                }
            }
        }
        i = i + 1;
    }
    proof {
        lemma_mentions_upto(body@, body@.len() as int);
    }
    found
}

/// A body with each mention of a named account written as `@` and the name.
///
/// Renders from position `i`; a mention whose account has no name is left as
/// it stands.
pub open spec fn with_names(s: Seq<char>, names: Map<u128, String>, i: int) -> Seq<char>
    decreases s.len() - i,
{
    if i < 0 || i >= s.len() {
        Seq::empty()
    } else if s[i] == '@' && mention_at(s, i + 1) is Some && names.contains_key(mention_at(s, i + 1)->0) {
        seq!['@'] + names[mention_at(s, i + 1)->0]@ + with_names(s, names, i + 37)
    } else {
        seq![s[i]] + with_names(s, names, i + 1)
    }
}

/// Replaces each mention in a message body with the account's display name.
///
/// A mention whose id is absent from `names` is left unchanged. The uuid is
/// parsed rather than matched as text, so it resolves in any letter case.
///
/// # Arguments
///
/// * `body` - Message contents as they are stored.
/// * `names` - Display name for each account, keyed by id.
pub fn name_mentions(body: &str, names: &HashMap<u128, String>) -> (r: String)
    ensures
        r@ == with_names(body@, names@, 0),
{
    let chars = chars_of(body);
    let mut out: Vec<char> = Vec::new();
    let mut i: usize = 0;
    while i < chars.len()
        invariant
            i <= chars.len(),
            chars@ == body@,
            with_names(body@, names@, 0) == out@ + with_names(body@, names@, i as int),
        decreases chars.len() - i,
    {
        let c = chars[i];
        let mut named = false;
        if c == '@' {
            if let Some(id) = mention_id(body, i + 1) {
                if let Some(name) = names.get(&id) {
                    let name_chars = chars_of(name.as_str());
                    let ghost before = out@;
                    out.push('@');
                    let mut j: usize = 0;
                    while j < name_chars.len()
                        invariant
                            j <= name_chars.len(),
                            out@ == before.push('@') + name_chars@.take(j as int),
                        decreases name_chars.len() - j,
                    {
                        out.push(name_chars[j]);
                        proof {
                            assert(name_chars@.take(j as int + 1) =~= name_chars@.take(j as int).push(name_chars@[j as int]));
                        }
                        j = j + 1;
                    }
                    proof {
                        assert(name_chars@.take(name_chars@.len() as int) =~= name_chars@);
                        assert(out@ =~= before + (seq!['@'] + names@[id]@));
                        assert(with_names(body@, names@, i as int) == seq!['@'] + names@[id]@ + with_names(body@, names@, i + 37));
                    }
                    i = i + 37;
                    named = true;
                }
            }
        }
        if !named {
            proof {
                assert(with_names(body@, names@, i as int) == seq![c] + with_names(body@, names@, i + 1));
            }
            out.push(c);
            i = i + 1;
        }
    }
    proof {
        assert(with_names(body@, names@, i as int) =~= Seq::<char>::empty());
        assert(out@ + Seq::<char>::empty() =~= out@);
    }
    string_from_chars(&out)
}

/// One member of a room and what they opted to be told about.
#[derive(Debug, Clone, Copy, PartialEq, Eq, Structural)]
pub struct NotifyUserPair {
    pub user_id: u128,
    pub notify: Notify,
}

/// Whether a member is told about a message: not its author, and opted into
/// every message, or into mentions and mentioned.
pub open spec fn wants_notice(pair: NotifyUserPair, author_id: u128, mentioned: Seq<u128>) -> bool {
    &&& pair.user_id != author_id
    &&& (pair.notify == Notify::All || (pair.notify == Notify::Mentions && mentioned.contains(pair.user_id)))
}

/// The members told about a message, in the order the pairs list them.
pub open spec fn recipients_of(pairs: Seq<NotifyUserPair>, author_id: u128, mentioned: Seq<u128>) -> Seq<u128>
    decreases pairs.len(),
{
    if pairs.len() == 0 {
        Seq::empty()
    } else {
        let rest = recipients_of(pairs.drop_last(), author_id, mentioned);
        if wants_notice(pairs.last(), author_id, mentioned) {
            rest.push(pairs.last().user_id)
        } else {
            rest
        }
    }
}

/// Selects the room's members who asked to be told about this message.
///
/// # Arguments
///
/// * `pairs` - Every member and what they opted into.
/// * `author_id` - The message's author, who is not notified.
/// * `mentioned` - Accounts the body names.
pub fn recipients(pairs: &[NotifyUserPair], author_id: u128, mentioned: &[u128]) -> (r: Vec<u128>)
    ensures
        r@ == recipients_of(pairs@, author_id, mentioned@),
{
    let mut found: Vec<u128> = Vec::new();
    let mut i: usize = 0;
    while i < pairs.len()
        invariant
            i <= pairs.len(),
            found@ == recipients_of(pairs@.take(i as int), author_id, mentioned@),
        decreases pairs.len() - i,
    {
        let pair = pairs[i];
        proof {
            assert(pairs@.take(i as int + 1).drop_last() =~= pairs@.take(i as int));
            assert(pairs@.take(i as int + 1).last() == pair);
        }
        if pair.user_id == author_id {
        } else if pair.notify == Notify::Never {
        } else if pair.notify == Notify::All {
            found.push(pair.user_id);
        } else if id_in(mentioned, pair.user_id) {
            found.push(pair.user_id);
        }
        i = i + 1;
    }
    proof {
        assert(pairs@.take(pairs@.len() as int) =~= pairs@);
    }
    found
}

/// Who is notified of a message: exactly the members who want notice of it,
/// each as often as the pairs list them, never the author.
pub proof fn law_recipients(pairs: Seq<NotifyUserPair>, author_id: u128, mentioned: Seq<u128>, id: u128)
    ensures
        recipients_of(pairs, author_id, mentioned).contains(id) <==> exists|i: int|
            0 <= i < pairs.len() && (#[trigger] pairs[i]).user_id == id && wants_notice(pairs[i], author_id, mentioned),
        !recipients_of(pairs, author_id, mentioned).contains(author_id),
    decreases pairs.len(),
{
    if pairs.len() > 0 {
        let init = pairs.drop_last();
        law_recipients(init, author_id, mentioned, id);
        law_recipients(init, author_id, mentioned, author_id);
        let r = recipients_of(pairs, author_id, mentioned);
        let rest = recipients_of(init, author_id, mentioned);
        if r.contains(id) {
            if !rest.contains(id) {
                let j = choose|j: int| 0 <= j < r.len() && r[j] == id;
                assert(j == rest.len());
                assert(pairs[pairs.len() - 1].user_id == id);
            } else {
                let i = choose|i: int| 0 <= i < init.len() && (#[trigger] init[i]).user_id == id && wants_notice(init[i], author_id, mentioned);
                assert(pairs[i] == init[i]);
            }
        }
        if exists|i: int| 0 <= i < pairs.len() && (#[trigger] pairs[i]).user_id == id && wants_notice(pairs[i], author_id, mentioned) {
            let i = choose|i: int| 0 <= i < pairs.len() && (#[trigger] pairs[i]).user_id == id && wants_notice(pairs[i], author_id, mentioned);
            if i < pairs.len() - 1 {
                assert(init[i] == pairs[i]);
                assert(rest.contains(id));
                if wants_notice(pairs.last(), author_id, mentioned) {
                    let k = choose|k: int| 0 <= k < rest.len() && rest[k] == id;
                    assert(r[k] == id);
                }
            } else {
                assert(r == rest.push(id));
                assert(r[rest.len() as int] == id);
            }
        }
        if r.contains(author_id) {
            if !rest.contains(author_id) {
                let j = choose|j: int| 0 <= j < r.len() && r[j] == author_id;
                assert(j == rest.len());
            }
        }
    }
}

/// What a notification shows for a message body: the body, or
/// `Attachment(s)` for a message that carries only files.
pub open spec fn notice_text(body: Option<Seq<char>>) -> Seq<char> {
    match body {
        Some(b) => b,
        None => "Attachment(s)"@,
    }
}

/// The text a notification is built from.
///
/// # Arguments
///
/// * `body` - The message's body, if it has one.
pub fn notice_body(body: Option<&str>) -> (r: String)
    ensures
        r@ == notice_text(match body { Some(b) => Some(b@), None => None }),
{
    match body {
        Some(b) => b.to_string(),
        None => String::from_str("Attachment(s)"),
    }
}

proof fn lemma_plain_prefix(s: Seq<char>, names: Map<u128, String>, n: int, j: int)
    requires
        0 <= j <= n < s.len(),
        forall|k: int| 0 <= k < n ==> s[k] != '@',
    ensures
        with_names(s, names, j) == s.subrange(j, n) + with_names(s, names, n),
    decreases n - j,
{
    if j < n {
        lemma_plain_prefix(s, names, n, j + 1);
        assert(s.subrange(j, n) =~= seq![s[j]] + s.subrange(j + 1, n));
    } else {
        assert(s.subrange(j, n) =~= Seq::<char>::empty());
    }
}

/// A mention of a named account is written as `@` and its name, wherever it
/// stands, the end of the body included: in a body made of text with no `@`,
/// then `@` and a hyphenated uuid, then anything, the mention becomes `@` and
/// the account's display name, and rendering goes on after the uuid.
pub proof fn law_named_mention_rendered(p: Seq<char>, h: Seq<char>, q: Seq<char>, names: Map<u128, String>, id: u128)
    requires
        forall|k: int| 0 <= k < p.len() ==> p[k] != '@',
        hyphenated_uuid(h) == Some(id),
        names.contains_key(id),
    ensures
        with_names(p + seq!['@'] + h + q, names, 0)
            == p + seq!['@'] + names[id]@ + with_names(p + seq!['@'] + h + q, names, p.len() as int + 37),
        with_names(p + seq!['@'] + h, names, 0) == p + seq!['@'] + names[id]@,
{
    let s = p + seq!['@'] + h + q;
    let t = p + seq!['@'] + h;
    let n = p.len() as int;
    assert(h.len() == 36);
    assert forall|k: int| 0 <= k < n implies s[k] != '@' && t[k] != '@' by {
        assert(s[k] == p[k] && t[k] == p[k]);
    }
    assert(s.subrange(n + 1, n + 37) =~= h);
    assert(t.subrange(n + 1, n + 37) =~= h);
    lemma_plain_prefix(s, names, n, 0);
    lemma_plain_prefix(t, names, n, 0);
    assert(s.subrange(0, n) =~= p);
    assert(t.subrange(0, n) =~= p);
    assert(s[n] == '@' && t[n] == '@');
    assert(mention_at(s, n + 1) == Some(id));
    assert(mention_at(t, n + 1) == Some(id));
    assert(with_names(t, names, n + 37) == Seq::<char>::empty());
    assert(p + seq!['@'] + names[id]@ + Seq::<char>::empty() =~= p + seq!['@'] + names[id]@);
}

} // verus!
