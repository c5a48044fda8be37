//! Browser subscriptions, held in memory; the caller mirrors them to disk
//! after each change that reports one.
//!
//! Each endpoint is stored once, with the account it belongs to. The entries
//! sit in a `Vec` whose endpoints are kept distinct, rather than in maps keyed
//! by endpoint and by account: both keys are `String`s, and vstd's
//! specification of `HashMap` says what a lookup finds only for keys whose
//! hashing and equality it models, which it does not for `String`. Reading a
//! `Vec` and comparing texts character by character is specified in full, so
//! every operation below is proved against the map the entries stand for.

use vstd::prelude::*;

use crate::events::Subscription;
use crate::text::same_text;

verus! {

/// One stored subscription.
pub struct StoredSubscription {
    pub endpoint: String,
    pub user_id: String,
    pub p256dh: Vec<u8>,
    pub auth: Vec<u8>,
}

/// What is stored for one endpoint.
pub struct Owned {
    pub user_id: Seq<char>,
    pub p256dh: Seq<u8>,
    pub auth: Seq<u8>,
}

/// A subscription as its endpoint, public key and authentication secret.
pub open spec fn subscription_view(s: Subscription) -> (Seq<char>, Seq<u8>, Seq<u8>) {
    (s.endpoint@, s.p256dh@, s.auth@)
}

/// The subscriptions one account holds, in the order given.
pub open spec fn owned_by(entries: Seq<StoredSubscription>, user_id: Seq<char>) -> Seq<(Seq<char>, Seq<u8>, Seq<u8>)>
    decreases entries.len(),
{
    if entries.len() == 0 {
        Seq::empty()
    } else {
        let rest = owned_by(entries.drop_last(), user_id);
        let e = entries.last();
        if e.user_id@ == user_id {
            rest.push((e.endpoint@, e.p256dh@, e.auth@))
        } else {
            rest
        }
    }
}

/// The subscriptions of several accounts: each account's in turn.
pub open spec fn owned_by_all(entries: Seq<StoredSubscription>, user_ids: Seq<String>) -> Seq<(Seq<char>, Seq<u8>, Seq<u8>)>
    decreases user_ids.len(),
{
    if user_ids.len() == 0 {
        Seq::empty()
    } else {
        owned_by_all(entries, user_ids.drop_last()) + owned_by(entries, user_ids.last()@)
    }
}

/// The stored subscriptions by endpoint.
pub open spec fn entries_view(entries: Seq<StoredSubscription>) -> Map<Seq<char>, Owned> {
    Map::new(
        |e: Seq<char>| exists|i: int| 0 <= i < entries.len() && (#[trigger] entries[i]).endpoint@ == e,
        |e: Seq<char>| {
            let i = choose|i: int| 0 <= i < entries.len() && (#[trigger] entries[i]).endpoint@ == e;
            Owned { user_id: entries[i].user_id@, p256dh: entries[i].p256dh@, auth: entries[i].auth@ }
        },
    )
}

proof fn lemma_entries_view_at(entries: Seq<StoredSubscription>, i: int)
    requires
        0 <= i < entries.len(),
        forall|a: int, b: int| 0 <= a < b < entries.len() ==> (#[trigger] entries[a]).endpoint@ != (#[trigger] entries[b]).endpoint@,
    ensures
        entries_view(entries).contains_key(entries[i].endpoint@),
        entries_view(entries)[entries[i].endpoint@] == (Owned {
            user_id: entries[i].user_id@,
            p256dh: entries[i].p256dh@,
            auth: entries[i].auth@,
        }),
{
    let e = entries[i].endpoint@;
    assert(entries_view(entries).contains_key(e));
    let k = choose|k: int| 0 <= k < entries.len() && (#[trigger] entries[k]).endpoint@ == e;
    if k != i {
        if k < i {
            assert(entries[k].endpoint@ != entries[i].endpoint@);
        } else {
            assert(entries[i].endpoint@ != entries[k].endpoint@);
        }
    }
}

fn copy_bytes(v: &Vec<u8>) -> (r: Vec<u8>)
    ensures
        r@ == v@,
{
    let mut out: Vec<u8> = Vec::new();
    let mut i: usize = 0;
    while i < v.len()
        invariant
            i <= v.len(),
            out@ == v@.take(i as int),
        decreases v.len() - i,
    {
        out.push(v[i]);
        proof {
            assert(out@ =~= v@.take(i as int + 1));
        }
        i = i + 1;
    }
    assert(out@ =~= v@);
    out
}

proof fn lemma_owned_by(entries: Seq<StoredSubscription>, user_id: Seq<char>, endpoint: Seq<char>)
    requires
        forall|a: int, b: int| 0 <= a < b < entries.len() ==> (#[trigger] entries[a]).endpoint@ != (#[trigger] entries[b]).endpoint@,
    ensures
        (exists|k: int| 0 <= k < owned_by(entries, user_id).len() && (#[trigger] owned_by(entries, user_id)[k]).0 == endpoint)
            <==> (entries_view(entries).contains_key(endpoint) && entries_view(entries)[endpoint].user_id == user_id),
        forall|k: int| 0 <= k < owned_by(entries, user_id).len() ==> {
            let t = #[trigger] owned_by(entries, user_id)[k];
            &&& entries_view(entries).contains_key(t.0)
            &&& entries_view(entries)[t.0] == (Owned { user_id: user_id, p256dh: t.1, auth: t.2 })
        },
    decreases entries.len(),
{
    if entries.len() > 0 {
        let init = entries.drop_last();
        let n = entries.len() - 1;
        let last = entries.last();
        lemma_owned_by(init, user_id, endpoint);
        lemma_owned_by(init, user_id, last.endpoint@);
        let o = owned_by(entries, user_id);
        let oi = owned_by(init, user_id);
        // stored entries of the prefix keep their data in the whole
        assert forall|e: Seq<char>| #[trigger] entries_view(init).contains_key(e) implies
            entries_view(entries).contains_key(e) && entries_view(entries)[e] == entries_view(init)[e] by {
            let k = choose|k: int| 0 <= k < init.len() && (#[trigger] init[k]).endpoint@ == e;
            assert(entries[k] == init[k]);
            lemma_entries_view_at(init, k);
            lemma_entries_view_at(entries, k);
        }
        lemma_entries_view_at(entries, n);
        assert(!entries_view(init).contains_key(last.endpoint@)) by {
            if entries_view(init).contains_key(last.endpoint@) {
                let k = choose|k: int| 0 <= k < init.len() && (#[trigger] init[k]).endpoint@ == last.endpoint@;
                assert(entries[k] == init[k]);
                assert(entries[k].endpoint@ != entries[n].endpoint@);
            }
        }
        assert forall|e: Seq<char>| #[trigger] entries_view(entries).contains_key(e) && e != last.endpoint@ implies
            entries_view(init).contains_key(e) by {
            let k = choose|k: int| 0 <= k < entries.len() && (#[trigger] entries[k]).endpoint@ == e;
            assert(k != n);
            assert(init[k] == entries[k]);
        }
        if last.user_id@ == user_id {
            assert(o == oi.push((last.endpoint@, last.p256dh@, last.auth@)));
            assert forall|k: int| 0 <= k < o.len() implies {
                let t = #[trigger] o[k];
                &&& entries_view(entries).contains_key(t.0)
                &&& entries_view(entries)[t.0] == (Owned { user_id: user_id, p256dh: t.1, auth: t.2 })
            } by {
                if k < oi.len() {
                    assert(o[k] == oi[k]);
                }
            }
            if exists|k: int| 0 <= k < o.len() && (#[trigger] o[k]).0 == endpoint {
                let k = choose|k: int| 0 <= k < o.len() && (#[trigger] o[k]).0 == endpoint;
                if k < oi.len() {
                    assert(o[k] == oi[k]);
                }
            }
            if entries_view(entries).contains_key(endpoint) && entries_view(entries)[endpoint].user_id == user_id {
                if endpoint == last.endpoint@ {
                    assert(o[oi.len() as int].0 == endpoint);
                } else {
                    let k = choose|k: int| 0 <= k < oi.len() && (#[trigger] oi[k]).0 == endpoint;
                    assert(o[k] == oi[k]);
                }
            }
        } else {
            assert(o == oi);
            if entries_view(entries).contains_key(endpoint) && entries_view(entries)[endpoint].user_id == user_id {
                assert(endpoint != last.endpoint@);
            }
        }
    }
}

proof fn lemma_owned_by_distinct(entries: Seq<StoredSubscription>, user_id: Seq<char>)
    requires
        forall|a: int, b: int| 0 <= a < b < entries.len() ==> (#[trigger] entries[a]).endpoint@ != (#[trigger] entries[b]).endpoint@,
    ensures
        forall|k: int| 0 <= k < owned_by(entries, user_id).len() ==>
            exists|j: int| 0 <= j < entries.len() && (#[trigger] entries[j]).endpoint@ == (#[trigger] owned_by(entries, user_id)[k]).0,
        forall|a: int, b: int| 0 <= a < b < owned_by(entries, user_id).len() ==>
            (#[trigger] owned_by(entries, user_id)[a]).0 != (#[trigger] owned_by(entries, user_id)[b]).0,
    decreases entries.len(),
{
    if entries.len() > 0 {
        let init = entries.drop_last();
        let n = entries.len() - 1;
        let last = entries.last();
        assert forall|a: int, b: int| 0 <= a < b < init.len() implies (#[trigger] init[a]).endpoint@ != (#[trigger] init[b]).endpoint@ by {
            assert(init[a] == entries[a] && init[b] == entries[b]);
        }
        lemma_owned_by_distinct(init, user_id);
        let o = owned_by(entries, user_id);
        let oi = owned_by(init, user_id);
        assert forall|k: int| 0 <= k < oi.len() implies
            exists|j: int| 0 <= j < n && (#[trigger] entries[j]).endpoint@ == (#[trigger] oi[k]).0 by {
            let j = choose|j: int| 0 <= j < init.len() && (#[trigger] init[j]).endpoint@ == oi[k].0;
            assert(entries[j] == init[j]);
        }
        if last.user_id@ == user_id {
            assert(o == oi.push((last.endpoint@, last.p256dh@, last.auth@)));
            assert forall|k: int| 0 <= k < o.len() implies
                exists|j: int| 0 <= j < entries.len() && (#[trigger] entries[j]).endpoint@ == (#[trigger] o[k]).0 by {
                if k < oi.len() {
                    assert(o[k] == oi[k]);
                    let j = choose|j: int| 0 <= j < n && (#[trigger] entries[j]).endpoint@ == oi[k].0;
                } else {
                    assert(entries[n].endpoint@ == o[k].0);
                }
            }
            assert forall|a: int, b: int| 0 <= a < b < o.len() implies (#[trigger] o[a]).0 != (#[trigger] o[b]).0 by {
                assert(o[a] == oi[a]);
                if b < oi.len() {
                    assert(o[b] == oi[b]);
                } else {
                    let j = choose|j: int| 0 <= j < n && (#[trigger] entries[j]).endpoint@ == oi[a].0;
                    assert(entries[j].endpoint@ != entries[n].endpoint@);
                }
            }
        } else {
            assert(o == oi);
            assert forall|k: int| 0 <= k < o.len() implies
                exists|j: int| 0 <= j < entries.len() && (#[trigger] entries[j]).endpoint@ == (#[trigger] o[k]).0 by {
                let j = choose|j: int| 0 <= j < n && (#[trigger] entries[j]).endpoint@ == oi[k].0;
            }
        }
    }
}

/// Every browser subscribed.
pub struct Store {
    entries: Vec<StoredSubscription>,
}

impl Store {
    /// What is stored, by endpoint.
    pub closed spec fn view(&self) -> Map<Seq<char>, Owned> {
        entries_view(self.entries@)
    }

    /// The stored subscriptions, in the order they were first stored.
    pub closed spec fn entries(&self) -> Seq<StoredSubscription> {
        self.entries@
    }

    /// No endpoint is stored twice.
    pub closed spec fn wf(&self) -> bool {
        forall|i: int, j: int| 0 <= i < j < self.entries@.len() ==> (#[trigger] self.entries@[i]).endpoint@ != (#[trigger] self.entries@[j]).endpoint@
    }

    /// An empty store.
    pub fn new() -> (r: Store)
        ensures
            r.wf(),
            r.view() == Map::<Seq<char>, Owned>::empty(),
            r.entries().len() == 0,
    {
        let r = Store { entries: Vec::new() };
        assert(r.view() =~= Map::<Seq<char>, Owned>::empty());
        r
    }

    fn find(&self, endpoint: &str) -> (r: Option<usize>)
        requires
            self.wf(),
        ensures
            match r {
                Some(i) => i < self.entries@.len() && self.entries@[i as int].endpoint@ == endpoint@,
                None => forall|i: int| 0 <= i < self.entries@.len() ==> (#[trigger] self.entries@[i]).endpoint@ != endpoint@,
            },
    {
        let mut i: usize = 0;
        while i < self.entries.len()
            invariant
                i <= self.entries@.len(),
                forall|j: int| 0 <= j < i ==> (#[trigger] self.entries@[j]).endpoint@ != endpoint@,
            decreases self.entries@.len() - i,
        {
            if same_text(self.entries[i].endpoint.as_str(), endpoint) {
                return Some(i);
            }
            i = i + 1;
        }
        None
    }

    proof fn lemma_view_at(&self, i: int)
        requires
            self.wf(),
            0 <= i < self.entries@.len(),
        ensures
            self.view().contains_key(self.entries@[i].endpoint@),
            self.view()[self.entries@[i].endpoint@] == (Owned {
                user_id: self.entries@[i].user_id@,
                p256dh: self.entries@[i].p256dh@,
                auth: self.entries@[i].auth@,
            }),
    {
        lemma_entries_view_at(self.entries@, i);
    }

    /// Stores a browser's subscription, replacing any earlier owner of the
    /// same endpoint.
    ///
    /// # Arguments
    ///
    /// * `user_id` - Account the browser is signed in as.
    /// * `subscription` - What the browser produced when it subscribed.
    pub fn upsert(&mut self, user_id: &str, subscription: &Subscription)
        requires
            old(self).wf(),
        ensures
            final(self).wf(),
            final(self).view() == old(self).view().insert(subscription.endpoint@, Owned {
                user_id: user_id@,
                p256dh: subscription.p256dh@,
                auth: subscription.auth@,
            }),
    {
        let entry = StoredSubscription {
            endpoint: subscription.endpoint.clone(),
            user_id: String::from_str(user_id),
            p256dh: subscription.p256dh.clone(),
            auth: subscription.auth.clone(),
        };
        let ghost before = self.entries@;
        let ghost old_view = self.view();
        let ghost key = subscription.endpoint@;
        let ghost val = Owned { user_id: user_id@, p256dh: subscription.p256dh@, auth: subscription.auth@ };
        match self.find(subscription.endpoint.as_str()) {
            Some(i) => {
                self.entries.set(i, entry);
                proof {
                    assert(self.wf());
                    assert forall|e: Seq<char>| self.view().contains_key(e) <==> old_view.insert(key, val).contains_key(e) by {
                        if old_view.contains_key(e) {
                            let k = choose|k: int| 0 <= k < before.len() && (#[trigger] before[k]).endpoint@ == e;
                            if k == i as int {
                                assert(self.entries@[k].endpoint@ == e);
                            } else {
                                assert(self.entries@[k] == before[k]);
                            }
                        }
                        if e == key {
                            assert(self.entries@[i as int].endpoint@ == e);
                        }
                        if self.view().contains_key(e) {
                            let k = choose|k: int| 0 <= k < self.entries@.len() && (#[trigger] self.entries@[k]).endpoint@ == e;
                            if k != i as int {
                                assert(before[k] == self.entries@[k]);
                            }
                        }
                    }
                    assert forall|e: Seq<char>| #[trigger] self.view().contains_key(e) implies self.view()[e] == old_view.insert(key, val)[e] by {
                        let k = choose|k: int| 0 <= k < self.entries@.len() && (#[trigger] self.entries@[k]).endpoint@ == e;
                        self.lemma_view_at(k);
                        if k != i as int {
                            assert(before[k] == self.entries@[k]);
                            lemma_entries_view_at(before, k);
                        }
                    }
                    assert(self.view() =~= old_view.insert(key, val));
                }
            },
            None => {
                self.entries.push(entry);
                proof {
                    assert forall|a: int, b: int| 0 <= a < b < self.entries@.len() implies (#[trigger] self.entries@[a]).endpoint@ != (#[trigger] self.entries@[b]).endpoint@ by {
                        if b < before.len() {
                            assert(self.entries@[a] == before[a] && self.entries@[b] == before[b]);
                        } else {
                            assert(self.entries@[a] == before[a]);
                        }
                    }
                    assert(self.wf());
                    assert forall|e: Seq<char>| self.view().contains_key(e) <==> old_view.insert(key, val).contains_key(e) by {
                        if old_view.contains_key(e) {
                            let k = choose|k: int| 0 <= k < before.len() && (#[trigger] before[k]).endpoint@ == e;
                            assert(self.entries@[k] == before[k]);
                        }
                        if e == key {
                            assert(self.entries@[before.len() as int].endpoint@ == e);
                        }
                        if self.view().contains_key(e) {
                            let k = choose|k: int| 0 <= k < self.entries@.len() && (#[trigger] self.entries@[k]).endpoint@ == e;
                            if k < before.len() {
                                assert(before[k] == self.entries@[k]);
                            }
                        }
                    }
                    assert forall|e: Seq<char>| #[trigger] self.view().contains_key(e) implies self.view()[e] == old_view.insert(key, val)[e] by {
                        let k = choose|k: int| 0 <= k < self.entries@.len() && (#[trigger] self.entries@[k]).endpoint@ == e;
                        self.lemma_view_at(k);
                        if k < before.len() {
                            assert(before[k] == self.entries@[k]);
                            lemma_entries_view_at(before, k);
                        }
                    }
                    assert(self.view() =~= old_view.insert(key, val));
                }
            },
        }
    }

    /// Removes one browser's subscription regardless of owner, returning
    /// whether there was one. Used to prune endpoints a push service reports as gone.
    ///
    /// # Arguments
    ///
    /// * `endpoint` - Push resource the row is keyed by.
    pub fn remove_by_endpoint(&mut self, endpoint: &str) -> (removed: bool)
        requires
            old(self).wf(),
        ensures
            final(self).wf(),
            removed == old(self).view().contains_key(endpoint@),
            final(self).view() == old(self).view().remove(endpoint@),
    {
        let ghost before = self.entries@;
        let ghost old_view = self.view();
        match self.find(endpoint) {
            Some(i) => {
                self.entries.remove(i);
                proof {
                    assert(old_view.contains_key(endpoint@)) by {
                        assert(before[i as int].endpoint@ == endpoint@);
                    }
                    assert forall|a: int, b: int| 0 <= a < b < self.entries@.len() implies (#[trigger] self.entries@[a]).endpoint@ != (#[trigger] self.entries@[b]).endpoint@ by {
                        let a2 = if a < i { a } else { a + 1 };
                        let b2 = if b < i { b } else { b + 1 };
                        assert(self.entries@[a] == before[a2]);
                        assert(self.entries@[b] == before[b2]);
                    }
                    assert forall|e: Seq<char>| self.view().contains_key(e) <==> old_view.remove(endpoint@).contains_key(e) by {
                        if self.view().contains_key(e) {
                            let k = choose|k: int| 0 <= k < self.entries@.len() && (#[trigger] self.entries@[k]).endpoint@ == e;
                            let k2 = if k < i { k } else { k + 1 };
                            assert(self.entries@[k] == before[k2]);
                            assert(k2 != i as int);
                            if k2 < i {
                                assert(before[k2].endpoint@ != before[i as int].endpoint@);
                            } else {
                                assert(before[i as int].endpoint@ != before[k2].endpoint@);
                            }
                        }
                        if old_view.remove(endpoint@).contains_key(e) {
                            let k = choose|k: int| 0 <= k < before.len() && (#[trigger] before[k]).endpoint@ == e;
                            assert(k != i as int);
                            let k2 = if k < i { k } else { k - 1 };
                            assert(self.entries@[k2] == before[k]);
                        }
                    }
                    assert forall|e: Seq<char>| #[trigger] self.view().contains_key(e) implies self.view()[e] == old_view.remove(endpoint@)[e] by {
                        let k = choose|k: int| 0 <= k < self.entries@.len() && (#[trigger] self.entries@[k]).endpoint@ == e;
                        self.lemma_view_at(k);
                        let k2 = if k < i { k } else { k + 1 };
                        assert(self.entries@[k] == before[k2]);
                        lemma_entries_view_at(before, k2);
                    }
                    assert(self.view() =~= old_view.remove(endpoint@));
                }
                true
            },
            None => {
                proof {
                    assert(!old_view.contains_key(endpoint@));
                    assert(self.view() =~= old_view.remove(endpoint@));
                }
                false
            },
        }
    }

    /// Removes one browser's subscription if it belongs to `user_id`,
    /// returning whether it was removed.
    ///
    /// # Arguments
    ///
    /// * `user_id` - Account the row must belong to.
    /// * `endpoint` - Push resource the row is keyed by.
    pub fn remove(&mut self, user_id: &str, endpoint: &str) -> (removed: bool)
        requires
            old(self).wf(),
        ensures
            final(self).wf(),
            removed == (old(self).view().contains_key(endpoint@) && old(self).view()[endpoint@].user_id == user_id@),
            final(self).view() == (if removed { old(self).view().remove(endpoint@) } else { old(self).view() }),
    {
        match self.find(endpoint) {
            Some(i) => {
                proof {
                    self.lemma_view_at(i as int);
                }
                if same_text(self.entries[i].user_id.as_str(), user_id) {
                    self.remove_by_endpoint(endpoint)
                } else {
                    false
                }
            },
            None => false,
        }
    }

    /// Reads every subscription belonging to any of `user_ids`: each account's
    /// in turn, each in the order stored.
    ///
    /// # Arguments
    ///
    /// * `user_ids` - Accounts to read.
    pub fn subscriptions_for(&self, user_ids: &[String]) -> (r: Vec<Subscription>)
        ensures
            r@.map_values(|s: Subscription| subscription_view(s)) == owned_by_all(self.entries(), user_ids@),
    {
        let mut subscriptions: Vec<Subscription> = Vec::new();
        let mut u: usize = 0;
        while u < user_ids.len()
            invariant
                u <= user_ids.len(),
                subscriptions@.map_values(|s: Subscription| subscription_view(s)) == owned_by_all(self.entries@, user_ids@.take(u as int)),
            decreases user_ids.len() - u,
        {
            let ghost start = subscriptions@.map_values(|s: Subscription| subscription_view(s));
            let mut i: usize = 0;
            while i < self.entries.len()
                invariant
                    u < user_ids.len(),
                    i <= self.entries@.len(),
                    subscriptions@.map_values(|s: Subscription| subscription_view(s)) == start + owned_by(self.entries@.take(i as int), user_ids@[u as int]@),
                decreases self.entries@.len() - i,
            {
                let e = &self.entries[i];
                proof {
                    assert(self.entries@.take(i as int + 1).drop_last() =~= self.entries@.take(i as int));
                }
                if same_text(e.user_id.as_str(), user_ids[u].as_str()) {
                    let ghost prev = subscriptions@;
                    subscriptions.push(Subscription { endpoint: e.endpoint.clone(), p256dh: copy_bytes(&e.p256dh), auth: copy_bytes(&e.auth) });
                    proof {
                        assert(subscriptions@.map_values(|s: Subscription| subscription_view(s))
                            =~= prev.map_values(|s: Subscription| subscription_view(s)).push((e.endpoint@, e.p256dh@, e.auth@)));
                        assert(subscriptions@.map_values(|s: Subscription| subscription_view(s)) =~= start + owned_by(self.entries@.take(i as int + 1), user_ids@[u as int]@));
                    }
                }
                i = i + 1;
            }
            proof {
                assert(self.entries@.take(self.entries@.len() as int) =~= self.entries@);
                assert(user_ids@.take(u as int + 1).drop_last() =~= user_ids@.take(u as int));
            }
            u = u + 1;
        }
        assert(user_ids@.take(user_ids@.len() as int) =~= user_ids@);
        subscriptions
    }

    /// What an account's subscriptions list agrees with what is stored: an
    /// endpoint is among them exactly when it is stored as that account's,
    /// with the keys stored for it. So after `upsert` the new owner's list
    /// carries the endpoint and an earlier owner's no longer does, and after a
    /// removal nobody's does. No endpoint is listed twice.
    pub proof fn law_listing_matches_store(&self, user_id: Seq<char>, endpoint: Seq<char>)
        requires
            self.wf(),
        ensures
            (exists|k: int| 0 <= k < owned_by(self.entries(), user_id).len() && (#[trigger] owned_by(self.entries(), user_id)[k]).0 == endpoint)
                <==> (self.view().contains_key(endpoint) && self.view()[endpoint].user_id == user_id),
            forall|k: int| 0 <= k < owned_by(self.entries(), user_id).len() ==> {
                let t = #[trigger] owned_by(self.entries(), user_id)[k];
                &&& self.view().contains_key(t.0)
                &&& self.view()[t.0] == (Owned { user_id: user_id, p256dh: t.1, auth: t.2 })
            },
            forall|a: int, b: int| 0 <= a < b < owned_by(self.entries(), user_id).len() ==>
                (#[trigger] owned_by(self.entries(), user_id)[a]).0 != (#[trigger] owned_by(self.entries(), user_id)[b]).0,
    {
        lemma_owned_by(self.entries@, user_id, endpoint);
        lemma_owned_by_distinct(self.entries@, user_id);
    }

    /// Every stored subscription, for writing to disk.
    pub fn stored(&self) -> (r: &Vec<StoredSubscription>)
        ensures
            r@ == self.entries(),
    {
        &self.entries
    }
}

} // verus!
