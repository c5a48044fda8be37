//! What a viewer is told about a user's presence and linked game account, and
//! when.

use std::collections::HashMap;

use vstd::prelude::*;

use crate::events::{Device, GameActivity, GamePresence, Presence, UserGamePresence, UserPresence};
use crate::models::Status;

verus! {

broadcast use vstd::std_specs::hash::group_hash_axioms;

/// The presence a viewer sees for a status, `None` meaning no connection.
pub open spec fn presence_of(status: Option<Status>) -> Presence {
    match status {
        Some(Status::Online) => Presence::Online,
        Some(Status::Busy) => Presence::Busy,
        Some(Status::Away) => Presence::Away,
        Some(Status::Invisible) => Presence::Offline,
        None => Presence::Offline,
    }
}

/// The presence a viewer sees for a given status.
///
/// # Arguments
///
/// * `status` - Status the user's connection declares, or `None` when they
///   hold no connection.
pub fn from_status(status: Option<Status>) -> (r: Presence)
    ensures
        r == presence_of(status),
{
    match status {
        Some(Status::Online) => Presence::Online,
        Some(Status::Busy) => Presence::Busy,
        Some(Status::Away) => Presence::Away,
        Some(Status::Invisible) | None => Presence::Offline,
    }
}

/// What one status change sends.
#[derive(Debug, Clone, Copy, PartialEq, Eq, Structural)]
pub struct PresenceChange {
    /// Whether the user's game presence is removed, which happens on turning Invisible
    pub clear_game: bool,
    /// The presence sent to everyone sharing a room, `None` when a viewer sees no change
    pub announce: Option<Presence>,
}

/// What a status change sends: the game presence is cleared on turning
/// Invisible, and the presence a viewer sees is announced when it differs.
pub open spec fn change_of(before: Option<Status>, after: Option<Status>) -> PresenceChange {
    PresenceChange {
        clear_game: after == Some(Status::Invisible) && before != Some(Status::Invisible),
        announce: if presence_of(after) == presence_of(before) { None } else { Some(presence_of(after)) },
    }
}

/// Decides what a user's status change sends: their game presence goes when
/// they turn Invisible, and the new presence is announced when it differs from
/// the old one as a viewer sees it.
///
/// # Arguments
///
/// * `before` - Status they held, or `None` before they connected.
/// * `after` - Status they hold now, or `None` once disconnected.
pub fn on_change(before: Option<Status>, after: Option<Status>) -> (r: PresenceChange)
    ensures
        r == change_of(before, after),
{
    let clear_game = after == Some(Status::Invisible) && before != Some(Status::Invisible);
    let presence = from_status(after);
    let announce = if presence == from_status(before) { None } else { Some(presence) };
    PresenceChange { clear_game, announce }
}

/// An Invisible user connecting, leaving, or switching between Invisible and
/// having no connection, is no change to a viewer; every other change of
/// presence is announced, with the presence the user now has.
pub proof fn law_invisible_is_offline(before: Option<Status>, after: Option<Status>)
    ensures
        presence_of(Some(Status::Invisible)) == presence_of(None),
        (before == Some(Status::Invisible) || before is None) && (after == Some(Status::Invisible) || after is None)
            ==> presence_of(after) == presence_of(before),
        presence_of(after) != presence_of(before) ==> presence_of(after) != Presence::Offline || presence_of(before) != Presence::Offline,
{
}

/// What a user declares, before a viewer is told anything of it.
#[derive(Debug, Clone, Copy, PartialEq, Eq, Structural)]
pub struct UserStatus {
    pub user_id: u128,
    pub status: Status,
    pub device: Option<Device>,
}

/// The presences a snapshot lists for the declared statuses: everyone not
/// seen as Offline, in order.
pub open spec fn visible(declared: Seq<UserStatus>) -> Seq<UserPresence>
    decreases declared.len(),
{
    if declared.len() == 0 {
        Seq::empty()
    } else {
        let rest = visible(declared.drop_last());
        let d = declared.last();
        if presence_of(Some(d.status)) == Presence::Offline {
            rest
        } else {
            rest.push(UserPresence { user_id: d.user_id, presence: presence_of(Some(d.status)), device: d.device })
        }
    }
}

/// Builds the presence list a connecting user is sent from what the members
/// they share a room with declare, leaving out anyone seen as Offline.
pub fn visible_presences(declared: &[UserStatus]) -> (r: Vec<UserPresence>)
    ensures
        r@ == visible(declared@),
        forall|i: int| 0 <= i < r@.len() ==> (#[trigger] r@[i]).presence != Presence::Offline,
{
    let mut users: Vec<UserPresence> = Vec::new();
    let mut i: usize = 0;
    while i < declared.len()
        invariant
            i <= declared.len(),
            users@ == visible(declared@.take(i as int)),
            forall|k: int| 0 <= k < users@.len() ==> (#[trigger] users@[k]).presence != Presence::Offline,
        decreases declared.len() - i,
    {
        let d = declared[i];
        proof {
            assert(declared@.take(i as int + 1).drop_last() =~= declared@.take(i as int));
        }
        let presence = from_status(Some(d.status));
        if presence != Presence::Offline {
            users.push(UserPresence { user_id: d.user_id, presence, device: d.device });
        }
        i = i + 1;
    }
    assert(declared@.take(declared@.len() as int) =~= declared@);
    users
}

/// What each linked account last reported, keyed by the owning user.
///
/// An account reported as Offline, or owned by a user whose stored status is
/// Invisible, has no entry.
pub struct GamePresenceTable {
    held: HashMap<u128, GameActivity>,
}

impl GamePresenceTable {
    /// The reports held, by user.
    pub closed spec fn view(&self) -> Map<u128, GameActivity> {
        self.held@
    }

    /// No entry is a report of Offline.
    pub open spec fn wf(&self) -> bool {
        forall|u: u128| #[trigger] self.view().contains_key(u) ==> self.view()[u].status != GamePresence::Offline
    }

    /// An empty table.
    pub fn new() -> (r: GamePresenceTable)
        ensures
            r.view() == Map::<u128, GameActivity>::empty(),
            r.wf(),
    {
        GamePresenceTable { held: HashMap::new() }
    }

    /// Stores what a linked account reported, returning whether it is sent on
    /// to everyone sharing a room with its owner.
    ///
    /// A user whose stored status is Invisible has no game presence: their
    /// entry is removed and nothing is sent. Otherwise an Offline report
    /// removes the entry, any other replaces it, and the report is sent.
    ///
    /// # Arguments
    ///
    /// * `user_id` - User the linked account belongs to.
    /// * `stored` - The user's stored preferred status.
    /// * `game` - What the account reported.
    pub fn report(&mut self, user_id: u128, stored: Status, game: &GameActivity) -> (announce: bool)
        requires
            old(self).wf(),
        ensures
            final(self).wf(),
            announce == (stored != Status::Invisible),
            final(self).view() == (if stored == Status::Invisible || game.status == GamePresence::Offline {
                old(self).view().remove(user_id)
            } else {
                old(self).view().insert(user_id, *game)
            }),
    {
        if stored == Status::Invisible {
            self.held.remove(&user_id);
            return false;
        }
        match game.status {
            GamePresence::Offline => {
                self.held.remove(&user_id);
            },
            _ => {
                self.held.insert(user_id, game.duplicate());
            },
        }
        true
    }

    /// Removes a user's game presence, returning the report that tells
    /// viewers their linked account is on nothing, or `None` when they had none.
    pub fn clear(&mut self, user_id: u128) -> (r: Option<GameActivity>)
        requires
            old(self).wf(),
        ensures
            final(self).wf(),
            final(self).view() == old(self).view().remove(user_id),
            match r {
                Some(g) => old(self).view().contains_key(user_id)
                    && g.platform == old(self).view()[user_id].platform
                    && g.status == GamePresence::Offline && g.title is None && g.activity is None,
                None => !old(self).view().contains_key(user_id),
            },
    {
        match self.held.remove(&user_id) {
            Some(game) => Some(GameActivity { platform: game.platform, status: GamePresence::Offline, title: None, activity: None }),
            None => None,
        }
    }

    /// Empties the table; nothing reports game presence without the sidecar.
    pub fn clear_all(&mut self)
        ensures
            final(self).view() == Map::<u128, GameActivity>::empty(),
            final(self).wf(),
    {
        self.held.clear();
    }

    /// Reads the game presence of each listed member who has one, in the
    /// order the members are listed.
    ///
    /// # Arguments
    ///
    /// * `members` - Users sharing a room with the reader.
    pub fn snapshot(&self, members: &[u128]) -> (r: Vec<UserGamePresence>)
        ensures
            r@ == games_of(self.view(), members@),
    {
        let mut users: Vec<UserGamePresence> = Vec::new();
        let mut i: usize = 0;
        while i < members.len()
            invariant
                i <= members.len(),
                users@ == games_of(self.view(), members@.take(i as int)),
            decreases members.len() - i,
        {
            let member_id = members[i];
            proof {
                assert(members@.take(i as int + 1).drop_last() =~= members@.take(i as int));
            }
            match self.held.get(&member_id) {
                Some(game) => {
                    users.push(UserGamePresence { user_id: member_id, game: game.duplicate() });
                },
                None => {},
            }
            i = i + 1;
        }
        assert(members@.take(members@.len() as int) =~= members@);
        users
    }
}

/// The game presence of each listed member who has one, in list order.
pub open spec fn games_of(view: Map<u128, GameActivity>, members: Seq<u128>) -> Seq<UserGamePresence>
    decreases members.len(),
{
    if members.len() == 0 {
        Seq::empty()
    } else {
        let rest = games_of(view, members.drop_last());
        let u = members.last();
        if view.contains_key(u) {
            rest.push(UserGamePresence { user_id: u, game: view[u] })
        } else {
            rest
        }
    }
}

/// A change is announced exactly when a viewer sees a different presence,
/// and then with the presence the user now has. In particular a connected
/// user moving between Online, Busy and Away is always announced, never as
/// Offline; and turning Invisible from a visible status clears the game
/// presence and is announced as Offline.
pub proof fn law_change_announces_new_presence(before: Option<Status>, after: Option<Status>)
    ensures
        presence_of(after) != presence_of(before) ==> change_of(before, after).announce == Some(presence_of(after)),
        presence_of(after) == presence_of(before) ==> change_of(before, after).announce is None,
        (before is Some && before != Some(Status::Invisible) && after is Some && after != Some(Status::Invisible) && before != after)
            ==> change_of(before, after).announce is Some && change_of(before, after).announce != Some(Presence::Offline),
        (before is Some && before != Some(Status::Invisible) && after == Some(Status::Invisible))
            ==> change_of(before, after).clear_game && change_of(before, after).announce == Some(Presence::Offline),
{
}

/// A snapshot lists every listed member the table holds a report for, with
/// that report whatever its status, and nobody else: each entry is a listed
/// member, with the report the table holds for them.
pub proof fn law_snapshot_lists_held_members(view: Map<u128, GameActivity>, members: Seq<u128>, u: u128)
    ensures
        members.contains(u) && view.contains_key(u) ==> games_of(view, members).contains(UserGamePresence { user_id: u, game: view[u] }),
        forall|k: int| 0 <= k < games_of(view, members).len() ==> {
            let g = #[trigger] games_of(view, members)[k];
            &&& members.contains(g.user_id)
            &&& view.contains_key(g.user_id)
            &&& g.game == view[g.user_id]
        },
    decreases members.len(),
{
    if members.len() > 0 {
        let init = members.drop_last();
        let last = members.last();
        law_snapshot_lists_held_members(view, init, u);
        let rest = games_of(view, init);
        let all = games_of(view, members);
        assert forall|k: int| 0 <= k < all.len() implies {
            let g = #[trigger] all[k];
            &&& members.contains(g.user_id)
            &&& view.contains_key(g.user_id)
            &&& g.game == view[g.user_id]
        } by {
            if k < rest.len() {
                assert(all[k] == rest[k]);
                let g = rest[k];
                let j = choose|j: int| 0 <= j < init.len() && init[j] == g.user_id;
                assert(members[j] == init[j]);
            } else {
                assert(members[members.len() - 1] == last);
            }
        }
        if members.contains(u) && view.contains_key(u) {
            let target = UserGamePresence { user_id: u, game: view[u] };
            if u == last {
                assert(all[all.len() - 1] == target);
            } else {
                let j = choose|j: int| 0 <= j < members.len() && members[j] == u;
                assert(j < init.len());
                assert(init[j] == u);
                assert(init.contains(u));
                let k = choose|k: int| 0 <= k < rest.len() && rest[k] == target;
                assert(all[k] == target);
            }
        }
    }
}

} // verus!
