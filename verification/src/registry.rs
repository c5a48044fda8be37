//! The connected users: each one's event channel, declared status, and the
//! devices their sockets named, in connect order.
//!
//! Room membership is not kept here; it is read at broadcast time.

use std::collections::HashMap;

use tokio::sync::broadcast::{Receiver, Sender};
use vstd::prelude::*;

use crate::events::Device;
use crate::models::Status;
use crate::presence::{change_of, on_change, PresenceChange, UserStatus};

verus! {

broadcast use vstd::std_specs::hash::group_hash_axioms;

#[verifier::external_type_specification]
#[verifier::external_body]
#[verifier::reject_recursive_types(T)]
pub struct ExBroadcastSender<T>(tokio::sync::broadcast::Sender<T>);

#[verifier::external_type_specification]
#[verifier::external_body]
#[verifier::reject_recursive_types(T)]
pub struct ExBroadcastReceiver<T>(tokio::sync::broadcast::Receiver<T>);

/// Calls `tokio::sync::broadcast::channel` and keeps the sending half; the
/// receiving half is dropped. The capacity bounds are those under which it
/// does not panic.
#[verifier::external_body]
fn open_channel(capacity: usize) -> (r: Sender<String>)
    requires
        0 < capacity <= usize::MAX / 2,
{
    tokio::sync::broadcast::channel(capacity).0
}

/// Calls `Sender::subscribe`: a new receiver that sees what is sent from now on.
#[verifier::external_body]
fn listen(events: &Sender<String>) -> (r: Receiver<String>) {
    events.subscribe()
}

/// Calls `Sender::receiver_count`. Other sockets subscribe and close at any
/// time, so nothing is claimed of the count.
#[verifier::external_body]
fn live_receivers(events: &Sender<String>) -> (r: usize) {
    events.receiver_count()
}

/// Calls `Sender::send`, dropping the error it gives when no receiver is left.
#[verifier::external_body]
fn offer(events: &Sender<String>, payload: String) {
    let _ = events.send(payload);
}

/// Calls `std::mem::drop` on a receiver, so it no longer counts as one.
#[verifier::external_body]
fn close_receiver(receiver: Receiver<String>) {
    drop(receiver)
}

/// What one socket named on connect, kept until that socket closes.
#[derive(Debug, Clone, Copy, PartialEq, Eq, Structural)]
pub struct SocketDevice {
    pub socket_id: u64,
    pub device: Device,
}

/// One connected user.
pub struct Connected {
    /// The writing end of a channel every socket the user holds reads
    pub events: Sender<String>,
    /// Starts at the user's preferred status, then whatever the user declares
    pub status: Status,
    /// One entry per live socket that named a device, in connect order
    pub devices: Vec<SocketDevice>,
}

/// Whether a socket is the only one its user holds.
#[derive(Debug, Clone, Copy, PartialEq, Eq, Structural)]
pub enum Joined {
    First,
    Additional,
}

/// What the registry holds of one user.
pub struct Entry {
    pub status: Status,
    pub devices: Seq<SocketDevice>,
}

/// The device list with the first entry of a socket removed, if it has one.
pub open spec fn without_socket(devices: Seq<SocketDevice>, socket_id: u64) -> Seq<SocketDevice>
    decreases devices.len(),
{
    if devices.len() == 0 {
        devices
    } else if devices[0].socket_id == socket_id {
        devices.subrange(1, devices.len() as int)
    } else {
        seq![devices[0]] + without_socket(devices.subrange(1, devices.len() as int), socket_id)
    }
}

/// The device a user was most recently connected from.
pub open spec fn last_device(devices: Seq<SocketDevice>) -> Option<Device> {
    if devices.len() == 0 {
        None
    } else {
        Some(devices.last().device)
    }
}

/// One entry per connected user, keyed by user id.
pub struct Registry {
    users: HashMap<u128, Connected>,
}

impl Registry {
    /// What the registry holds of each connected user.
    pub closed spec fn view(&self) -> Map<u128, Entry> {
        Map::new(
            |u: u128| self.users@.contains_key(u),
            |u: u128| Entry { status: self.users@[u].status, devices: self.users@[u].devices@ },
        )
    }

    /// Nobody connected.
    pub fn new() -> (r: Registry)
        ensures
            r.view() == Map::<u128, Entry>::empty(),
    {
        let r = Registry { users: HashMap::new() };
        assert(r.view() =~= Map::<u128, Entry>::empty());
        r
    }

    /// Returns a receiver on a user's channel, creating the entry if this is
    /// their first connection.
    ///
    /// # Arguments
    ///
    /// * `user_id` - User the channel belongs to.
    /// * `status` - What a first connection starts at. A later one joins the
    ///   entry as it stands, keeping whatever the user has since declared.
    /// * `device` - What this socket named on connect, if anything.
    /// * `buffer` - How many events a new channel keeps for a slow reader.
    pub fn subscribe(&mut self, user_id: u128, status: Status, device: Option<SocketDevice>, buffer: usize) -> (r: (Receiver<String>, Joined))
        requires
            0 < buffer <= usize::MAX / 2,
        ensures
            r.1 == (if old(self).view().contains_key(user_id) { Joined::Additional } else { Joined::First }),
            final(self).view() == old(self).view().insert(user_id, Entry {
                status: if old(self).view().contains_key(user_id) { old(self).view()[user_id].status } else { status },
                devices: (if old(self).view().contains_key(user_id) { old(self).view()[user_id].devices } else { Seq::empty() })
                    + (match device { Some(d) => seq![d], None => Seq::empty() }),
            }),
    {
        let ghost before = self.view();
        let (mut connected, joined) = match self.users.remove(&user_id) {
            Some(c) => (c, Joined::Additional),
            None => (Connected { events: open_channel(buffer), status, devices: Vec::new() }, Joined::First),
        };
        let ghost devices_before = connected.devices@;
        if let Some(d) = device {
            connected.devices.push(d);
        }
        let receiver = listen(&connected.events);
        proof {
            assert(connected.devices@ =~= devices_before + (match device { Some(d) => seq![d], None => Seq::empty() }));
        }
        self.users.insert(user_id, connected);
        proof {
            assert(self.view() =~= before.insert(user_id, Entry {
                status: if before.contains_key(user_id) { before[user_id].status } else { status },
                devices: (if before.contains_key(user_id) { before[user_id].devices } else { Seq::empty() })
                    + (match device { Some(d) => seq![d], None => Seq::empty() }),
            }));
        }
        (receiver, joined)
    }

    /// Drops a receiver, and the user's entry with it once no other receiver
    /// remains, returning the status that entry held.
    ///
    /// # Arguments
    ///
    /// * `user_id` - User the channel belongs to.
    /// * `socket_id` - Identifies the entry this socket added to the device list.
    /// * `receiver` - Receiver to drop.
    pub fn unsubscribe(&mut self, user_id: u128, socket_id: u64, receiver: Receiver<String>) -> (r: Option<Status>)
        ensures
            !old(self).view().contains_key(user_id) ==> r is None && final(self).view() == old(self).view(),
            old(self).view().contains_key(user_id) ==> match r {
                Some(s) => s == old(self).view()[user_id].status && final(self).view() == old(self).view().remove(user_id),
                None => final(self).view() == old(self).view().insert(user_id, Entry {
                    status: old(self).view()[user_id].status,
                    devices: without_socket(old(self).view()[user_id].devices, socket_id),
                }),
            },
    {
        close_receiver(receiver);
        let remaining = match self.users.get(&user_id) {
            Some(connected) => live_receivers(&connected.events),
            None => 0,
        };
        self.release(user_id, socket_id, remaining)
    }

    /// Drops a closed socket's device entry, and the user's entry with it
    /// when no receiver on their channel remains, returning the status that
    /// entry held.
    ///
    /// # Arguments
    ///
    /// * `user_id` - User the socket belonged to.
    /// * `socket_id` - Identifies the entry the socket added to the device list.
    /// * `remaining` - How many receivers on the user's channel are still open.
    pub fn release(&mut self, user_id: u128, socket_id: u64, remaining: usize) -> (r: Option<Status>)
        ensures
            !old(self).view().contains_key(user_id) ==> r is None && final(self).view() == old(self).view(),
            old(self).view().contains_key(user_id) && remaining == 0 ==> r == Some(old(self).view()[user_id].status)
                && final(self).view() == old(self).view().remove(user_id),
            old(self).view().contains_key(user_id) && remaining > 0 ==> r is None
                && final(self).view() == old(self).view().insert(user_id, Entry {
                    status: old(self).view()[user_id].status,
                    devices: without_socket(old(self).view()[user_id].devices, socket_id),
                }),
    {
        let ghost before = self.view();
        let mut connected = match self.users.remove(&user_id) {
            Some(c) => c,
            None => {
                proof {
                    assert(self.view() =~= before);
                }
                return None;
            },
        };
        let ghost old_devices = connected.devices@;
        let mut i: usize = 0;
        let mut hit = false;
        while i < connected.devices.len() && !hit
            invariant
                i <= connected.devices.len(),
                connected.devices@ == old_devices,
                forall|j: int| 0 <= j < i ==> old_devices[j].socket_id != socket_id,
                hit ==> i < old_devices.len() && old_devices[i as int].socket_id == socket_id,
            decreases connected.devices.len() - i + (if hit { 0int } else { 1int }),
        {
            if connected.devices[i].socket_id == socket_id {
                hit = true;
            } else {
                i = i + 1;
            }
        }
        if i < connected.devices.len() {
            connected.devices.remove(i);
        }
        proof {
            lemma_without_socket(old_devices, socket_id, i as int);
        }
        if remaining > 0 {
            self.users.insert(user_id, connected);
            proof {
                assert(self.view() =~= before.insert(user_id, Entry {
                    status: before[user_id].status,
                    devices: without_socket(before[user_id].devices, socket_id),
                }));
            }
            return None;
        }
        proof {
            assert(self.view() =~= before.remove(user_id));
        }
        Some(connected.status)
    }

    /// Reads what the given users are declaring, leaving out any holding no
    /// connection: each one's status and the device most recently connected from.
    pub fn statuses_of(&self, users: &[u128]) -> (r: Vec<UserStatus>)
        ensures
            r@ == declared(self.view(), users@),
    {
        let mut found: Vec<UserStatus> = Vec::new();
        let mut i: usize = 0;
        while i < users.len()
            invariant
                i <= users.len(),
                found@ == declared(self.view(), users@.take(i as int)),
            decreases users.len() - i,
        {
            let user_id = users[i];
            proof {
                assert(users@.take(i as int + 1).drop_last() =~= users@.take(i as int));
            }
            match self.users.get(&user_id) {
                Some(connected) => {
                    let device = if connected.devices.len() == 0 {
                        None
                    } else {
                        Some(connected.devices[connected.devices.len() - 1].device)
                    };
                    found.push(UserStatus { user_id, status: connected.status, device });
                },
                None => {},
            }
            i = i + 1;
        }
        assert(users@.take(users@.len() as int) =~= users@);
        found
    }

    /// Writes the status a user's connections declare, returning the previous
    /// one, or `None` when the user holds no connection.
    pub fn set_status(&mut self, user_id: u128, status: Status) -> (r: Option<Status>)
        ensures
            match r {
                Some(prev) => old(self).view().contains_key(user_id) && prev == old(self).view()[user_id].status
                    && final(self).view() == old(self).view().insert(user_id, Entry { status, devices: old(self).view()[user_id].devices }),
                None => !old(self).view().contains_key(user_id) && final(self).view() == old(self).view(),
            },
    {
        let ghost before = self.view();
        match self.users.remove(&user_id) {
            Some(mut connected) => {
                let previous = connected.status;
                connected.status = status;
                self.users.insert(user_id, connected);
                proof {
                    assert(self.view() =~= before.insert(user_id, Entry { status, devices: before[user_id].devices }));
                }
                Some(previous)
            },
            None => {
                proof {
                    assert(self.view() =~= before);
                }
                None
            },
        }
    }

    /// Reads which of the given users are not connected, in order.
    pub fn offline_users(&self, users: &[u128]) -> (r: Vec<u128>)
        ensures
            r@ == users@.filter(|u: u128| !self.view().contains_key(u)),
    {
        let ghost keep = |u: u128| !self.view().contains_key(u);
        let mut found: Vec<u128> = Vec::new();
        let mut i: usize = 0;
        while i < users.len()
            invariant
                i <= users.len(),
                keep == (|u: u128| !self.view().contains_key(u)),
                found@ == users@.take(i as int).filter(keep),
            decreases users.len() - i,
        {
            let user_id = users[i];
            proof {
                assert(users@.take(i as int + 1).drop_last() =~= users@.take(i as int));
                reveal_with_fuel(Seq::<_>::filter, 1);
            }
            if !self.users.contains_key(&user_id) {
                found.push(user_id);
            }
            i = i + 1;
        }
        assert(users@.take(users@.len() as int) =~= users@);
        found
    }

    /// Sends a payload to each of the given users who is connected.
    pub fn inform_users(&self, users: &[u128], payload: &String) {
        let mut i: usize = 0;
        while i < users.len()
            invariant
                i <= users.len(),
            decreases users.len() - i,
        {
            match self.users.get(&users[i]) {
                Some(connected) => offer(&connected.events, payload.clone()),
                None => {},
            }
            i = i + 1;
        }
    }

    // A socket's life //

    /// Opens a socket's place in the registry, returning its receiver and, for
    /// the user's first connection, the presence change everyone sharing a
    /// room is told of.
    ///
    /// # Arguments
    ///
    /// * `user_id` - User the socket belongs to.
    /// * `status` - The status the user prefers, held if this is their first connection.
    /// * `device` - What the socket is running on, with the socket's id.
    /// * `buffer` - How many events a new channel keeps for a slow reader.
    pub fn connect(&mut self, user_id: u128, status: Status, device: Option<SocketDevice>, buffer: usize) -> (r: (Receiver<String>, Option<PresenceChange>))
        requires
            0 < buffer <= usize::MAX / 2,
        ensures
            r.1 == (if old(self).view().contains_key(user_id) { None } else { Some(change_of(None, Some(status))) }),
            final(self).view() == old(self).view().insert(user_id, Entry {
                status: if old(self).view().contains_key(user_id) { old(self).view()[user_id].status } else { status },
                devices: (if old(self).view().contains_key(user_id) { old(self).view()[user_id].devices } else { Seq::empty() })
                    + (match device { Some(d) => seq![d], None => Seq::empty() }),
            }),
    {
        let (receiver, joined) = self.subscribe(user_id, status, device, buffer);
        let change = match joined {
            Joined::First => Some(on_change(None, Some(status))),
            Joined::Additional => None,
        };
        (receiver, change)
    }

    /// Applies the status a client declares, returning the change everyone
    /// sharing a room is told of; `None` when the user holds no connection.
    pub fn declare(&mut self, user_id: u128, status: Status) -> (r: Option<PresenceChange>)
        ensures
            match r {
                Some(c) => old(self).view().contains_key(user_id)
                    && c == change_of(Some(old(self).view()[user_id].status), Some(status))
                    && final(self).view() == old(self).view().insert(user_id, Entry { status, devices: old(self).view()[user_id].devices }),
                None => !old(self).view().contains_key(user_id) && final(self).view() == old(self).view(),
            },
    {
        match self.set_status(user_id, status) {
            Some(previous) => Some(on_change(Some(previous), Some(status))),
            None => None,
        }
    }

    /// Closes a socket's place in the registry, returning, when it was the
    /// user's last connection, the change everyone sharing a room is told of.
    pub fn disconnect(&mut self, user_id: u128, socket_id: u64, receiver: Receiver<String>) -> (r: Option<PresenceChange>)
        ensures
            !old(self).view().contains_key(user_id) ==> r is None && final(self).view() == old(self).view(),
            old(self).view().contains_key(user_id) ==> match r {
                Some(c) => c == change_of(Some(old(self).view()[user_id].status), None)
                    && final(self).view() == old(self).view().remove(user_id),
                None => final(self).view() == old(self).view().insert(user_id, Entry {
                    status: old(self).view()[user_id].status,
                    devices: without_socket(old(self).view()[user_id].devices, socket_id),
                }),
            },
    {
        match self.unsubscribe(user_id, socket_id, receiver) {
            Some(last) => Some(on_change(Some(last), None)),
            None => None,
        }
    }
}

/// What the registry reports for a list of users: one entry per connected user
/// in list order, with their status and last device.
pub open spec fn declared(view: Map<u128, Entry>, users: Seq<u128>) -> Seq<UserStatus>
    decreases users.len(),
{
    if users.len() == 0 {
        Seq::empty()
    } else {
        let rest = declared(view, users.drop_last());
        let u = users.last();
        if view.contains_key(u) {
            rest.push(UserStatus { user_id: u, status: view[u].status, device: last_device(view[u].devices) })
        } else {
            rest
        }
    }
}

proof fn lemma_without_socket(devices: Seq<SocketDevice>, socket_id: u64, i: int)
    requires
        0 <= i <= devices.len(),
        forall|j: int| 0 <= j < i ==> devices[j].socket_id != socket_id,
        i < devices.len() ==> devices[i].socket_id == socket_id,
    ensures
        without_socket(devices, socket_id) == (if i < devices.len() { devices.remove(i) } else { devices }),
    decreases devices.len(),
{
    if devices.len() > 0 {
        let tail = devices.subrange(1, devices.len() as int);
        if i > 0 {
            lemma_without_socket(tail, socket_id, i - 1);
            if i < devices.len() {
                assert(seq![devices[0]] + tail.remove(i - 1) =~= devices.remove(i));
            } else {
                assert(seq![devices[0]] + tail =~= devices);
            }
        } else {
            assert(devices.remove(0) =~= tail);
        }
    }
}

/// A socket's own device entry is what its disconnect removes: connecting
/// appends the socket's device, and removing that socket gives the devices
/// back as they were, so a user's first connection, once closed, leaves the
/// registry as it found them.
pub proof fn law_disconnect_undoes_connect(before: Map<u128, Entry>, devices: Seq<SocketDevice>, user_id: u128, status: Status, d: SocketDevice)
    requires
        forall|k: int| 0 <= k < devices.len() ==> (#[trigger] devices[k]).socket_id != d.socket_id,
    ensures
        without_socket(devices + seq![d], d.socket_id) == devices,
        !before.contains_key(user_id) ==> before.insert(user_id, Entry { status, devices: seq![d] }).remove(user_id) == before,
    decreases devices.len(),
{
    if devices.len() == 0 {
        assert(devices + seq![d] =~= seq![d]);
        assert(seq![d].subrange(1, 1) =~= devices);
    } else {
        let tail = devices.subrange(1, devices.len() as int);
        assert forall|k: int| 0 <= k < tail.len() implies (#[trigger] tail[k]).socket_id != d.socket_id by {
            assert(tail[k] == devices[k + 1]);
        }
        law_disconnect_undoes_connect(before, tail, user_id, status, d);
        assert((devices + seq![d]).subrange(1, devices.len() as int + 1) =~= tail + seq![d]);
        assert((devices + seq![d])[0] == devices[0]);
        assert(seq![devices[0]] + tail =~= devices);
    }
    if !before.contains_key(user_id) {
        assert(before.insert(user_id, Entry { status, devices: seq![d] }).remove(user_id) =~= before);
    }
}

} // verus!
