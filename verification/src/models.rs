//! Roles, room settings, statuses and the permission mask.
//!
//! Each enum here is stored by the server as the small integer of its variant's
//! position; `code` gives that number and `from_code` reads it back.

use vstd::prelude::*;

verus! {

// Roles //

/// A user's server-wide role.
#[derive(Debug, Clone, Copy, PartialEq, Eq, Structural, Hash)]
pub enum GlobalRole {
    Owner,
    Admin,
    Member,
    Visitor,
}

/// How a room is discovered and entered.
#[derive(Debug, Clone, Copy, PartialEq, Eq, Structural, Hash)]
pub enum Visibility {
    /// Self service.
    Public,
    /// Invite only, listed.
    Locked,
    /// Invite only, unlisted.
    Hidden,
}

/// How much of a room a member is told about.
#[derive(Debug, Clone, Copy, PartialEq, Eq, Structural, Hash)]
pub enum Notify {
    /// No notifications (stored as 0)
    Never,
    Mentions,
    All,
}

/// A game service an account is linked to.
#[derive(Debug, Clone, Copy, PartialEq, Eq, Structural, Hash)]
pub enum Platform {
    Xbox,
    Steam,
}

/// What a user asks to appear as while connected.
#[derive(Debug, Clone, Copy, PartialEq, Eq, Structural, Hash)]
pub enum Status {
    Online,
    Busy,
    Away,
    Invisible,
}

impl GlobalRole {
    /// The integer the role is stored as.
    pub open spec fn spec_code(self) -> i8 {
        match self {
            GlobalRole::Owner => 0,
            GlobalRole::Admin => 1,
            GlobalRole::Member => 2,
            GlobalRole::Visitor => 3,
        }
    }

    /// The integer the role is stored as.
    pub fn code(self) -> (c: i8)
        ensures
            c == self.spec_code(),
    {
        match self {
            GlobalRole::Owner => 0,
            GlobalRole::Admin => 1,
            GlobalRole::Member => 2,
            GlobalRole::Visitor => 3,
        }
    }

    /// Reads a stored integer back, `None` for a number no role has.
    pub fn from_code(c: i8) -> (r: Option<GlobalRole>)
        ensures
            r matches Some(role) ==> role.spec_code() == c,
            r is None <==> !(0 <= c <= 3),
    {
        match c {
            0 => Some(GlobalRole::Owner),
            1 => Some(GlobalRole::Admin),
            2 => Some(GlobalRole::Member),
            3 => Some(GlobalRole::Visitor),
            _ => None,
        }
    }
}

impl Visibility {
    /// The integer the visibility is stored as.
    pub open spec fn spec_code(self) -> i8 {
        match self {
            Visibility::Public => 0,
            Visibility::Locked => 1,
            Visibility::Hidden => 2,
        }
    }

    /// The integer the visibility is stored as.
    pub fn code(self) -> (c: i8)
        ensures
            c == self.spec_code(),
    {
        match self {
            Visibility::Public => 0,
            Visibility::Locked => 1,
            Visibility::Hidden => 2,
        }
    }

    /// Reads a stored integer back, `None` for a number no visibility has.
    pub fn from_code(c: i8) -> (r: Option<Visibility>)
        ensures
            r matches Some(v) ==> v.spec_code() == c,
            r is None <==> !(0 <= c <= 2),
    {
        match c {
            0 => Some(Visibility::Public),
            1 => Some(Visibility::Locked),
            2 => Some(Visibility::Hidden),
            _ => None,
        }
    }
}

impl Notify {
    /// The integer the level is stored as.
    pub open spec fn spec_code(self) -> i8 {
        match self {
            Notify::Never => 0,
            Notify::Mentions => 1,
            Notify::All => 2,
        }
    }

    /// The integer the level is stored as.
    pub fn code(self) -> (c: i8)
        ensures
            c == self.spec_code(),
    {
        match self {
            Notify::Never => 0,
            Notify::Mentions => 1,
            Notify::All => 2,
        }
    }

    /// Reads a stored integer back, `None` for a number no level has.
    pub fn from_code(c: i8) -> (r: Option<Notify>)
        ensures
            r matches Some(v) ==> v.spec_code() == c,
            r is None <==> !(0 <= c <= 2),
    {
        match c {
            0 => Some(Notify::Never),
            1 => Some(Notify::Mentions),
            2 => Some(Notify::All),
            _ => None,
        }
    }
}

impl Platform {
    /// The integer the platform is stored as.
    pub open spec fn spec_code(self) -> i8 {
        match self {
            Platform::Xbox => 0,
            Platform::Steam => 1,
        }
    }

    /// The integer the platform is stored as.
    pub fn code(self) -> (c: i8)
        ensures
            c == self.spec_code(),
    {
        match self {
            Platform::Xbox => 0,
            Platform::Steam => 1,
        }
    }

    /// Reads a stored integer back, `None` for a number no platform has.
    pub fn from_code(c: i8) -> (r: Option<Platform>)
        ensures
            r matches Some(v) ==> v.spec_code() == c,
            r is None <==> !(0 <= c <= 1),
    {
        match c {
            0 => Some(Platform::Xbox),
            1 => Some(Platform::Steam),
            _ => None,
        }
    }
}

impl Status {
    /// The integer the status is stored as.
    pub open spec fn spec_code(self) -> i8 {
        match self {
            Status::Online => 0,
            Status::Busy => 1,
            Status::Away => 2,
            Status::Invisible => 3,
        }
    }

    /// The integer the status is stored as.
    pub fn code(self) -> (c: i8)
        ensures
            c == self.spec_code(),
    {
        match self {
            Status::Online => 0,
            Status::Busy => 1,
            Status::Away => 2,
            Status::Invisible => 3,
        }
    }

    /// Reads a stored integer back, `None` for a number no status has.
    pub fn from_code(c: i8) -> (r: Option<Status>)
        ensures
            r matches Some(v) ==> v.spec_code() == c,
            r is None <==> !(0 <= c <= 3),
    {
        match c {
            0 => Some(Status::Online),
            1 => Some(Status::Busy),
            2 => Some(Status::Away),
            3 => Some(Status::Invisible),
            _ => None,
        }
    }
}

// Permissions //

/// One bit position in a [`Permissions`] mask.
#[derive(Debug, Clone, Copy, PartialEq, Eq, Structural, Hash)]
pub enum Permission {
    /// Send messages
    Post,
    /// Attach files to a message
    Attach,
    /// Use slash commands (unimplemented)
    Commands,
    /// Delete other users' messages
    DeleteMsg,
    /// Create invites to the room
    Invite,
    /// Edit the room name and visibility
    Rename,
    /// Remove a user from the room, with or without an expiry
    Ban,
    /// Set other users' permissions, bounded by your own
    Grant,
    /// Delete the room
    DeleteRoom,
    /// Join voice chat (unimplemented)
    Connect,
    /// Speak in voice chat (unimplemented)
    Speak,
    /// Mute others in voice chat (unimplemented)
    Mute,
    /// Show webcam video (unimplemented)
    Video,
    /// Share screen (unimplemented)
    Screenshare,
}

/// How many permissions exist; they occupy bits `0..PERMISSION_COUNT`.
pub const PERMISSION_COUNT: u64 = 14;

impl Permission {
    /// The bit the permission occupies.
    pub open spec fn spec_index(self) -> u64 {
        match self {
            Permission::Post => 0,
            Permission::Attach => 1,
            Permission::Commands => 2,
            Permission::DeleteMsg => 3,
            Permission::Invite => 4,
            Permission::Rename => 5,
            Permission::Ban => 6,
            Permission::Grant => 7,
            Permission::DeleteRoom => 8,
            Permission::Connect => 9,
            Permission::Speak => 10,
            Permission::Mute => 11,
            Permission::Video => 12,
            Permission::Screenshare => 13,
        }
    }

    /// The bit the permission occupies.
    pub fn index(self) -> (n: u64)
        ensures
            n == self.spec_index(),
            n < PERMISSION_COUNT,
    {
        match self {
            Permission::Post => 0,
            Permission::Attach => 1,
            Permission::Commands => 2,
            Permission::DeleteMsg => 3,
            Permission::Invite => 4,
            Permission::Rename => 5,
            Permission::Ban => 6,
            Permission::Grant => 7,
            Permission::DeleteRoom => 8,
            Permission::Connect => 9,
            Permission::Speak => 10,
            Permission::Mute => 11,
            Permission::Video => 12,
            Permission::Screenshare => 13,
        }
    }

    /// The permission at a bit position, `None` past the last one.
    pub open spec fn spec_at(n: u64) -> Option<Permission> {
        if n == 0 { Some(Permission::Post) }
        else if n == 1 { Some(Permission::Attach) }
        else if n == 2 { Some(Permission::Commands) }
        else if n == 3 { Some(Permission::DeleteMsg) }
        else if n == 4 { Some(Permission::Invite) }
        else if n == 5 { Some(Permission::Rename) }
        else if n == 6 { Some(Permission::Ban) }
        else if n == 7 { Some(Permission::Grant) }
        else if n == 8 { Some(Permission::DeleteRoom) }
        else if n == 9 { Some(Permission::Connect) }
        else if n == 10 { Some(Permission::Speak) }
        else if n == 11 { Some(Permission::Mute) }
        else if n == 12 { Some(Permission::Video) }
        else if n == 13 { Some(Permission::Screenshare) }
        else { None }
    }

    /// Whether the permission is aimed at a member.
    pub open spec fn spec_member_directed(self) -> bool {
        self == Permission::Ban || self == Permission::Grant || self == Permission::Mute
    }

    /// Reports whether the permission is aimed at a member, and so cannot be
    /// used against someone who also holds it.
    pub fn member_directed(self) -> (r: bool)
        ensures
            r == self.spec_member_directed(),
    {
        match self {
            Permission::Ban | Permission::Grant | Permission::Mute => true,
            _ => false,
        }
    }
}

/// Each bit position below [`PERMISSION_COUNT`] names exactly one permission,
/// and two permissions never share a bit.
pub proof fn lemma_permission_index_bijective(p: Permission, q: Permission, n: u64)
    ensures
        p.spec_index() < PERMISSION_COUNT,
        Permission::spec_at(p.spec_index()) == Some(p),
        n < PERMISSION_COUNT <==> Permission::spec_at(n) is Some,
        Permission::spec_at(n) matches Some(r) ==> r.spec_index() == n,
        p.spec_index() == q.spec_index() ==> p == q,
{
}

/// Whether bit `n` of `mask` is set.
pub open spec fn bit_set(mask: i64, n: u64) -> bool {
    mask & (1i64 << n) != 0
}

/// The mask holding exactly the listed permissions.
pub open spec fn list_mask(perms: Seq<Permission>) -> i64
    decreases perms.len(),
{
    if perms.len() == 0 {
        0
    } else {
        list_mask(perms.drop_last()) | (1i64 << perms.last().spec_index())
    }
}

/// A set of [`Permission`] bits, stored as an integer.
///
/// Bits past the last permission are carried along unread.
#[derive(Debug, Clone, Copy, PartialEq, Eq, Structural, Hash)]
pub struct Permissions(pub i64);

impl Permissions {
    /// The empty mask.
    pub fn none() -> (r: Permissions)
        ensures
            r.0 == 0,
            forall|p: Permission| !r.grants(p),
    {
        proof {
            assert forall|n: u64| n < 64 implies !bit_set(0, n) by {
                assert(0i64 & (1i64 << n) == 0) by (bit_vector);
            }
        }
        Permissions(0)
    }

    /// Every permission, and no other bit.
    pub fn full() -> (r: Permissions)
        ensures
            r.0 == 16383,
            forall|p: Permission| r.grants(p),
            forall|n: u64| #![trigger bit_set(r.0, n)] n < 64 ==> (bit_set(r.0, n) <==> n < PERMISSION_COUNT),
    {
        proof {
            assert forall|n: u64| n < 64 implies (bit_set(16383, n) <==> n < 14) by {
                assert((16383i64 & (1i64 << n) != 0) <==> n < 14) by (bit_vector)
                    requires
                        n < 64,
                ;
            }
        }
        Permissions(16383)
    }

    /// Whether the mask holds a permission.
    pub open spec fn grants(self, p: Permission) -> bool {
        bit_set(self.0, p.spec_index())
    }

    /// Reports whether the mask holds the given permission.
    pub fn has(self, p: Permission) -> (r: bool)
        ensures
            r == self.grants(p),
    {
        let bit: i64 = 1i64 << p.index();
        self.0 & bit != 0
    }

    /// The mask with a permission's bit set.
    pub open spec fn spec_grant(self, p: Permission) -> Permissions {
        Permissions(self.0 | (1i64 << p.spec_index()))
    }

    /// The mask with a permission's bit cleared.
    pub open spec fn spec_revoke(self, p: Permission) -> Permissions {
        Permissions(self.0 & !(1i64 << p.spec_index()))
    }

    /// Returns the mask with the given permission added.
    pub fn grant(self, p: Permission) -> (r: Permissions)
        ensures
            r == self.spec_grant(p),
            forall|n: u64| #![trigger bit_set(r.0, n)] n < 64 ==> (bit_set(r.0, n) <==> (n == p.spec_index() || bit_set(self.0, n))),
    {
        let n = p.index();
        let bit: i64 = 1i64 << n;
        let r = Permissions(self.0 | bit);
        proof {
            let x = self.0;
            assert forall|m: u64| #![trigger bit_set(r.0, m)] m < 64 implies (bit_set(r.0, m) <==> (m == n || bit_set(x, m))) by {
                assert(((x | (1i64 << n)) & (1i64 << m) != 0) <==> (m == n || x & (1i64 << m) != 0))
                    by (bit_vector)
                    requires
                        m < 64,
                        n < 14,
                ;
            }
        }
        r
    }

    /// Returns the mask with the given permission removed.
    pub fn revoke(self, p: Permission) -> (r: Permissions)
        ensures
            r == self.spec_revoke(p),
            forall|n: u64| #![trigger bit_set(r.0, n)] n < 64 ==> (bit_set(r.0, n) <==> (n != p.spec_index() && bit_set(self.0, n))),
    {
        let n = p.index();
        let bit: i64 = 1i64 << n;
        let r = Permissions(self.0 & !bit);
        proof {
            let x = self.0;
            assert forall|m: u64| #![trigger bit_set(r.0, m)] m < 64 implies (bit_set(r.0, m) <==> (m != n && bit_set(x, m))) by {
                assert(((x & !(1i64 << n)) & (1i64 << m) != 0) <==> (m != n && x & (1i64 << m) != 0))
                    by (bit_vector)
                    requires
                        m < 64,
                        n < 14,
                ;
            }
        }
        r
    }

    /// Whether every bit of `other` is also set in this mask.
    pub open spec fn covers(self, other: Permissions) -> bool {
        forall|n: u64| n < 64 && #[trigger] bit_set(other.0, n) ==> bit_set(self.0, n)
    }

    /// Reports whether every permission in the given set is also in this one.
    pub fn contains(self, p: Permissions) -> (r: bool)
        ensures
            r == (p.0 & !self.0 == 0),
            r == self.covers(p),
    {
        let r = p.0 & !self.0 == 0;
        proof {
            lemma_clear_difference_iff_covered(self.0, p.0);
        }
        r
    }

    /// Builds a mask from a list of permissions.
    pub fn from_list(perms: &[Permission]) -> (r: Permissions)
        ensures
            r.0 == list_mask(perms@),
            forall|p: Permission| r.grants(p) <==> perms@.contains(p),
            forall|n: u64| PERMISSION_COUNT <= n < 64 ==> !bit_set(r.0, n),
    {
        let mut output = Self::none();
        let mut i: usize = 0;
        while i < perms.len()
            invariant
                i <= perms.len(),
                output.0 == list_mask(perms@.subrange(0, i as int)),
            decreases perms.len() - i,
        {
            let next = output.grant(perms[i]);
            proof {
                let s = perms@.subrange(0, i as int + 1);
                assert(s.drop_last() =~= perms@.subrange(0, i as int));
                assert(s.last() == perms@[i as int]);
            }
            output = next;
            i = i + 1;
        }
        proof {
            assert(perms@.subrange(0, perms@.len() as int) =~= perms@);
            lemma_list_mask_bits(perms@);
        }
        output
    }

}

impl Default for Permissions {
    fn default() -> (r: Permissions)
        ensures
            r.0 == 0,
    {
        Permissions::none()
    }
}

/// A mask is zero once none of its 64 bits is set.
pub proof fn lemma_no_bits_is_zero(z: i64)
    requires
        forall|n: u64| n < 64 ==> !#[trigger] bit_set(z, n),
    ensures
        z == 0,
{
    let u = z as u64;
    assert forall|n: u64| n < 64 implies #[trigger] (u & (1u64 << n)) == 0 by {
        assert(!bit_set(z, n));
        assert((z & (1i64 << n) == 0) ==> ((z as u64) & (1u64 << n)) == 0) by (bit_vector)
            requires
                n < 64,
        ;
    }
    lemma_low_bits_zero(u, 63);
    assert(u & (((1u64 << 63u64) - 1) as u64) == 0 && u & (1u64 << 63) == 0 ==> u == 0) by (bit_vector);
    assert((z as u64) == 0 ==> z == 0) by (bit_vector);
}

proof fn lemma_low_bits_zero(u: u64, k: u64)
    requires
        k <= 63,
        forall|n: u64| n < 64 ==> #[trigger] (u & (1u64 << n)) == 0,
    ensures
        u & (((1u64 << k) - 1) as u64) == 0,
    decreases k,
{
    if k == 0 {
        assert(u & (((1u64 << 0u64) - 1) as u64) == 0) by (bit_vector);
    } else {
        let j: u64 = (k - 1) as u64;
        lemma_low_bits_zero(u, j);
        assert(u & (1u64 << j) == 0);
        assert(u & (((1u64 << j) - 1) as u64) == 0 && u & (1u64 << j) == 0 ==> u & (((1u64 << ((j + 1) as u64)) - 1) as u64) == 0)
            by (bit_vector)
            requires
                j < 63,
        ;
    }
}

/// `p & !s == 0` holds exactly when every bit of `p` is a bit of `s`.
pub proof fn lemma_clear_difference_iff_covered(s: i64, p: i64)
    ensures
        (p & !s == 0) <==> (forall|n: u64| n < 64 && #[trigger] bit_set(p, n) ==> bit_set(s, n)),
{
    let d = p & !s;
    assert forall|n: u64| n < 64 implies (#[trigger] bit_set(d, n) <==> (bit_set(p, n) && !bit_set(s, n))) by {
        assert(((p & !s) & (1i64 << n) != 0) <==> (p & (1i64 << n) != 0 && s & (1i64 << n) == 0))
            by (bit_vector)
            requires
                n < 64,
        ;
    }
    if forall|n: u64| n < 64 && #[trigger] bit_set(p, n) ==> bit_set(s, n) {
        assert forall|n: u64| n < 64 implies !#[trigger] bit_set(d, n) by {
            if bit_set(d, n) {
                assert(bit_set(p, n));
            }
        }
        lemma_no_bits_is_zero(d);
    }
    if d == 0 {
        assert forall|n: u64| n < 64 && #[trigger] bit_set(p, n) implies bit_set(s, n) by {
            assert(!bit_set(d, n)) by {
                assert(0i64 & (1i64 << n) == 0) by (bit_vector);
            }
        }
    }
}

/// The mask of a list has exactly the listed permissions' bits.
pub proof fn lemma_list_mask_bits(perms: Seq<Permission>)
    ensures
        forall|n: u64| #![trigger bit_set(list_mask(perms), n)] n < 64 ==> (bit_set(list_mask(perms), n)
            <==> exists|i: int| 0 <= i < perms.len() && (#[trigger] perms[i]).spec_index() == n),
        forall|p: Permission| bit_set(list_mask(perms), p.spec_index()) <==> perms.contains(p),
        forall|n: u64| PERMISSION_COUNT <= n < 64 ==> !bit_set(list_mask(perms), n),
    decreases perms.len(),
{
    if perms.len() == 0 {
        assert forall|n: u64| n < 64 implies !bit_set(list_mask(perms), n) by {
            assert(0i64 & (1i64 << n) == 0) by (bit_vector);
        }
    } else {
        let rest = perms.drop_last();
        let last = perms.last();
        lemma_list_mask_bits(rest);
        let x = list_mask(rest);
        let k = last.spec_index();
        assert forall|n: u64| #![trigger bit_set(list_mask(perms), n)] n < 64 implies (bit_set(list_mask(perms), n) <==> (n == k || bit_set(x, n))) by {
            assert(((x | (1i64 << k)) & (1i64 << n) != 0) <==> (n == k || x & (1i64 << n) != 0))
                by (bit_vector)
                requires
                    n < 64,
                    k < 14,
            ;
        }
        assert forall|n: u64| #![trigger bit_set(list_mask(perms), n)] n < 64 implies (bit_set(list_mask(perms), n)
            <==> exists|i: int| 0 <= i < perms.len() && (#[trigger] perms[i]).spec_index() == n) by {
            if bit_set(list_mask(perms), n) {
                if n == k {
                    assert(perms[perms.len() - 1].spec_index() == n);
                } else {
                    assert(bit_set(x, n));
                    let i = choose|i: int| 0 <= i < rest.len() && (#[trigger] rest[i]).spec_index() == n;
                    assert(perms[i] == rest[i]);
                }
            }
            if exists|i: int| 0 <= i < perms.len() && (#[trigger] perms[i]).spec_index() == n {
                let i = choose|i: int| 0 <= i < perms.len() && (#[trigger] perms[i]).spec_index() == n;
                if i < perms.len() - 1 {
                    assert(rest[i] == perms[i]);
                }
            }
        }
        assert forall|p: Permission| bit_set(list_mask(perms), p.spec_index()) <==> perms.contains(p) by {
            if perms.contains(p) {
                let i = choose|i: int| 0 <= i < perms.len() && perms[i] == p;
                assert(perms[i].spec_index() == p.spec_index());
            }
            if bit_set(list_mask(perms), p.spec_index()) {
                let i = choose|i: int| 0 <= i < perms.len() && (#[trigger] perms[i]).spec_index() == p.spec_index();
                lemma_permission_index_bijective(perms[i], p, 0);
            }
        }
    }
}


// Laws //

/// Granting a permission adds exactly that permission: afterwards the mask
/// holds `q` if and only if `q` is the granted one or was already held.
pub proof fn law_grant_holds(m: Permissions, p: Permission, q: Permission)
    ensures
        m.spec_grant(p).grants(q) <==> (q == p || m.grants(q)),
{
    let x = m.0;
    let a = p.spec_index();
    let b = q.spec_index();
    assert(((x | (1i64 << a)) & (1i64 << b) != 0) <==> (b == a || x & (1i64 << b) != 0)) by (bit_vector)
        requires
            a < 14,
            b < 14,
    ;
    lemma_permission_index_bijective(p, q, 0);
}

/// Revoking a permission removes exactly that permission: afterwards the mask
/// holds `q` if and only if `q` is another permission that was already held.
pub proof fn law_revoke_holds(m: Permissions, p: Permission, q: Permission)
    ensures
        m.spec_revoke(p).grants(q) <==> (q != p && m.grants(q)),
{
    let x = m.0;
    let a = p.spec_index();
    let b = q.spec_index();
    assert(((x & !(1i64 << a)) & (1i64 << b) != 0) <==> (b != a && x & (1i64 << b) != 0)) by (bit_vector)
        requires
            a < 14,
            b < 14,
    ;
    lemma_permission_index_bijective(p, q, 0);
}

/// Revoking a permission that was just granted gives back the mask it was
/// granted to, when that mask did not already hold it.
pub proof fn law_revoke_undoes_grant(m: Permissions, p: Permission)
    requires
        !m.grants(p),
    ensures
        m.spec_grant(p).spec_revoke(p) == m,
{
    let x = m.0;
    let a = p.spec_index();
    assert(x & (1i64 << a) == 0 ==> ((x | (1i64 << a)) & !(1i64 << a)) == x) by (bit_vector)
        requires
            a < 14,
    ;
}

/// Granting a permission already held, or revoking one not held, changes nothing.
pub proof fn law_grant_revoke_idempotent(m: Permissions, p: Permission)
    ensures
        m.grants(p) ==> m.spec_grant(p) == m,
        !m.grants(p) ==> m.spec_revoke(p) == m,
{
    let x = m.0;
    let a = p.spec_index();
    assert(x & (1i64 << a) != 0 ==> (x | (1i64 << a)) == x) by (bit_vector)
        requires
            a < 14,
    ;
    assert(x & (1i64 << a) == 0 ==> (x & !(1i64 << a)) == x) by (bit_vector)
        requires
            a < 14,
    ;
}

/// `covers` is a preorder: every mask covers itself, and covering is transitive.
pub proof fn law_covers_preorder(a: Permissions, b: Permissions, c: Permissions)
    ensures
        a.covers(a),
        a.covers(b) && b.covers(c) ==> a.covers(c),
{
}

/// Every mask covers the empty one and the masks it can be granted into; the
/// full mask covers every mask built from a list of permissions.
pub proof fn law_covers_bounds(m: Permissions, p: Permission, perms: Seq<Permission>)
    ensures
        m.covers(Permissions(0)),
        m.spec_grant(p).covers(m),
        m.covers(m.spec_revoke(p)),
        Permissions(16383).covers(Permissions(list_mask(perms))),
{
    assert forall|n: u64| n < 64 implies !#[trigger] bit_set(0, n) by {
        assert(0i64 & (1i64 << n) == 0) by (bit_vector);
    }
    let x = m.0;
    let a = p.spec_index();
    assert forall|n: u64| n < 64 && #[trigger] bit_set(x, n) implies bit_set(m.spec_grant(p).0, n) by {
        assert(x & (1i64 << n) != 0 ==> (x | (1i64 << a)) & (1i64 << n) != 0) by (bit_vector)
            requires
                n < 64,
                a < 14,
        ;
    }
    assert forall|n: u64| n < 64 && #[trigger] bit_set(m.spec_revoke(p).0, n) implies bit_set(x, n) by {
        assert((x & !(1i64 << a)) & (1i64 << n) != 0 ==> x & (1i64 << n) != 0) by (bit_vector)
            requires
                n < 64,
                a < 14,
        ;
    }
    lemma_list_mask_bits(perms);
    assert forall|n: u64| n < 64 && #[trigger] bit_set(list_mask(perms), n) implies bit_set(16383, n) by {
        assert((16383i64 & (1i64 << n) != 0) <==> n < 14) by (bit_vector)
            requires
                n < 64,
        ;
    }
}

/// A mask that covers another holds every permission the other holds.
pub proof fn law_covers_holds(a: Permissions, b: Permissions, p: Permission)
    requires
        a.covers(b),
        b.grants(p),
    ensures
        a.grants(p),
{
    assert(bit_set(b.0, p.spec_index()));
}

// Messages //

/// A `messages` row.
pub struct Message {
    pub seq: i64,
    pub id: u128,
    pub room_id: u128,
    pub author_id: u128,
    pub body: Option<String>,
    pub created_at: i64,
    pub edited_at: Option<i64>,
    /// Set on a tombstone, whose body is cleared
    pub deleted_at: Option<i64>,
}

} // verus!
