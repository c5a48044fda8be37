//! Who may change, join, delete, ban from and invite to a room, and what a
//! grant of permissions may hand out.

use vstd::prelude::*;

use crate::models::{Notify, Permission, Permissions, Visibility};
use crate::text::{blank, is_blank};

verus! {

/// PATCH body for a room.
pub struct RoomPatch {
    pub name: Option<String>,
    pub visibility: Option<Visibility>,
    pub default_permissions: Option<Vec<Permission>>,
}

/// PATCH body for a room membership.
pub struct RoomAccessPatch {
    pub permissions: Option<Vec<Permission>>,
    pub notify: Option<Notify>,
}

/// Why a room request is refused.
#[derive(Debug, Clone, Copy, PartialEq, Eq, Structural)]
pub enum Refusal {
    /// The caller may not do this
    Forbidden,
    /// The target is not there
    NotFound,
    /// A grant of a permission the caller does not hold
    GrantBeyondOwn,
    /// A ban or invite aimed at the caller
    SelfTarget,
    /// A room name longer than the limit
    NameTooLong { max: usize },
}

/// The name a room is stored under: a name of nothing but whitespace is
/// stored as the empty name.
pub open spec fn stored_name(name: Seq<char>) -> Seq<char> {
    if blank(name) {
        Seq::empty()
    } else {
        name
    }
}

/// The name a room is stored under.
pub fn clean_room_name(name: &str) -> (r: &str)
    ensures
        r@ == stored_name(name@),
{
    if is_blank(name) {
        proof {
            reveal_strlit("");
        }
        ""
    } else {
        name
    }
}

/// Checks a room name against the length limit, counted in characters.
pub fn check_room_name(name: &str, max: usize) -> (r: Result<(), Refusal>)
    ensures
        r == (if name@.len() <= max { Ok(()) } else { Err(Refusal::NameTooLong { max }) }),
{
    if name.unicode_len() > max {
        return Err(Refusal::NameTooLong { max });
    }
    Ok(())
}

/// Whether a member may apply a room patch: renaming or changing visibility
/// takes `Rename`, changing the default permissions takes `Grant`.
pub open spec fn patch_allowed(perms: Option<Permissions>, renaming: bool, revealing: bool, granting: bool) -> bool {
    match perms {
        Some(p) => (!(renaming || revealing) || p.grants(Permission::Rename)) && (!granting || p.grants(Permission::Grant)),
        None => false,
    }
}

/// Checks that the caller may apply a room patch.
///
/// # Arguments
///
/// * `perms` - The caller's resolved permissions, `None` when not a member.
/// * `renaming` - Whether the patch sets a name.
/// * `revealing` - Whether the patch sets the visibility.
/// * `granting` - Whether the patch sets the default permissions.
pub fn authorize_room_patch(perms: Option<Permissions>, renaming: bool, revealing: bool, granting: bool) -> (r: Result<(), Refusal>)
    ensures
        r == (if patch_allowed(perms, renaming, revealing, granting) { Ok(()) } else { Err(Refusal::Forbidden) }),
{
    let perms = match perms {
        Some(p) => p,
        None => return Err(Refusal::Forbidden),
    };
    if (renaming || revealing) && !perms.has(Permission::Rename) {
        return Err(Refusal::Forbidden);
    }
    if granting && !perms.has(Permission::Grant) {
        return Err(Refusal::Forbidden);
    }
    Ok(())
}

/// Whether a caller may delete a room: holding `DeleteRoom`, or server staff
/// over it.
pub fn may_delete_room(perms: Option<Permissions>, staff: bool) -> (r: bool)
    ensures
        r == ((perms matches Some(p) && p.grants(Permission::DeleteRoom)) || staff),
{
    let permitted = match perms {
        Some(p) => p.has(Permission::DeleteRoom),
        None => false,
    };
    permitted || staff
}

/// Whether a user may join a room: it exists, it is Public or they hold an
/// invite to it, and they hold no ban on it.
pub open spec fn join_allowed(visibility: Option<Visibility>, invited: bool, banned: bool) -> bool {
    &&& visibility is Some
    &&& (visibility == Some(Visibility::Public) || invited)
    &&& !banned
}

/// Whether joining a room with this visibility takes an invite; `None` for a
/// room that does not exist, which is closed.
pub fn requires_invite(visibility: Option<Visibility>) -> (r: Option<bool>)
    ensures
        r == (match visibility {
            Some(v) => Some(v != Visibility::Public),
            None => None,
        }),
{
    match visibility {
        Some(Visibility::Public) => Some(false),
        Some(_) => Some(true),
        None => None,
    }
}

/// Checks that a user may join a room.
///
/// # Arguments
///
/// * `visibility` - The room's visibility, `None` when it does not exist.
/// * `invited` - Whether the user holds an unexpired invite to it.
/// * `banned` - Whether the user holds an unexpired ban on it.
pub fn check_join(visibility: Option<Visibility>, invited: bool, banned: bool) -> (r: Result<(), Refusal>)
    ensures
        r == (if join_allowed(visibility, invited, banned) { Ok(()) } else { Err(Refusal::Forbidden) }),
{
    let needs_invite = match requires_invite(visibility) {
        Some(b) => b,
        None => return Err(Refusal::Forbidden),
    };
    if needs_invite && !invited {
        return Err(Refusal::Forbidden);
    }
    if banned {
        return Err(Refusal::Forbidden);
    }
    Ok(())
}

/// The refusal a grant meets, in the order the checks run: the caller must be
/// a member holding `Grant` and every permission granted; a target other than
/// the caller must be a member not holding `Grant`.
pub open spec fn grant_problem(caller: Option<Permissions>, requested: Permissions, self_target: bool, target: Option<Permissions>) -> Option<Refusal> {
    match caller {
        None => Some(Refusal::Forbidden),
        Some(c) => if !c.grants(Permission::Grant) {
            Some(Refusal::Forbidden)
        } else if !c.covers(requested) {
            Some(Refusal::GrantBeyondOwn)
        } else if self_target {
            None
        } else {
            match target {
                None => Some(Refusal::NotFound),
                Some(t) => if t.grants(Permission::Grant) { Some(Refusal::Forbidden) } else { None },
            }
        },
    }
}

/// Checks that the caller may set a member's permissions to `requested`.
///
/// # Arguments
///
/// * `caller` - The caller's resolved permissions, `None` when not a member.
/// * `requested` - Mask to store.
/// * `self_target` - Whether the caller is setting their own row.
/// * `target` - The target's resolved permissions, `None` when not a member;
///   not read when `self_target`.
pub fn check_grant(caller: Option<Permissions>, requested: Permissions, self_target: bool, target: Option<Permissions>) -> (r: Result<(), Refusal>)
    ensures
        match grant_problem(caller, requested, self_target, target) {
            Some(e) => r == Err::<(), Refusal>(e),
            None => r is Ok,
        },
{
    let perms = match caller {
        Some(p) => p,
        None => return Err(Refusal::Forbidden),
    };
    if !perms.has(Permission::Grant) {
        return Err(Refusal::Forbidden);
    }
    if !perms.contains(requested) {
        return Err(Refusal::GrantBeyondOwn);
    }
    if !self_target {
        let target = match target {
            Some(t) => t,
            None => return Err(Refusal::NotFound),
        };
        if target.has(Permission::Grant) {
            return Err(Refusal::Forbidden);
        }
    }
    Ok(())
}

/// A grant never hands out more than the granter holds, and never reaches a
/// member who can grant in turn.
pub proof fn law_grant_bounded(caller: Option<Permissions>, requested: Permissions, self_target: bool, target: Option<Permissions>, p: Permission)
    requires
        grant_problem(caller, requested, self_target, target) is None,
    ensures
        caller matches Some(c) && c.grants(Permission::Grant),
        requested.grants(p) ==> caller->0.grants(p),
        !self_target ==> (target matches Some(t) && !t.grants(Permission::Grant)),
{
    let c = caller->0;
    if requested.grants(p) {
        crate::models::law_covers_holds(c, requested, p);
    }
}

/// Whether a caller may issue or lift bans in a room: holding `Ban`, or server
/// staff over it.
pub fn may_ban(perms: Option<Permissions>, staff: bool) -> (r: bool)
    ensures
        r == ((perms matches Some(p) && p.grants(Permission::Ban)) || staff),
{
    let permitted = match perms {
        Some(p) => p.has(Permission::Ban),
        None => false,
    };
    permitted || staff
}

/// Checks that the caller may ban the target: the caller may issue bans, is
/// not banning themselves, and the target does not hold `Ban`.
///
/// # Arguments
///
/// * `perms` - The caller's resolved permissions, `None` when not a member.
/// * `staff` - Whether the caller is server staff over the room.
/// * `caller_id` - Who is banning.
/// * `target_id` - Who is banned.
/// * `target` - The target's resolved permissions, `None` when not a member.
pub fn check_ban(perms: Option<Permissions>, staff: bool, caller_id: u128, target_id: u128, target: Option<Permissions>) -> (r: Result<(), Refusal>)
    ensures
        r == (if !((perms matches Some(p) && p.grants(Permission::Ban)) || staff) {
            Err(Refusal::Forbidden)
        } else if caller_id == target_id {
            Err(Refusal::SelfTarget)
        } else if target matches Some(t) && t.grants(Permission::Ban) {
            Err(Refusal::Forbidden)
        } else {
            Ok(())
        }),
{
    if !may_ban(perms, staff) {
        return Err(Refusal::Forbidden);
    }
    if caller_id == target_id {
        return Err(Refusal::SelfTarget);
    }
    let protected = match target {
        Some(t) => t.has(Permission::Ban),
        None => false,
    };
    if protected {
        return Err(Refusal::Forbidden);
    }
    Ok(())
}

/// Whether a caller may list or withdraw a room's invites: a member holding `Invite`.
pub fn may_manage_invites(perms: Option<Permissions>) -> (r: bool)
    ensures
        r == (perms matches Some(p) && p.grants(Permission::Invite)),
{
    match perms {
        Some(p) => p.has(Permission::Invite),
        None => false,
    }
}

/// Checks whether the caller may invite the target.
///
/// # Arguments
///
/// * `perms` - Caller's resolved permissions, `None` when they are not a member.
/// * `caller_id` - Who is issuing the invite.
/// * `target_id` - Who is being invited.
pub fn can_invite(perms: Option<Permissions>, caller_id: u128, target_id: u128) -> (r: Result<(), Refusal>)
    ensures
        r == (match perms {
            None => Err(Refusal::Forbidden),
            Some(p) => if caller_id == target_id {
                Err(Refusal::SelfTarget)
            } else if !p.grants(Permission::Invite) {
                Err(Refusal::Forbidden)
            } else {
                Ok(())
            },
        }),
{
    let perms = match perms {
        Some(p) => p,
        None => return Err(Refusal::Forbidden),
    };
    if caller_id == target_id {
        return Err(Refusal::SelfTarget);
    }
    if !perms.has(Permission::Invite) {
        return Err(Refusal::Forbidden);
    }
    Ok(())
}

/// What a room patch demands: renaming or changing visibility takes
/// `Rename`, changing the default permissions takes `Grant`, and each is
/// enough for its own part whatever else the member holds. A non-member may
/// patch nothing.
pub proof fn law_patch_needs_only_its_permission(p: Permissions, renaming: bool, revealing: bool, granting: bool)
    ensures
        p.grants(Permission::Grant) ==> patch_allowed(Some(p), false, false, true),
        p.grants(Permission::Rename) ==> patch_allowed(Some(p), true, true, false),
        p.grants(Permission::Rename) && p.grants(Permission::Grant) ==> patch_allowed(Some(p), renaming, revealing, granting),
        granting && !p.grants(Permission::Grant) ==> !patch_allowed(Some(p), renaming, revealing, granting),
        (renaming || revealing) && !p.grants(Permission::Rename) ==> !patch_allowed(Some(p), renaming, revealing, granting),
        !patch_allowed(None, renaming, revealing, granting),
{
}

} // verus!
