//! Server-wide roles: who may change whose, close whose account, and hand the
//! server on; the page size of user listings; the names a closed account takes.

use vstd::prelude::*;

use crate::ids::{simple_text, simple_uuid_text};
use crate::models::GlobalRole;
use crate::rooms::Refusal;

verus! {

/// Whether a role is in a list of roles.
pub fn role_allowed(role: GlobalRole, allowed: &[GlobalRole]) -> (r: bool)
    ensures
        r == allowed@.contains(role),
{
    let mut i: usize = 0;
    while i < allowed.len()
        invariant
            i <= allowed.len(),
            forall|j: int| 0 <= j < i ==> allowed@[j] != role,
        decreases allowed.len() - i,
    {
        if allowed[i] == role {
            return true;
        }
        i = i + 1;
    }
    false
}

/// Rejects a user whose global role is outside the allowed set.
pub fn require_role(role: GlobalRole, allowed: &[GlobalRole]) -> (r: Result<(), Refusal>)
    ensures
        r == (if allowed@.contains(role) { Ok(()) } else { Err(Refusal::Forbidden) }),
{
    if !role_allowed(role, allowed) {
        return Err(Refusal::Forbidden);
    }
    Ok(())
}

/// Whether a role is server staff: the Owner or an Admin.
pub open spec fn is_staff(role: GlobalRole) -> bool {
    role == GlobalRole::Owner || role == GlobalRole::Admin
}

/// Whether a role may create rooms and upload files: anyone but a Visitor.
pub fn may_create(role: GlobalRole) -> (r: bool)
    ensures
        r == (role != GlobalRole::Visitor),
{
    match role {
        GlobalRole::Visitor => false,
        _ => true,
    }
}

/// Whether a role may issue registration codes: server staff.
pub fn may_issue_codes(role: GlobalRole) -> (r: bool)
    ensures
        r == is_staff(role),
{
    match role {
        GlobalRole::Owner | GlobalRole::Admin => true,
        _ => false,
    }
}

/// Whether a role change is allowed: never to Owner, only by staff, never on
/// the Owner, and never by one Admin on another.
pub open spec fn role_change_allowed(caller: GlobalRole, target: GlobalRole, role: GlobalRole) -> bool {
    &&& role != GlobalRole::Owner
    &&& is_staff(caller)
    &&& target != GlobalRole::Owner
    &&& !(caller == GlobalRole::Admin && target == GlobalRole::Admin)
}

/// Checks that a user of role `caller` may give a user of role `target` the role `role`.
pub fn check_set_role(caller: GlobalRole, target: GlobalRole, role: GlobalRole) -> (r: Result<(), Refusal>)
    ensures
        r == (if role_change_allowed(caller, target, role) { Ok(()) } else { Err(Refusal::Forbidden) }),
{
    if role == GlobalRole::Owner {
        return Err(Refusal::Forbidden);
    }
    if !may_issue_codes(caller) {
        return Err(Refusal::Forbidden);
    }
    if target == GlobalRole::Owner {
        return Err(Refusal::Forbidden);
    }
    if caller == GlobalRole::Admin && target == GlobalRole::Admin {
        return Err(Refusal::Forbidden);
    }
    Ok(())
}

/// Whether someone's account may be closed by another: only by staff, never
/// the Owner's, and never by one Admin on another.
pub open spec fn close_allowed(caller: GlobalRole, target: GlobalRole) -> bool {
    &&& is_staff(caller)
    &&& !(caller == GlobalRole::Admin && target == GlobalRole::Admin)
    &&& target != GlobalRole::Owner
}

/// Checks that a user of role `caller` may close the account of a user of role `target`.
pub fn check_close_other(caller: GlobalRole, target: GlobalRole) -> (r: Result<(), Refusal>)
    ensures
        r == (if close_allowed(caller, target) { Ok(()) } else { Err(Refusal::Forbidden) }),
{
    if !may_issue_codes(caller) {
        return Err(Refusal::Forbidden);
    }
    if caller == GlobalRole::Admin && target == GlobalRole::Admin {
        return Err(Refusal::Forbidden);
    }
    check_close_own(target)
}

/// Checks that an account may be closed: the Owner's may not, since the server
/// needs a live Owner; it is handed over first.
pub fn check_close_own(role: GlobalRole) -> (r: Result<(), Refusal>)
    ensures
        r == (if role != GlobalRole::Owner { Ok(()) } else { Err(Refusal::Forbidden) }),
{
    if role == GlobalRole::Owner {
        return Err(Refusal::Forbidden);
    }
    Ok(())
}

/// Checks that a user of role `caller` may hand the server on, keeping `demote_to`.
pub fn check_transfer(caller: GlobalRole, demote_to: GlobalRole) -> (r: Result<(), Refusal>)
    ensures
        r == (if demote_to != GlobalRole::Owner && caller == GlobalRole::Owner { Ok(()) } else { Err(Refusal::Forbidden) }),
{
    if demote_to == GlobalRole::Owner {
        return Err(Refusal::Forbidden);
    }
    if caller != GlobalRole::Owner {
        return Err(Refusal::Forbidden);
    }
    Ok(())
}

/// The accounts holding Owner in an assignment of roles.
pub open spec fn owners(roles: Map<u128, GlobalRole>) -> Set<u128> {
    Set::new(|u: u128| roles.contains_key(u) && roles[u] == GlobalRole::Owner)
}

/// A role change the checks allow leaves the Owner as it was: it never makes a
/// second Owner, and never takes the role from the one there is.
pub proof fn law_role_change_keeps_owner(roles: Map<u128, GlobalRole>, caller: u128, target: u128, role: GlobalRole)
    requires
        roles.contains_key(caller),
        roles.contains_key(target),
        role_change_allowed(roles[caller], roles[target], role),
    ensures
        owners(roles.insert(target, role)) == owners(roles),
{
    assert(owners(roles.insert(target, role)) =~= owners(roles));
}

/// Handing the server on, when the checks allow it, moves the one Owner role
/// from the caller to the target: afterwards the target is the only Owner.
pub proof fn law_transfer_moves_owner(roles: Map<u128, GlobalRole>, caller: u128, target: u128, demote_to: GlobalRole)
    requires
        owners(roles) == set![caller],
        roles.contains_key(target),
        roles[caller] == GlobalRole::Owner,
        demote_to != GlobalRole::Owner,
    ensures
        owners(roles.insert(caller, demote_to).insert(target, GlobalRole::Owner)) == set![target],
{
    let after = roles.insert(caller, demote_to).insert(target, GlobalRole::Owner);
    assert forall|u: u128| owners(after).contains(u) <==> u == target by {
        if u != target && u != caller {
            assert(owners(roles).contains(u) <==> u == caller);
        }
    }
    assert(owners(after) =~= set![target]);
}

/// How many users a listing returns: the requested number held to `1..=max`,
/// or `max` when none is requested.
pub fn page_limit(requested: Option<i64>, max: i64) -> (r: i64)
    requires
        max >= 1,
    ensures
        r == (match requested {
            None => max,
            Some(n) => if n < 1 { 1 } else if n > max { max } else { n },
        }),
        1 <= r <= max,
{
    let n = match requested {
        Some(n) => n,
        None => max,
    };
    if n < 1 {
        1
    } else if n > max {
        max
    } else {
        n
    }
}

/// Whether a profile patch asks for any change at all.
pub fn profile_patch_changes(display_name: bool, description: bool, avatar: bool, banner: bool) -> (r: bool)
    ensures
        r == (display_name || description || avatar || banner),
{
    display_name || description || avatar || banner
}

/// The names a closed account takes when anonymized: its id's 32 hex digits
/// as the username, and `Deleted User ` with the first six as the display name.
pub fn anonymized_names(user_id: u128) -> (r: (String, String))
    ensures
        r.0@ == simple_text(user_id),
        r.1@ == "Deleted User "@ + simple_text(user_id).take(6),
{
    let hex = simple_uuid_text(user_id);
    let mut display = String::from_str("Deleted User ");
    display.append(hex.as_str().substring_char(0, 6));
    (hex, display)
}

/// Who may set roles: the Owner and Admins may set any role but Owner on a
/// Member or a Visitor, and the Owner may also set one on an Admin. Nobody
/// else may, nobody may make an Owner, and nobody may change the Owner's role.
pub proof fn law_staff_set_roles(caller: GlobalRole, target: GlobalRole, role: GlobalRole)
    ensures
        (caller == GlobalRole::Owner || caller == GlobalRole::Admin)
            && (target == GlobalRole::Member || target == GlobalRole::Visitor)
            && role != GlobalRole::Owner ==> role_change_allowed(caller, target, role),
        caller == GlobalRole::Owner && target == GlobalRole::Admin && role != GlobalRole::Owner
            ==> role_change_allowed(caller, target, role),
        (caller == GlobalRole::Member || caller == GlobalRole::Visitor) ==> !role_change_allowed(caller, target, role),
        role == GlobalRole::Owner || target == GlobalRole::Owner ==> !role_change_allowed(caller, target, role),
        caller == GlobalRole::Admin && target == GlobalRole::Admin ==> !role_change_allowed(caller, target, role),
{
}

} // verus!
