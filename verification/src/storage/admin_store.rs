//! Administration of users, organizations, memberships and quotas: the
//! checks made before and after each statement.
use vstd::prelude::*;

use super::StorageError;
use crate::quota::Resources;
use super::audit_store::{escaped_pattern, like_escaped, to_lowercase, unicode_lowercase};
use crate::text::{chars_of, trim, utf8_len};

verus! {

/// The longest organization name, in bytes of UTF-8.
pub const MAX_ORGANIZATION_NAME_BYTES: usize = 120;

/// The longest user display name, in bytes of UTF-8.
pub const MAX_USER_DISPLAY_NAME_BYTES: usize = 120;

/// The page size when none is asked for, and the bounds of any page size.
pub const DEFAULT_PAGE_LIMIT: u32 = 50;

pub const MAX_PAGE_LIMIT: u32 = 200;

/// The most audit entries one listing returns.
pub const MAX_AUDIT_LIST_LIMIT: u32 = 1000;

/// The stored role of an organization administrator.
pub const ORGANIZATION_ADMIN_ROLE: &'static str = "organization_admin";

/// The page size used for a request: 50 when none is given, else the given
/// size kept within 1 to 200.
pub open spec fn page_limit_of(limit: Option<u32>) -> int {
    let l = match limit {
        Some(l) => l as int,
        None => DEFAULT_PAGE_LIMIT as int,
    };
    if l < 1 {
        1
    } else if l > MAX_PAGE_LIMIT {
        MAX_PAGE_LIMIT as int
    } else {
        l
    }
}

/// The page size used for a request.
pub fn page_limit(limit: Option<u32>) -> (size: i64)
    ensures
        size == page_limit_of(limit),
        1 <= size <= MAX_PAGE_LIMIT,
{
    let l = match limit {
        Some(l) => l,
        None => DEFAULT_PAGE_LIMIT,
    };
    if l < 1 {
        1
    } else if l > MAX_PAGE_LIMIT {
        MAX_PAGE_LIMIT as i64
    } else {
        l as i64
    }
}

/// A page read with one row more than its size: when that extra row came
/// back, it is dropped and there is a next page, which starts after the last
/// row kept.
pub fn take_page<T>(items: Vec<T>, limit: i64) -> (page: (Vec<T>, bool))
    requires
        0 <= limit,
    ensures
        items@.len() > limit ==> page.0@ == items@.drop_last() && page.1,
        items@.len() <= limit ==> page.0@ == items@ && !page.1,
{
    let mut items = items;
    if items.len() as u64 > limit as u64 {
        items.pop();
        (items, true)
    } else {
        (items, false)
    }
}

/// How many audit entries a listing returns: the asked number, kept within
/// 1 to 1000.
pub fn audit_list_limit(limit: u32) -> (size: i64)
    ensures
        size == if limit < 1 {
            1
        } else if limit > MAX_AUDIT_LIST_LIMIT {
            MAX_AUDIT_LIST_LIMIT as int
        } else {
            limit as int
        },
{
    if limit < 1 {
        1
    } else if limit > MAX_AUDIT_LIST_LIMIT {
        MAX_AUDIT_LIST_LIMIT as i64
    } else {
        limit as i64
    }
}

/// The name an organization is renamed to: the given name without
/// surrounding white space, which must be 1 to 120 bytes.
pub fn organization_name(name: &str) -> (normalized: Result<String, StorageError>)
    ensures
        match normalized {
            Ok(n) => n@ == trim(name@) && 0 < trim(name@).len() && utf8_len(trim(name@))
                <= MAX_ORGANIZATION_NAME_BYTES,
            Err(error) => error == StorageError::InvalidWorkspace && (trim(name@).len() == 0
                || utf8_len(trim(name@)) > MAX_ORGANIZATION_NAME_BYTES),
        },
{
    let chars = chars_of(name);
    let trimmed = crate::text::trimmed(chars.as_slice());
    if trimmed.len() == 0 || crate::text::utf8_len_at_least(
        trimmed.as_slice(),
        MAX_ORGANIZATION_NAME_BYTES + 1,
    ) {
        return Err(StorageError::InvalidWorkspace);
    }
    Ok(crate::text::string_from_chars(trimmed.as_slice()))
}

/// A rename that changed no row named an unknown organization.
pub fn ensure_organization_updated(updated: u64) -> (result: Result<(), StorageError>)
    ensures
        updated != 0 ==> result is Ok,
        updated == 0 ==> result == Err::<(), StorageError>(StorageError::OrganizationNotFound),
{
    if updated == 0 {
        return Err(StorageError::OrganizationNotFound);
    }
    Ok(())
}

/// An organization is deleted only while it holds no live workspace and no
/// template (`in_use` counts both), and only if it exists (`deleted` rows
/// went away).
pub open spec fn organization_deletion_outcome(in_use: i64, deleted: Option<u64>) -> Result<
    (),
    StorageError,
> {
    if in_use > 0 {
        Err(StorageError::OrganizationInUse)
    } else {
        match deleted {
            Some(0) => Err(StorageError::OrganizationNotFound),
            _ => Ok(()),
        }
    }
}

/// Before deleting: an organization still in use is kept.
pub fn ensure_organization_empty(in_use: i64) -> (result: Result<(), StorageError>)
    ensures
        in_use <= 0 ==> result is Ok,
        in_use > 0 ==> result == Err::<(), StorageError>(StorageError::OrganizationInUse),
{
    if in_use > 0 {
        return Err(StorageError::OrganizationInUse);
    }
    Ok(())
}

/// After deleting: no row deleted means there was no such organization.
pub fn ensure_organization_deleted(deleted: u64) -> (result: Result<(), StorageError>)
    ensures
        deleted != 0 ==> result is Ok,
        deleted == 0 ==> result == Err::<(), StorageError>(StorageError::OrganizationNotFound),
{
    if deleted == 0 {
        return Err(StorageError::OrganizationNotFound);
    }
    Ok(())
}

/// A new display name, when one is given, must not be blank and must be at
/// most 120 bytes.
pub fn validate_user_display_name(display_name: Option<&str>) -> (result: Result<(), StorageError>)
    ensures
        match display_name {
            Some(name) => (result is Ok <==> (trim(name@).len() > 0 && utf8_len(name@)
                <= MAX_USER_DISPLAY_NAME_BYTES)),
            None => result is Ok,
        },
        result matches Err(error) ==> error == StorageError::InvalidUserProfile,
{
    match display_name {
        None => Ok(()),
        Some(name) => {
            let chars = chars_of(name);
            if crate::text::is_blank(chars.as_slice()) || crate::text::utf8_len_at_least(
                chars.as_slice(),
                MAX_USER_DISPLAY_NAME_BYTES + 1,
            ) {
                Err(StorageError::InvalidUserProfile)
            } else {
                Ok(())
            }
        },
    }
}

/// A membership change takes the organization-admin role away from its
/// holder: the member is currently an administrator and is being removed or
/// given another role.
pub open spec fn demotes_admin(current_role: Option<Seq<char>>, keeps_admin: bool) -> bool {
    current_role == Some(ORGANIZATION_ADMIN_ROLE@) && !keeps_admin
}

/// Whether a membership change must first make sure another active
/// administrator remains; `keeps_admin` is false for removals.
pub fn demotes_organization_admin(current_role: Option<&str>, keeps_admin: bool) -> (demotes: bool)
    ensures
        demotes == demotes_admin(crate::storage::port_mappings::opt_str_view(current_role), keeps_admin),
{
    match current_role {
        Some(role) => {
            let chars = chars_of(role);
            crate::text::chars_eq_str(chars.as_slice(), ORGANIZATION_ADMIN_ROLE) && !keeps_admin
        },
        None => false,
    }
}

/// An administrator is demoted or removed only while another active one
/// remains: `active_admins` counts the active administrators, the changed
/// member included.
pub fn ensure_another_organization_admin(active_admins: i64) -> (result: Result<(), StorageError>)
    ensures
        active_admins > 1 ==> result is Ok,
        active_admins <= 1 ==> result == Err::<(), StorageError>(StorageError::LastOrganizationAdmin),
{
    if active_admins <= 1 {
        return Err(StorageError::LastOrganizationAdmin);
    }
    Ok(())
}

/// The active administrators left after a membership change.
pub open spec fn admins_after(active_admins: int, current_role: Option<Seq<char>>, keeps_admin: bool) -> int {
    if demotes_admin(current_role, keeps_admin) {
        active_admins - 1
    } else {
        active_admins
    }
}

/// A membership change that passes the guard never leaves an organization
/// that had an active administrator without one: either the change does
/// not demote an administrator, or another one remains.
pub proof fn lemma_last_admin_kept(
    active_admins: i64,
    current_role: Option<Seq<char>>,
    keeps_admin: bool,
)
    requires
        active_admins >= 1,
        demotes_admin(current_role, keeps_admin) ==> active_admins > 1,
    ensures
        admins_after(active_admins as int, current_role, keeps_admin) >= 1,
{
}

/// What removing a member answers, given the member's current role (if
/// any) and the number of active administrators of the organization, the
/// member included: removing an administrator while no other active one
/// remains is refused; anything else is done (removing a non-member does
/// nothing).
pub open spec fn removal_outcome(current_role: Option<Seq<char>>, active_admins: int) -> Result<
    (),
    StorageError,
> {
    if demotes_admin(current_role, false) && active_admins <= 1 {
        Err(StorageError::LastOrganizationAdmin)
    } else {
        Ok(())
    }
}

/// Decides a member's removal.
pub fn membership_removal(current_role: Option<&str>, active_admins: i64) -> (result: Result<
    (),
    StorageError,
>)
    ensures
        result == removal_outcome(
            crate::storage::port_mappings::opt_str_view(current_role),
            active_admins as int,
        ),
{
    if demotes_organization_admin(current_role, false) {
        match ensure_another_organization_admin(active_admins) {
            Ok(()) => Ok(()),
            Err(e) => Err(e),
        }
    } else {
        Ok(())
    }
}

/// The members of one organization: by user, the role and whether the
/// user is active (not disabled).
pub open spec fn member_role(members: Map<u128, (Seq<char>, bool)>, user: u128) -> Option<
    Seq<char>,
> {
    if members.contains_key(user) {
        Some(members[user].0)
    } else {
        None
    }
}

/// The active administrators among the members.
pub open spec fn active_admins(members: Map<u128, (Seq<char>, bool)>) -> Set<u128> {
    members.dom().filter(
        |u: u128| members[u].0 == ORGANIZATION_ADMIN_ROLE@ && members[u].1,
    )
}

/// The members after a removal of `user` that answered `outcome`.
pub open spec fn members_after_removal(
    members: Map<u128, (Seq<char>, bool)>,
    user: u128,
    outcome: Result<(), StorageError>,
) -> Map<u128, (Seq<char>, bool)> {
    match outcome {
        Ok(()) => members.remove(user),
        Err(_) => members,
    }
}

/// Removing a member of an organization that has an active administrator:
/// either the membership is gone afterwards (removing a non-member changes
/// nothing), or, when the member is an administrator and no other active
/// one would remain, the removal is refused with `LastOrganizationAdmin`
/// and the members are unchanged. Either way an active administrator
/// remains.
pub proof fn lemma_membership_removal(members: Map<u128, (Seq<char>, bool)>, user: u128)
    requires
        members.dom().finite(),
        active_admins(members).len() >= 1,
    ensures
        ({
            let outcome = removal_outcome(
                member_role(members, user),
                active_admins(members).len() as int,
            );
            let after = members_after_removal(members, user, outcome);
            &&& outcome is Err <==> (member_role(members, user) == Some(ORGANIZATION_ADMIN_ROLE@)
                && active_admins(members).len() <= 1)
            &&& outcome is Err ==> outcome == Err::<(), StorageError>(
                StorageError::LastOrganizationAdmin,
            ) && after == members
            &&& outcome is Ok ==> !after.contains_key(user)
            &&& outcome is Ok && !members.contains_key(user) ==> after == members
            &&& active_admins(after).len() >= 1
        }),
{
    let outcome = removal_outcome(member_role(members, user), active_admins(members).len() as int);
    let after = members_after_removal(members, user, outcome);
    let admins = active_admins(members);
    assert(admins.finite()) by {
        members.dom().lemma_len_filter(|u: u128| members[u].0 == ORGANIZATION_ADMIN_ROLE@ && members[u].1);
    }
    if outcome is Ok {
        assert(active_admins(after) =~= admins.remove(user));
        if !members.contains_key(user) {
            assert(after =~= members);
        }
        if admins.contains(user) {
            assert(admins.len() > 1);
        }
    }
}

/// A stored resource amount read back; negative or oversized values mean
/// the row is damaged.
pub fn decode_resources(cpu_millis: i64, memory_mib: i64, gpu_count: i64, disk_gib: i64) -> (resources:
    Result<Resources, StorageError>)
    ensures
        match resources {
            Ok(r) => r.cpu_millis == cpu_millis && r.memory_mib == memory_mib && r.gpu_count
                == gpu_count && r.disk_gib == disk_gib,
            Err(error) => error == StorageError::InvalidWorkspace && (cpu_millis < 0 || memory_mib
                < 0 || gpu_count < 0 || gpu_count > u32::MAX || disk_gib < 0),
        },
        (cpu_millis >= 0 && memory_mib >= 0 && 0 <= gpu_count <= u32::MAX && disk_gib >= 0)
            ==> resources is Ok,
{
    if cpu_millis < 0 || memory_mib < 0 || gpu_count < 0 || gpu_count > 4294967295i64 || disk_gib
        < 0 {
        return Err(StorageError::InvalidWorkspace);
    }
    Ok(
        Resources {
            cpu_millis: cpu_millis as u64,
            memory_mib: memory_mib as u64,
            gpu_count: gpu_count as u32,
            disk_gib: disk_gib as u64,
        },
    )
}

/// A quota amount as the database stores it; larger values are refused.
pub fn quota_amount(value: u64) -> (stored: Result<i64, StorageError>)
    ensures
        value <= i64::MAX ==> stored == Ok::<i64, StorageError>(value as i64),
        value > i64::MAX ==> stored == Err::<i64, StorageError>(StorageError::InvalidWorkspace),
{
    if value > 9223372036854775807u64 {
        return Err(StorageError::InvalidWorkspace);
    }
    Ok(value as i64)
}

/// What a user listing searches for: the search text without surrounding
/// white space, in lower case, and the `LIKE` pattern of names that
/// contain it. An absent search is empty and matches every name.
#[derive(Debug, Clone, PartialEq, Eq)]
pub struct UserSearch {
    pub text: String,
    pub pattern: String,
}

pub open spec fn search_text_of(search: Option<&str>) -> Seq<char> {
    match search {
        Some(s) => unicode_lowercase(trim(s@)),
        None => unicode_lowercase(Seq::empty()),
    }
}

/// The search of a user listing.
pub fn user_search(search: Option<&str>) -> (terms: UserSearch)
    ensures
        terms.text@ == search_text_of(search),
        terms.pattern@ == seq!['%'] + like_escaped(terms.text@) + seq!['%'],
{
    let given = match search {
        Some(s) => s,
        None => "",
    };
    proof {
        if search is None {
            reveal_strlit("");
            assert(trim(given@) =~= Seq::<char>::empty());
        }
    }
    let chars = chars_of(given);
    let kept = crate::text::trimmed(chars.as_slice());
    let kept = crate::text::string_from_chars(kept.as_slice());
    let text = to_lowercase(kept.as_str());
    let lowered = chars_of(text.as_str());
    let pattern = escaped_pattern(lowered.as_slice());
    UserSearch { text, pattern }
}

} // verus!
