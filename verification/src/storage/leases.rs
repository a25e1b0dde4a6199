//! Time-bounded leases on workspaces and on background jobs.
use vstd::prelude::*;

use super::StorageError;

verus! {

/// A job to run later. Identifiers are carried as their 128-bit values and
/// the payload as JSON text.
#[derive(Debug, Clone, PartialEq, Eq)]
pub struct NewJob {
    pub kind: String,
    pub workspace_id: Option<u128>,
    pub payload_json: String,
    pub available_at: i64,
}

/// A job handed to a worker under a lease.
#[derive(Debug, Clone, PartialEq, Eq)]
pub struct ClaimedJob {
    pub id: u128,
    pub kind: String,
    pub workspace_id: Option<u128>,
    pub payload_json: String,
    pub attempts: i64,
    pub lease_expires_at: i64,
}

/// When a lease taken at `now` for `duration_secs` seconds runs out, if
/// the owner is named and the time is representable.
pub open spec fn lease_expiry_of(owner: Seq<char>, now: i64, duration_secs: u64) -> Result<
    i64,
    StorageError,
> {
    if owner.len() == 0 {
        Err(StorageError::EmptyLeaseOwner)
    } else if duration_secs > i64::MAX || now + duration_secs > i64::MAX {
        Err(StorageError::LeaseDurationOverflow)
    } else {
        Ok((now + duration_secs) as i64)
    }
}

/// The expiry of a lease about to be taken or renewed; an empty owner can
/// never be told apart from another and is refused.
pub fn lease_expiry(owner: &str, now: i64, duration_secs: u64) -> (expires_at: Result<
    i64,
    StorageError,
>)
    ensures
        expires_at == lease_expiry_of(owner@, now, duration_secs),
{
    let chars = crate::text::chars_of(owner);
    if chars.len() == 0 {
        return Err(StorageError::EmptyLeaseOwner);
    }
    renewal_expiry(now, duration_secs)
}

/// The expiry of a renewed job lease: `now` plus the duration, when that
/// is representable.
pub fn renewal_expiry(now: i64, duration_secs: u64) -> (expires_at: Result<i64, StorageError>)
    ensures
        (duration_secs <= i64::MAX && now + duration_secs <= i64::MAX) ==> expires_at == Ok::<
            i64,
            StorageError,
        >((now + duration_secs) as i64),
        !(duration_secs <= i64::MAX && now + duration_secs <= i64::MAX) ==> expires_at == Err::<
            i64,
            StorageError,
        >(StorageError::LeaseDurationOverflow),
{
    if duration_secs > 9223372036854775807u64 {
        return Err(StorageError::LeaseDurationOverflow);
    }
    match now.checked_add(duration_secs as i64) {
        Some(e) => Ok(e),
        None => Err(StorageError::LeaseDurationOverflow),
    }
}

/// A lease was acquired when the conditional upsert changed its row: the
/// workspace was free, its lease had expired, or the owner already held it.
pub fn lease_acquired(affected: u64) -> (acquired: bool)
    ensures
        acquired == (affected == 1),
{
    affected == 1
}

/// Completing, renewing or deferring a job needs the caller to still hold
/// its lease; otherwise no row changed.
pub fn ensure_lease_owned(job_id: u128, affected: u64) -> (result: Result<(), StorageError>)
    ensures
        affected == 1 ==> result is Ok,
        affected != 1 ==> result == Err::<(), StorageError>(StorageError::LeaseNotOwned(job_id)),
{
    if affected != 1 {
        return Err(StorageError::LeaseNotOwned(job_id));
    }
    Ok(())
}

/// Who holds a workspace lease and until when.
#[derive(Debug, Clone, PartialEq, Eq)]
pub struct WorkspaceLease {
    pub owner: String,
    pub expires_at: i64,
}

/// Whether `owner` may take the lease at `now`: nobody holds it, it has
/// run out, or `owner` already holds it.
pub open spec fn lease_available(current: Option<WorkspaceLease>, owner: Seq<char>, now: i64) -> bool {
    match current {
        None => true,
        Some(l) => l.expires_at < now || l.owner@ == owner,
    }
}

/// A lease excludes others while it runs: after `holder` took it until
/// `expires_at`, no other owner may take it at any time up to then.
pub proof fn lemma_lease_excludes_others(
    holder: String,
    expires_at: i64,
    other: Seq<char>,
    now: i64,
)
    requires
        other != holder@,
        now <= expires_at,
    ensures
        !lease_available(Some(WorkspaceLease { owner: holder, expires_at }), other, now),
{
}

} // verus!
