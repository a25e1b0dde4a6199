//! Idempotent request handling: the first request with a key reserves it,
//! a completed request is replayed, and a different request under the same
//! key is refused.
use vstd::prelude::*;

use super::StorageError;
use crate::text::{chars_of, utf8_len};

verus! {

/// What a finished request records under its key.
#[derive(Debug, Clone, Copy)]
pub struct IdempotencyCompletion<'a> {
    pub scope: &'a str,
    pub key: &'a str,
    pub request_hash: &'a str,
    pub status_code: u16,
    pub response_json: &'a str,
}

/// What a request under an idempotency key may do.
#[derive(Debug, Clone, PartialEq, Eq)]
pub enum IdempotencyDecision {
    /// The key was free and is now held by this request.
    Reserved,
    /// The same request holds the key and has not finished.
    InProgress,
    /// Another request holds the key.
    Conflict,
    /// The same request finished; its response is given back.
    Replay(IdempotencyReplay),
}

/// A recorded response.
#[derive(Debug, Clone, PartialEq, Eq)]
pub struct IdempotencyReplay {
    pub status_code: u16,
    pub response_json: String,
}

/// The stored row of a key: status 0 while the request runs.
#[derive(Debug, Clone, PartialEq, Eq)]
pub struct IdempotencyRow {
    pub request_hash: String,
    pub status_code: i64,
    pub response_json: String,
}

pub const MAX_IDEMPOTENCY_FIELD_BYTES: usize = 255;

/// Scope and key are each 1 to 255 bytes of UTF-8.
pub open spec fn idempotency_key_ok(scope: Seq<char>, key: Seq<char>) -> bool {
    &&& scope.len() > 0
    &&& key.len() > 0
    &&& utf8_len(scope) <= MAX_IDEMPOTENCY_FIELD_BYTES
    &&& utf8_len(key) <= MAX_IDEMPOTENCY_FIELD_BYTES
}

/// Refuses an empty or over-long scope or key.
pub fn validate(scope: &str, key: &str) -> (result: Result<(), StorageError>)
    ensures
        result is Ok <==> idempotency_key_ok(scope@, key@),
        result matches Err(error) ==> error == StorageError::InvalidIdempotencyKey,
{
    let scope = chars_of(scope);
    let key = chars_of(key);
    if scope.len() == 0 || key.len() == 0 || crate::text::utf8_len_at_least(
        scope.as_slice(),
        MAX_IDEMPOTENCY_FIELD_BYTES + 1,
    ) || crate::text::utf8_len_at_least(key.as_slice(), MAX_IDEMPOTENCY_FIELD_BYTES + 1) {
        return Err(StorageError::InvalidIdempotencyKey);
    }
    Ok(())
}

/// A completion must have updated exactly the one reserved row; otherwise
/// the reservation expired or was taken over.
pub fn ensure_finished(affected: u64) -> (result: Result<(), StorageError>)
    ensures
        affected == 1 ==> result is Ok,
        affected != 1 ==> result == Err::<(), StorageError>(StorageError::IdempotencyReservationLost),
{
    if affected != 1 {
        return Err(StorageError::IdempotencyReservationLost);
    }
    Ok(())
}

/// Whether the conditional insert of a reservation took the key: exactly one
/// row inserted. Otherwise the stored row decides.
pub fn reservation_taken(inserted: u64) -> (taken: bool)
    ensures
        taken == (inserted == 1),
{
    inserted == 1
}

/// The decision for a request that found `row` under its key.
pub open spec fn decision_for(row: IdempotencyRow, request_hash: Seq<char>) -> Result<
    IdempotencyDecision,
    StorageError,
> {
    if row.request_hash@ != request_hash {
        Ok(IdempotencyDecision::Conflict)
    } else if row.status_code == 0 {
        Ok(IdempotencyDecision::InProgress)
    } else if 0 <= row.status_code <= u16::MAX {
        Ok(
            IdempotencyDecision::Replay(
                IdempotencyReplay {
                    status_code: row.status_code as u16,
                    response_json: row.response_json,
                },
            ),
        )
    } else {
        Err(StorageError::IdempotencyReservationLost)
    }
}

/// Decides what a request may do from the row stored under its key.
pub fn read_decision(row: IdempotencyRow, request_hash: &str) -> (decision: Result<
    IdempotencyDecision,
    StorageError,
>)
    ensures
        decision == decision_for(row, request_hash@),
{
    let stored = chars_of(row.request_hash.as_str());
    if !crate::text::chars_eq_str(stored.as_slice(), request_hash) {
        return Ok(IdempotencyDecision::Conflict);
    }
    if row.status_code == 0 {
        return Ok(IdempotencyDecision::InProgress);
    }
    if row.status_code < 0 || row.status_code > 65535 {
        return Err(StorageError::IdempotencyReservationLost);
    }
    let status_code = row.status_code as u16;
    Ok(IdempotencyDecision::Replay(IdempotencyReplay { status_code, response_json: row.response_json }))
}

/// The row a completion leaves: it applies only to a running reservation
/// of the same request.
pub open spec fn completed_row(
    row: IdempotencyRow,
    request_hash: Seq<char>,
    status_code: u16,
    response_json: String,
) -> Option<IdempotencyRow> {
    if row.request_hash@ == request_hash && row.status_code == 0 {
        Some(IdempotencyRow { request_hash: row.request_hash, status_code: status_code as i64, response_json })
    } else {
        None
    }
}

/// While the first run of a request holds the key (status 0), repeating
/// that request is answered "in progress", and any other request under the
/// key is a conflict.
pub proof fn lemma_reserved_key_decisions(row: IdempotencyRow, other: Seq<char>)
    requires
        row.status_code == 0,
    ensures
        decision_for(row, row.request_hash@) == Ok::<IdempotencyDecision, StorageError>(
            IdempotencyDecision::InProgress,
        ),
        other != row.request_hash@ ==> decision_for(row, other) == Ok::<
            IdempotencyDecision,
            StorageError,
        >(IdempotencyDecision::Conflict),
{
}

/// Once a request completes with a non-zero status, the same request is
/// answered with exactly the recorded status and response, and a different
/// request under the key is a conflict.
pub proof fn lemma_completed_request_replays(
    row: IdempotencyRow,
    request_hash: Seq<char>,
    status_code: u16,
    response_json: String,
    other: Seq<char>,
)
    requires
        status_code != 0,
        completed_row(row, request_hash, status_code, response_json) is Some,
    ensures
        decision_for(completed_row(row, request_hash, status_code, response_json)->Some_0, request_hash)
            == Ok::<IdempotencyDecision, StorageError>(
            IdempotencyDecision::Replay(IdempotencyReplay { status_code, response_json }),
        ),
        other != request_hash ==> decision_for(
            completed_row(row, request_hash, status_code, response_json)->Some_0,
            other,
        ) == Ok::<IdempotencyDecision, StorageError>(IdempotencyDecision::Conflict),
{
}

/// A completion by a request that does not hold the reservation changes
/// nothing, so finishing it reports the reservation lost.
pub proof fn lemma_foreign_completion_is_lost(
    row: IdempotencyRow,
    request_hash: Seq<char>,
    status_code: u16,
    response_json: String,
)
    requires
        row.request_hash@ != request_hash || row.status_code != 0,
    ensures
        completed_row(row, request_hash, status_code, response_json) is None,
{
}

} // verus!
