//! Encrypted injections (files and variables placed into workspaces): the
//! rules around writing, deleting and decoding them.
use vstd::prelude::*;

use super::migration::{holds_text, sorted_unique, strictly_sorted};
use super::StorageError;
use crate::encoding::{base64_decode, base64_standard};
use crate::ids::{decimal, decimal_text, uuid_hyphenated, uuid_text};

verus! {

/// The length of an envelope nonce, in bytes.
pub const NONCE_BYTES: usize = 12;

/// The keys a batch deletion works through: each distinct key once, in
/// sorted order, so a batch repeating a key deletes it once.
pub fn sorted_unique_keys(keys: &[String]) -> (unique: Vec<String>)
    ensures
        strictly_sorted(unique@),
        forall|t: Seq<char>| holds_text(unique@, t) <==> holds_text(keys@, t),
{
    let mut copied: Vec<String> = Vec::new();
    let mut i: usize = 0;
    while i < keys.len()
        invariant
            i <= keys@.len(),
            copied@ == keys@.take(i as int),
        decreases keys.len() - i,
    {
        copied.push(keys[i].clone());
        assert(keys@.take(i + 1) =~= keys@.take(i as int).push(keys@[i as int]));
        i = i + 1;
    }
    assert(keys@.take(keys@.len() as int) =~= keys@);
    sorted_unique(copied)
}

/// A locked injection is deleted only by someone allowed to override the
/// lock.
pub fn ensure_unlocked(locked: bool, allow_locked: bool) -> (result: Result<(), StorageError>)
    ensures
        (locked && !allow_locked) ==> result == Err::<(), StorageError>(
            StorageError::InvalidInjectionLock,
        ),
        !(locked && !allow_locked) ==> result is Ok,
{
    if locked && !allow_locked {
        return Err(StorageError::InvalidInjectionLock);
    }
    Ok(())
}

/// What the store holds under a key when it is about to be deleted.
#[derive(Debug, Clone, Copy, PartialEq, Eq)]
pub struct StoredInjectionState {
    pub locked: bool,
    pub version: i64,
}

/// Deleting one key: a missing key is a successful no-op (`false`), a
/// locked one is refused unless the lock may be overridden, anything else
/// is deleted (`true`) and audited.
pub fn deletion_outcome(stored: Option<StoredInjectionState>, allow_locked: bool) -> (result: Result<
    bool,
    StorageError,
>)
    ensures
        match stored {
            None => result == Ok::<bool, StorageError>(false),
            Some(s) => if s.locked && !allow_locked {
                result == Err::<bool, StorageError>(StorageError::InvalidInjectionLock)
            } else {
                result == Ok::<bool, StorageError>(true)
            },
        },
{
    match stored {
        None => Ok(false),
        Some(s) => {
            ensure_unlocked(s.locked, allow_locked)?;
            Ok(true)
        },
    }
}

/// The keys of a batch that existed, counted once each.
pub open spec fn deleted_count(outcomes: Seq<bool>) -> nat
    decreases outcomes.len(),
{
    if outcomes.len() == 0 {
        0
    } else {
        deleted_count(outcomes.drop_last()) + if outcomes.last() {
            1nat
        } else {
            0nat
        }
    }
}

/// How many keys of a batch were deleted, given whether each one was.
pub fn count_deleted(outcomes: &[bool]) -> (count: usize)
    ensures
        count == deleted_count(outcomes@),
{
    let mut count: usize = 0;
    let mut i: usize = 0;
    while i < outcomes.len()
        invariant
            i <= outcomes@.len(),
            count == deleted_count(outcomes@.take(i as int)),
            count <= i,
        decreases outcomes.len() - i,
    {
        assert(outcomes@.take(i + 1).drop_last() =~= outcomes@.take(i as int));
        if outcomes[i] {
            count = count + 1;
        }
        i = i + 1;
    }
    assert(outcomes@.take(outcomes@.len() as int) =~= outcomes@);
    count
}

/// Workspaces are reconciled after a batch only when something was
/// deleted; a batch of missing keys changes nothing to reconcile.
pub fn should_enqueue_reconciles(deleted: usize) -> (enqueue: bool)
    ensures
        enqueue == (deleted > 0),
{
    deleted > 0
}

/// Only organization injections can be locked.
pub fn ensure_lock_allowed(locked: bool, scope_is_organization: bool) -> (result: Result<
    (),
    StorageError,
>)
    ensures
        (locked && !scope_is_organization) ==> result == Err::<(), StorageError>(
            StorageError::InvalidInjectionLock,
        ),
        !(locked && !scope_is_organization) ==> result is Ok,
{
    if locked && !scope_is_organization {
        return Err(StorageError::InvalidInjectionLock);
    }
    Ok(())
}

/// The version a replaced injection gets: one more than the stored one, or
/// 1 for a new key; a negative stored version means the row is damaged.
pub fn next_version(current: Option<i64>) -> (version: Result<u64, StorageError>)
    ensures
        match current {
            None => version == Ok::<u64, StorageError>(1),
            Some(c) => if c < 0 {
                version == Err::<u64, StorageError>(StorageError::InvalidEncryptedInjection)
            } else {
                version == Ok::<u64, StorageError>((c + 1) as u64)
            },
        },
{
    match current {
        None => Ok(1),
        Some(c) => {
            if c < 0 {
                return Err(StorageError::InvalidEncryptedInjection);
            }
            let c = c as u64;
            match c.checked_add(1) {
                Some(next) => Ok(next),
                None => Err(StorageError::InvalidEncryptedInjection),
            }
        },
    }
}

/// Replacing an injection always moves its version forward.
pub proof fn lemma_versions_increase(current: i64)
    requires
        current >= 0,
    ensures
        (current + 1) as u64 > current,
{
}

/// A stored version read back; negative values mean the row is damaged.
pub fn as_u64(value: i64) -> (converted: Result<u64, StorageError>)
    ensures
        value >= 0 ==> converted == Ok::<u64, StorageError>(value as u64),
        value < 0 ==> converted == Err::<u64, StorageError>(StorageError::InvalidEncryptedInjection),
{
    if value < 0 {
        return Err(StorageError::InvalidEncryptedInjection);
    }
    Ok(value as u64)
}

/// A stored file mode read back; values outside `u32` mean the row is
/// damaged.
pub fn as_u32(value: i64) -> (converted: Result<u32, StorageError>)
    ensures
        0 <= value <= u32::MAX ==> converted == Ok::<u32, StorageError>(value as u32),
        !(0 <= value <= u32::MAX) ==> converted == Err::<u32, StorageError>(
            StorageError::InvalidEncryptedInjection,
        ),
{
    if value < 0 || value > 4294967295i64 {
        return Err(StorageError::InvalidEncryptedInjection);
    }
    Ok(value as u32)
}

/// Decodes a base64 field of an envelope.
pub fn decode_b64(value: &str) -> (bytes: Result<Vec<u8>, StorageError>)
    ensures
        match bytes {
            Ok(b) => base64_standard(b@) == value@ && forall|c: Seq<u8>|
                base64_standard(c) == value@ ==> c == b@,
            Err(error) => error == StorageError::InvalidEncryptedInjection && forall|b: Seq<u8>|
                base64_standard(b) != value@,
        },
{
    match base64_decode(value) {
        Some(bytes) => {
            proof {
                assert forall|c: Seq<u8>| base64_standard(c) == value@ implies c == bytes@ by {
                    crate::encoding::lemma_base64_standard_injective(c, bytes@);
                }
            }
            Ok(bytes)
        },
        None => Err(StorageError::InvalidEncryptedInjection),
    }
}

/// Decodes the nonce of an envelope, which must be exactly 12 bytes.
pub fn decode_nonce(value: &str) -> (nonce: Result<[u8; 12], StorageError>)
    ensures
        match nonce {
            Ok(n) => base64_standard(n@) == value@,
            Err(error) => error == StorageError::InvalidEncryptedInjection && forall|b: Seq<u8>|
                base64_standard(b) == value@ ==> b.len() != NONCE_BYTES,
        },
{
    let bytes = decode_b64(value)?;
    if bytes.len() != NONCE_BYTES {
        return Err(StorageError::InvalidEncryptedInjection);
    }
    let mut nonce: [u8; 12] = [0u8; 12];
    let mut i: usize = 0;
    while i < NONCE_BYTES
        invariant
            bytes@.len() == NONCE_BYTES,
            i <= NONCE_BYTES,
            forall|k: int| 0 <= k < i ==> nonce@[k] == bytes@[k],
        decreases NONCE_BYTES - i,
    {
        nonce.set(i, bytes[i]);
        i = i + 1;
    }
    assert(nonce@ =~= bytes@);
    Ok(nonce)
}

/// The associated data that binds an encrypted injection to the
/// installation, its scope, its key and its version.
pub open spec fn injection_aad_of(
    installation: Seq<char>,
    scope: Seq<char>,
    scope_id: u128,
    key: Seq<char>,
    version: u64,
) -> Seq<char> {
    "mwc:v1:"@ + installation + ":"@ + scope + ":"@ + uuid_hyphenated(scope_id) + ":"@ + key + ":"@
        + decimal(version as nat)
}

/// The associated data of an encrypted injection, given the stored name of
/// its scope; its UTF-8 bytes are authenticated with the ciphertext, so a
/// value moved to another key, scope or version no longer decrypts.
pub fn injection_aad(installation: &str, scope: &str, scope_id: u128, key: &str, version: u64) -> (aad:
    String)
    ensures
        aad@ == injection_aad_of(installation@, scope@, scope_id, key@, version),
{
    let mut aad = "mwc:v1:".to_owned();
    aad.append(installation);
    aad.append(":");
    aad.append(scope);
    aad.append(":");
    let id = uuid_text(scope_id);
    aad.append(id.as_str());
    aad.append(":");
    aad.append(key);
    aad.append(":");
    let v = decimal_text(version);
    aad.append(v.as_str());
    aad
}

} // verus!
