//! The images workspaces may run, and the contract version they follow.
use vstd::prelude::*;

use super::StorageError;
use crate::text::{chars_of, is_whitespace, trim, utf8_len};

verus! {

/// The workspace image contract this control plane speaks.
pub const IMAGE_CONTRACT_VERSION: u16 = 1;

/// The longest image reference, in bytes.
pub const MAX_IMAGE_BYTES: usize = 512;

/// An image that workspaces may or may not use.
#[derive(Debug, Clone, PartialEq, Eq)]
pub struct ImagePolicy {
    pub image: String,
    pub contract_version: u16,
    pub enabled: bool,
    pub created_at: i64,
    pub updated_at: i64,
}

/// An image reference, once surrounding white space is removed, is 1 to
/// 512 bytes without white space inside.
pub open spec fn image_ok(image: Seq<char>) -> bool {
    let t = trim(image);
    &&& t.len() > 0
    &&& utf8_len(t) <= MAX_IMAGE_BYTES
    &&& forall|i: int| 0 <= i < t.len() ==> !is_whitespace(#[trigger] t[i])
}

/// Refuses a malformed image reference.
pub fn validate_image(image: &str) -> (result: Result<(), StorageError>)
    ensures
        result is Ok <==> image_ok(image@),
        result matches Err(error) ==> error == StorageError::InvalidTemplate,
{
    let chars = chars_of(image);
    let t = crate::text::trimmed(chars.as_slice());
    if t.len() == 0 || crate::text::utf8_len_at_least(t.as_slice(), MAX_IMAGE_BYTES + 1) {
        return Err(StorageError::InvalidTemplate);
    }
    let mut i: usize = 0;
    while i < t.len()
        invariant
            t@ == trim(image@),
            i <= t@.len(),
            forall|k: int| 0 <= k < i ==> !is_whitespace(#[trigger] t@[k]),
        decreases t.len() - i,
    {
        if crate::text::char_is_whitespace(t[i]) {
            return Err(StorageError::InvalidTemplate);
        }
        i = i + 1;
    }
    Ok(())
}

/// The policy stored by an upsert: the trimmed image under the current
/// contract version.
pub fn upserted_policy(image: &str, enabled: bool, now: i64) -> (policy: Result<
    ImagePolicy,
    StorageError,
>)
    ensures
        match policy {
            Ok(p) => image_ok(image@) && p.image@ == trim(image@) && p.contract_version
                == IMAGE_CONTRACT_VERSION && p.enabled == enabled && p.created_at == now
                && p.updated_at == now,
            Err(error) => !image_ok(image@) && error == StorageError::InvalidTemplate,
        },
{
    validate_image(image)?;
    let chars = chars_of(image);
    let t = crate::text::trimmed(chars.as_slice());
    Ok(
        ImagePolicy {
            image: crate::text::string_from_chars(t.as_slice()),
            contract_version: IMAGE_CONTRACT_VERSION,
            enabled,
            created_at: now,
            updated_at: now,
        },
    )
}

/// A workspace is admitted only when exactly one enabled policy of the
/// current contract names its image.
pub fn ensure_image_admitted(matching_policies: i64) -> (result: Result<(), StorageError>)
    ensures
        matching_policies == 1 ==> result is Ok,
        matching_policies != 1 ==> result == Err::<(), StorageError>(StorageError::ImageNotAllowed),
{
    if matching_policies != 1 {
        return Err(StorageError::ImageNotAllowed);
    }
    Ok(())
}

/// A stored contract version read back; values outside `u16` mean the row
/// is damaged.
pub fn decode_contract_version(stored: i64) -> (version: Result<u16, StorageError>)
    ensures
        0 <= stored <= u16::MAX ==> version == Ok::<u16, StorageError>(stored as u16),
        !(0 <= stored <= u16::MAX) ==> version == Err::<u16, StorageError>(
            StorageError::InvalidTemplate,
        ),
{
    if stored < 0 || stored > 65535 {
        return Err(StorageError::InvalidTemplate);
    }
    Ok(stored as u16)
}

} // verus!
