//! API-key authentication: which tokens are looked up, how keys are
//! stored, and the template allowlist a key may carry.
use vstd::prelude::*;

use vstd::utf8::encode_utf8;

use super::StorageError;
use crate::digest::sha256_hex;
use crate::text::{chars_of, utf8_len};

verus! {

/// The shortest token that is ever looked up or issued, in bytes.
pub const MIN_TOKEN_BYTES: usize = 32;

/// The templates an API key may create workspaces from: `None` leaves this
/// to the user's permissions, `Some` restricts the key to the listed ones.
#[derive(Debug, Clone, PartialEq, Eq)]
pub struct TemplateAccess {
    pub allowed_template_ids: Option<Vec<u128>>,
}

/// The key may use the template: it is unrestricted or lists the template.
pub open spec fn may_use(access: TemplateAccess, template_id: u128) -> bool {
    match access.allowed_template_ids {
        None => true,
        Some(ids) => ids@.contains(template_id),
    }
}

impl TemplateAccess {
    /// Whether the key carries a template allowlist at all.
    pub fn has_template_restriction(&self) -> (restricted: bool)
        ensures
            restricted == self.allowed_template_ids is Some,
    {
        self.allowed_template_ids.is_some()
    }

    /// Whether the key may create workspaces from the template.
    pub fn may_use_template(&self, template_id: u128) -> (allowed: bool)
        ensures
            allowed == may_use(*self, template_id),
    {
        match &self.allowed_template_ids {
            None => true,
            Some(ids) => {
                let mut i: usize = 0;
                while i < ids.len()
                    invariant
                        self.allowed_template_ids matches Some(v) && v@ == ids@,
                        i <= ids@.len(),
                        forall|k: int| 0 <= k < i ==> ids@[k] != template_id,
                    decreases ids.len() - i,
                {
                    if ids[i] == template_id {
                        assert(ids@[i as int] == template_id);
                        return true;
                    }
                    i = i + 1;
                }
                false
            },
        }
    }

    /// Whether the key may reach a workspace made from `template_id` (which
    /// is unknown for workspaces whose template is gone): an unrestricted
    /// key always may, a restricted one only for an allowed template.
    pub fn may_access_workspace_template(&self, template_id: Option<u128>) -> (allowed: bool)
        ensures
            allowed == ((template_id matches Some(id) && may_use(*self, id))
                || self.allowed_template_ids is None),
    {
        let by_template = match template_id {
            Some(id) => self.may_use_template(id),
            None => false,
        };
        by_template || !self.has_template_restriction()
    }
}

/// An unrestricted key may use every template; an empty allowlist allows
/// none; a listed template is allowed and an unlisted one is not.
pub proof fn lemma_template_allowlist(access: TemplateAccess, template_id: u128)
    ensures
        access.allowed_template_ids is None ==> may_use(access, template_id),
        access.allowed_template_ids matches Some(ids) && ids@.len() == 0 ==> !may_use(
            access,
            template_id,
        ),
        access.allowed_template_ids matches Some(ids) ==> (may_use(access, template_id)
            <==> ids@.contains(template_id)),
{
}

/// Tokens shorter than 32 bytes are never looked up: they cannot belong to
/// any key.
pub fn token_may_authenticate(token: &str) -> (lookup: bool)
    ensures
        lookup == (utf8_len(token@) >= MIN_TOKEN_BYTES),
{
    let chars = chars_of(token);
    crate::text::utf8_len_at_least(chars.as_slice(), MIN_TOKEN_BYTES)
}

/// A token issued for a new key must be at least 32 bytes.
pub fn validate_token(token: &str) -> (result: Result<(), StorageError>)
    ensures
        utf8_len(token@) >= MIN_TOKEN_BYTES ==> result is Ok,
        utf8_len(token@) < MIN_TOKEN_BYTES ==> result == Err::<(), StorageError>(
            StorageError::TokenTooShort,
        ),
{
    if !token_may_authenticate(token) {
        return Err(StorageError::TokenTooShort);
    }
    Ok(())
}

/// The stored form of a token: its SHA-256 digest in lower-case hex.
pub fn hash_token(token: &str) -> (hash: String)
    ensures
        hash@ == sha256_hex(encode_utf8(token@)),
        hash@.len() == 64,
{
    crate::digest::hash_secret(token)
}

/// A stored key grants at least one scope; a key without any is damaged.
pub fn ensure_scopes_present<T>(scopes: Vec<T>) -> (result: Result<Vec<T>, StorageError>)
    ensures
        scopes@.len() > 0 ==> (result matches Ok(s) && s@ == scopes@),
        scopes@.len() == 0 ==> (result matches Err(e) && e == StorageError::InvalidApiKey),
{
    if scopes.len() == 0 {
        return Err(StorageError::InvalidApiKey);
    }
    Ok(scopes)
}

/// A duration or timestamp as the database stores it; larger values are
/// refused as an overflow.
pub fn as_i64(value: u64) -> (stored: Result<i64, StorageError>)
    ensures
        value <= i64::MAX ==> stored == Ok::<i64, StorageError>(value as i64),
        value > i64::MAX ==> stored == Err::<i64, StorageError>(StorageError::LeaseDurationOverflow),
{
    if value > 9223372036854775807u64 {
        return Err(StorageError::LeaseDurationOverflow);
    }
    Ok(value as i64)
}

/// Whether some flag is set.
pub open spec fn any_set(flags: Seq<bool>) -> bool {
    exists|i: int| 0 <= i < flags.len() && flags[i]
}

fn any_flag(flags: &Vec<bool>) -> (found: bool)
    ensures
        found == any_set(flags@),
{
    let mut i: usize = 0;
    while i < flags.len()
        invariant
            i <= flags@.len(),
            forall|k: int| 0 <= k < i ==> !flags@[k],
        decreases flags.len() - i,
    {
        if flags[i] {
            return true;
        }
        i = i + 1;
    }
    false
}

/// A principal is allowed an action in an organization only when one of
/// its key's grants permits the action, and then either as a system
/// administrator or through one of its memberships; given, per grant,
/// whether it permits the action and, per membership, whether its role
/// allows it in that organization.
pub fn principal_allows(
    grant_permits: &Vec<bool>,
    system_admin: bool,
    membership_allows: &Vec<bool>,
) -> (allowed: bool)
    ensures
        allowed == (any_set(grant_permits@) && (system_admin || any_set(membership_allows@))),
{
    if !any_flag(grant_permits) {
        return false;
    }
    if system_admin {
        return true;
    }
    any_flag(membership_allows)
}

/// How long a key's last use stays fresh enough not to be written again.
pub const KEY_USE_REFRESH_SECONDS: i64 = 300;

/// The time before which a recorded use is stale at `now`, saturating.
pub open spec fn key_use_threshold(now: i64) -> int {
    if now - KEY_USE_REFRESH_SECONDS < i64::MIN {
        i64::MIN as int
    } else {
        now - KEY_USE_REFRESH_SECONDS
    }
}

/// A key's use is recorded again only when it has none or the recorded
/// one is older than five minutes; returns that, and the threshold the
/// update is conditioned on.
pub fn key_use_due(last_used_at: Option<i64>, now: i64) -> (due: (bool, i64))
    ensures
        due.1 == key_use_threshold(now),
        due.0 == match last_used_at {
            None => true,
            Some(t) => t < key_use_threshold(now),
        },
{
    let threshold = if now < i64::MIN + KEY_USE_REFRESH_SECONDS {
        i64::MIN
    } else {
        now - KEY_USE_REFRESH_SECONDS
    };
    let due = match last_used_at {
        None => true,
        Some(t) => t < threshold,
    };
    (due, threshold)
}

} // verus!
