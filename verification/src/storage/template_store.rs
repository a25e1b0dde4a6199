//! Workspace templates: the checks around storing, resolving, enabling and
//! deleting them.
use vstd::prelude::*;

use super::StorageError;
use crate::templates::WorkspaceTemplateSpec;
use crate::text::{chars_of, trim, utf8_len};

verus! {

/// The largest template document, in bytes.
pub const MAX_TEMPLATE_YAML_BYTES: usize = 131072;

/// A stored template document: not blank, at most 128 KiB, and ending in a
/// line break (one is added when missing).
pub open spec fn normalized_yaml_of(yaml: Seq<char>) -> Result<Seq<char>, StorageError> {
    if trim(yaml).len() == 0 || utf8_len(yaml) > MAX_TEMPLATE_YAML_BYTES {
        Err(StorageError::InvalidTemplate)
    } else if yaml.len() > 0 && yaml.last() == '\n' {
        Ok(yaml)
    } else {
        Ok(yaml.push('\n'))
    }
}

/// Normalizes a template document before it is parsed and stored.
pub fn normalize_yaml(yaml: &str) -> (normalized: Result<String, StorageError>)
    ensures
        match (normalized, normalized_yaml_of(yaml@)) {
            (Ok(n), Ok(expected)) => n@ == expected,
            (Err(e), Err(expected)) => e == expected,
            _ => false,
        },
{
    let chars = chars_of(yaml);
    if crate::text::is_blank(chars.as_slice()) || crate::text::utf8_len_at_least(
        chars.as_slice(),
        MAX_TEMPLATE_YAML_BYTES + 1,
    ) {
        return Err(StorageError::InvalidTemplate);
    }
    let n = chars.len();
    if n > 0 && chars[n - 1] == '\n' {
        Ok(yaml.to_owned())
    } else {
        let mut out = yaml.to_owned();
        out.append("\n");
        proof {
            reveal_strlit("\n");
        }
        Ok(out)
    }
}

/// Normalizing twice changes nothing.
pub proof fn lemma_normalize_yaml_idempotent(yaml: Seq<char>)
    requires
        normalized_yaml_of(yaml) is Ok,
        utf8_len(normalized_yaml_of(yaml)->Ok_0) <= MAX_TEMPLATE_YAML_BYTES,
    ensures
        normalized_yaml_of(normalized_yaml_of(yaml)->Ok_0) == normalized_yaml_of(yaml),
{
    let n = normalized_yaml_of(yaml)->Ok_0;
    if !(yaml.len() > 0 && yaml.last() == '\n') {
        crate::text::lemma_trim_empty_iff_blank(yaml);
        crate::text::lemma_trim_empty_iff_blank(n);
        let i = choose|i: int| 0 <= i < yaml.len() && !crate::text::is_whitespace(#[trigger] yaml[i]);
        assert(n[i] == yaml[i]);
        assert(n.last() == '\n');
    }
}

/// A template that grants cluster access may be used only by callers
/// allowed to grant it.
pub fn ensure_cluster_access(spec: &WorkspaceTemplateSpec, allow_cluster_access: bool) -> (result:
    Result<(), StorageError>)
    ensures
        (spec.cluster_access && !allow_cluster_access) ==> result == Err::<(), StorageError>(
            StorageError::PrivilegedTemplateForbidden,
        ),
        !(spec.cluster_access && !allow_cluster_access) ==> result is Ok,
{
    if spec.cluster_access && !allow_cluster_access {
        return Err(StorageError::PrivilegedTemplateForbidden);
    }
    Ok(())
}

/// A template is deleted only once disabled and no longer referenced by a
/// workspace; being enabled is reported first.
pub fn ensure_template_deletable(enabled: bool, referenced: bool) -> (result: Result<
    (),
    StorageError,
>)
    ensures
        enabled ==> result == Err::<(), StorageError>(StorageError::TemplateMustBeDisabled),
        !enabled && referenced ==> result == Err::<(), StorageError>(StorageError::TemplateInUse),
        !enabled && !referenced ==> result is Ok,
{
    if enabled {
        return Err(StorageError::TemplateMustBeDisabled);
    }
    if referenced {
        return Err(StorageError::TemplateInUse);
    }
    Ok(())
}

/// A template that was looked up must exist, and the caller must be
/// allowed to use it.
pub fn ensure_template_access(
    template: Option<&WorkspaceTemplateSpec>,
    allow_cluster_access: bool,
) -> (result: Result<(), StorageError>)
    ensures
        match template {
            None => result == Err::<(), StorageError>(StorageError::TemplateNotFound),
            Some(t) => if t.cluster_access && !allow_cluster_access {
                result == Err::<(), StorageError>(StorageError::PrivilegedTemplateForbidden)
            } else {
                result is Ok
            },
        },
{
    match template {
        None => Err(StorageError::TemplateNotFound),
        Some(t) => ensure_cluster_access(t, allow_cluster_access),
    }
}

/// A template amount as the database stores it; larger values are refused.
pub fn as_i64(value: u64) -> (stored: Result<i64, StorageError>)
    ensures
        value <= i64::MAX ==> stored == Ok::<i64, StorageError>(value as i64),
        value > i64::MAX ==> stored == Err::<i64, StorageError>(StorageError::InvalidTemplate),
{
    if value > 9223372036854775807u64 {
        return Err(StorageError::InvalidTemplate);
    }
    Ok(value as i64)
}

/// A stored amount read back; negative values mean the row is damaged.
pub fn as_u64(value: i64) -> (converted: Result<u64, StorageError>)
    ensures
        value >= 0 ==> converted == Ok::<u64, StorageError>(value as u64),
        value < 0 ==> converted == Err::<u64, StorageError>(StorageError::InvalidTemplate),
{
    if value < 0 {
        return Err(StorageError::InvalidTemplate);
    }
    Ok(value as u64)
}

} // verus!
