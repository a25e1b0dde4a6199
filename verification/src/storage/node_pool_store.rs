//! Node pools: the named placements that workspaces are scheduled onto.
use vstd::prelude::*;

use super::StorageError;
use crate::text::{
    chars_of, has_control, is_ascii_alnum, is_ascii_digit, is_ascii_lower, trim, utf8_len,
};

verus! {

/// Where the Pods of a workspace may run: a node selector, as key and value
/// pairs with distinct keys in ascending order, and the host names that are
/// required or preferred.
#[derive(Debug, Clone, PartialEq, Eq, Default)]
pub struct ResolvedPlacement {
    pub selector: Vec<(String, String)>,
    pub required_hosts: Vec<String>,
    pub preferred_hosts: Vec<String>,
}

/// The node pools that a template allows, and the one it uses by default.
#[derive(Debug, Clone, PartialEq, Eq)]
pub struct WorkspacePlacement {
    pub default_node_pool: String,
    pub allowed_node_pools: Vec<String>,
}

/// A node pool as offered to users.
#[derive(Debug, Clone, PartialEq, Eq)]
pub struct AvailableNodePool {
    pub name: String,
    pub display_name: String,
}

/// A stored node pool.
#[derive(Debug, Clone, PartialEq, Eq)]
pub struct NodePool {
    pub name: String,
    pub display_name: String,
    pub placement: ResolvedPlacement,
    pub enabled: bool,
    pub created_at: i64,
    pub updated_at: i64,
}

/// The body of a request that creates or replaces a node pool.
#[derive(Debug, Clone, PartialEq, Eq)]
pub struct PutNodePool {
    pub display_name: String,
    pub placement: ResolvedPlacement,
    pub enabled: bool,
}

/// What deleting a node pool depends on: whether it is enabled, and whether
/// a live workspace or a template still names it.
#[derive(Debug, Clone, Copy, PartialEq, Eq)]
pub struct NodePoolUsage {
    pub enabled: bool,
    pub workspace_in_use: bool,
    pub template_in_use: bool,
}

/// The pool that is always present and never deleted.
pub const DEFAULT_NODE_POOL: &'static str = "default";

pub const MAX_NODE_POOL_NAME_LEN: usize = 63;

pub const MAX_NODE_POOL_DISPLAY_NAME_BYTES: usize = 80;

pub const MAX_SELECTOR_ENTRIES: usize = 32;

pub const MAX_PLACEMENT_HOSTS: usize = 128;

pub const MAX_LABEL_KEY_LEN: usize = 253;

pub const MAX_LABEL_VALUE_LEN: usize = 63;

/// A new pool is enabled unless the request says otherwise.
pub fn enabled_by_default() -> (enabled: bool)
    ensures
        enabled,
{
    true
}

pub open spec fn is_name_char(c: char) -> bool {
    is_ascii_lower(c) || is_ascii_digit(c) || c == '-'
}

pub open spec fn is_label_value_char(c: char) -> bool {
    is_ascii_alnum(c) || c == '-' || c == '_' || c == '.'
}

pub open spec fn is_label_key_char(c: char) -> bool {
    is_label_value_char(c) || c == '/'
}

/// A pool name: 1 to 63 lower-case letters, digits and hyphens, starting
/// with a letter and ending with a letter or digit.
pub open spec fn node_pool_name_ok(name: Seq<char>) -> bool {
    &&& 0 < name.len() <= MAX_NODE_POOL_NAME_LEN
    &&& is_ascii_lower(name[0])
    &&& is_ascii_alnum(name.last())
    &&& forall|i: int| 0 <= i < name.len() ==> is_name_char(#[trigger] name[i])
}

/// A label key: 1 to 253 ASCII letters, digits, `-`, `_`, `.` and `/`.
pub open spec fn label_key_ok(key: Seq<char>) -> bool {
    &&& 0 < key.len() <= MAX_LABEL_KEY_LEN
    &&& forall|i: int| 0 <= i < key.len() ==> is_label_key_char(#[trigger] key[i])
}

/// A label value: at most 63 ASCII letters, digits, `-`, `_` and `.`.
pub open spec fn label_value_ok(value: Seq<char>) -> bool {
    &&& value.len() <= MAX_LABEL_VALUE_LEN
    &&& forall|i: int| 0 <= i < value.len() ==> is_label_value_char(#[trigger] value[i])
}

/// A host name in a placement: a non-empty label value.
pub open spec fn host_ok(host: Seq<char>) -> bool {
    host.len() > 0 && label_value_ok(host)
}

/// A display name: not blank, without surrounding white space, at most 80
/// bytes of UTF-8 and without control characters.
pub open spec fn display_name_ok(name: Seq<char>) -> bool {
    &&& trim(name).len() > 0
    &&& name == trim(name)
    &&& utf8_len(name) <= MAX_NODE_POOL_DISPLAY_NAME_BYTES
    &&& !has_control(name)
}

/// A selector entry with a valid key and value.
pub open spec fn selector_entry_ok(entry: (String, String)) -> bool {
    label_key_ok(entry.0@) && label_value_ok(entry.1@)
}

/// A placement within its limits, every label and host well formed.
pub open spec fn placement_ok(placement: ResolvedPlacement) -> bool {
    &&& placement.selector@.len() <= MAX_SELECTOR_ENTRIES
    &&& placement.required_hosts@.len() <= MAX_PLACEMENT_HOSTS
    &&& placement.preferred_hosts@.len() <= MAX_PLACEMENT_HOSTS
    &&& forall|i: int|
        0 <= i < placement.selector@.len() ==> selector_entry_ok(#[trigger] placement.selector@[i])
    &&& forall|i: int|
        0 <= i < placement.required_hosts@.len() ==> host_ok(
            #[trigger] placement.required_hosts@[i]@,
        )
    &&& forall|i: int|
        0 <= i < placement.preferred_hosts@.len() ==> host_ok(
            #[trigger] placement.preferred_hosts@[i]@,
        )
}

fn all_name_chars(s: &[char]) -> (ok: bool)
    ensures
        ok == forall|i: int| 0 <= i < s@.len() ==> is_name_char(#[trigger] s@[i]),
{
    let mut i: usize = 0;
    while i < s.len()
        invariant
            i <= s.len(),
            forall|k: int| 0 <= k < i ==> is_name_char(#[trigger] s@[k]),
        decreases s.len() - i,
    {
        let c = s[i];
        if !(crate::text::char_is_ascii_lower(c) || crate::text::char_is_ascii_digit(c) || c
            == '-') {
            assert(!is_name_char(s@[i as int]));
            return false;
        }
        i = i + 1;
    }
    true
}

fn all_label_chars(s: &[char], allow_slash: bool) -> (ok: bool)
    ensures
        ok == forall|i: int|
            #![trigger s@[i]]
            0 <= i < s@.len() ==> (if allow_slash {
                is_label_key_char(s@[i])
            } else {
                is_label_value_char(s@[i])
            }),
{
    let mut i: usize = 0;
    while i < s.len()
        invariant
            i <= s.len(),
            forall|k: int|
                #![trigger s@[k]]
                0 <= k < i ==> (if allow_slash {
                    is_label_key_char(s@[k])
                } else {
                    is_label_value_char(s@[k])
                }),
        decreases s.len() - i,
    {
        let c = s[i];
        let ok = crate::text::char_is_ascii_alnum(c) || c == '-' || c == '_' || c == '.' || (
        allow_slash && c == '/');
        if !ok {
            assert(!(if allow_slash {
                is_label_key_char(s@[i as int])
            } else {
                is_label_value_char(s@[i as int])
            }));
            return false;
        }
        i = i + 1;
    }
    true
}

/// Whether `name` is a valid pool name.
pub fn valid_node_pool_name(name: &str) -> (valid: bool)
    ensures
        valid == node_pool_name_ok(name@),
{
    let chars = chars_of(name);
    let n = chars.len();
    if n == 0 || n > MAX_NODE_POOL_NAME_LEN {
        return false;
    }
    crate::text::char_is_ascii_lower(chars[0]) && crate::text::char_is_ascii_alnum(chars[n - 1])
        && all_name_chars(chars.as_slice())
}

/// Whether `key` is a valid label key.
pub fn valid_label_key(key: &str) -> (valid: bool)
    ensures
        valid == label_key_ok(key@),
{
    let chars = chars_of(key);
    if chars.len() == 0 || chars.len() > MAX_LABEL_KEY_LEN {
        return false;
    }
    all_label_chars(chars.as_slice(), true)
}

/// Whether `value` is a valid label value.
pub fn valid_label_value(value: &str) -> (valid: bool)
    ensures
        valid == label_value_ok(value@),
{
    let chars = chars_of(value);
    if chars.len() > MAX_LABEL_VALUE_LEN {
        return false;
    }
    all_label_chars(chars.as_slice(), false)
}

fn valid_display_name(name: &str) -> (valid: bool)
    ensures
        valid == display_name_ok(name@),
{
    let chars = chars_of(name);
    let trimmed = crate::text::trimmed(chars.as_slice());
    if trimmed.len() == 0 {
        return false;
    }
    if !crate::text::chars_eq(chars.as_slice(), trimmed.as_slice()) {
        return false;
    }
    if crate::text::utf8_len_at_least(chars.as_slice(), MAX_NODE_POOL_DISPLAY_NAME_BYTES + 1) {
        return false;
    }
    !crate::text::any_control(chars.as_slice())
}

fn valid_hosts(hosts: &Vec<String>) -> (valid: bool)
    ensures
        valid == forall|i: int| 0 <= i < hosts@.len() ==> host_ok(#[trigger] hosts@[i]@),
{
    let mut i: usize = 0;
    while i < hosts.len()
        invariant
            i <= hosts.len(),
            forall|k: int| 0 <= k < i ==> host_ok(#[trigger] hosts@[k]@),
        decreases hosts.len() - i,
    {
        let host = hosts[i].as_str();
        let chars = chars_of(host);
        if chars.len() == 0 || !valid_label_value(host) {
            assert(!host_ok(hosts@[i as int]@));
            return false;
        }
        i = i + 1;
    }
    true
}

fn valid_selector(selector: &Vec<(String, String)>) -> (valid: bool)
    ensures
        valid == forall|i: int| 0 <= i < selector@.len() ==> selector_entry_ok(#[trigger] selector@[i]),
{
    let mut i: usize = 0;
    while i < selector.len()
        invariant
            i <= selector.len(),
            forall|k: int| 0 <= k < i ==> selector_entry_ok(#[trigger] selector@[k]),
        decreases selector.len() - i,
    {
        let entry = &selector[i];
        assert(entry.0@ == selector@[i as int].0@ && entry.1@ == selector@[i as int].1@);
        if !valid_label_key(entry.0.as_str()) || !valid_label_value(entry.1.as_str()) {
            assert(!selector_entry_ok(selector@[i as int]));
            return false;
        }
        assert(selector_entry_ok(selector@[i as int]));
        i = i + 1;
    }
    true
}

/// Checks a request to create or replace the pool `name`.
pub fn validate_node_pool(name: &str, command: &PutNodePool) -> (result: Result<(), StorageError>)
    ensures
        result is Ok <==> (node_pool_name_ok(name@) && display_name_ok(command.display_name@)
            && placement_ok(command.placement)),
        result matches Err(error) ==> error == StorageError::InvalidNodePool,
{
    let placement = &command.placement;
    if !valid_node_pool_name(name) || !valid_display_name(command.display_name.as_str())
        || placement.selector.len() > MAX_SELECTOR_ENTRIES || placement.required_hosts.len()
        > MAX_PLACEMENT_HOSTS || placement.preferred_hosts.len() > MAX_PLACEMENT_HOSTS
        || !valid_selector(&placement.selector) || !valid_hosts(&placement.required_hosts)
        || !valid_hosts(&placement.preferred_hosts) {
        return Err(StorageError::InvalidNodePool);
    }
    Ok(())
}

/// The pool a workspace lands on: the requested one, else the template's
/// default; it must be one the template allows.
pub open spec fn selected_pool(placement: WorkspacePlacement, requested: Option<Seq<char>>) -> Result<
    Seq<char>,
    StorageError,
> {
    let name = match requested {
        Some(r) => r,
        None => placement.default_node_pool@,
    };
    if exists|i: int|
        0 <= i < placement.allowed_node_pools@.len()
            && #[trigger] placement.allowed_node_pools@[i]@ == name {
        Ok(name)
    } else {
        Err(StorageError::NodePoolNotAllowed)
    }
}

/// Chooses the pool for a new workspace.
pub fn selected_name(placement: &WorkspacePlacement, requested: Option<&str>) -> (result: Result<
    String,
    StorageError,
>)
    ensures
        match (result, selected_pool(*placement, crate::storage::port_mappings::opt_str_view(requested))) {
            (Ok(name), Ok(expected)) => name@ == expected,
            (Err(error), Err(expected)) => error == expected,
            _ => false,
        },
{
    let name = match requested {
        Some(r) => chars_of(r),
        None => chars_of(placement.default_node_pool.as_str()),
    };
    let mut i: usize = 0;
    while i < placement.allowed_node_pools.len()
        invariant
            i <= placement.allowed_node_pools@.len(),
            name@ == (match crate::storage::port_mappings::opt_str_view(requested) {
                Some(r) => r,
                None => placement.default_node_pool@,
            }),
            forall|k: int| 0 <= k < i ==> #[trigger] placement.allowed_node_pools@[k]@ != name@,
        decreases placement.allowed_node_pools.len() - i,
    {
        if crate::text::chars_eq_str(name.as_slice(), placement.allowed_node_pools[i].as_str()) {
            assert(placement.allowed_node_pools@[i as int]@ == name@);
            return Ok(crate::text::string_from_chars(name.as_slice()));
        }
        i = i + 1;
    }
    Err(StorageError::NodePoolNotAllowed)
}

/// The pool chosen for a workspace is usable only while it exists and is
/// enabled; `enabled_matches` is how many enabled pools carry its name.
pub fn confirm_node_pool_enabled(name: String, enabled_matches: i64) -> (result: Result<
    String,
    StorageError,
>)
    ensures
        enabled_matches == 1 ==> result == Ok::<String, StorageError>(name),
        enabled_matches != 1 ==> result == Err::<String, StorageError>(
            StorageError::NodePoolUnavailable,
        ),
{
    if enabled_matches == 1 {
        Ok(name)
    } else {
        Err(StorageError::NodePoolUnavailable)
    }
}

/// Every pool that a template allows must exist; `found` is how many of the
/// `allowed` names were found.
pub fn ensure_template_pools_exist(found: usize, allowed: usize) -> (result: Result<(), StorageError>)
    ensures
        found == allowed ==> result is Ok,
        found != allowed ==> result == Err::<(), StorageError>(StorageError::NodePoolNotFound),
{
    if found != allowed {
        return Err(StorageError::NodePoolNotFound);
    }
    Ok(())
}

/// Whether a pool deletion may proceed, given what the store holds of it:
/// the default pool is never deleted, an unknown pool is not found, and a
/// pool that is enabled or still named by a workspace or template is in use.
pub open spec fn deletion_outcome(name: Seq<char>, usage: Option<NodePoolUsage>) -> Result<
    (),
    StorageError,
> {
    if name == DEFAULT_NODE_POOL@ {
        Err(StorageError::NodePoolInUse)
    } else {
        match usage {
            None => Err(StorageError::NodePoolNotFound),
            Some(u) => if u.enabled || u.workspace_in_use || u.template_in_use {
                Err(StorageError::NodePoolInUse)
            } else {
                Ok(())
            },
        }
    }
}

/// Whether `name` is the pool that is never deleted; checked before the
/// store is asked anything.
pub fn is_protected_node_pool(name: &str) -> (protected: bool)
    ensures
        protected == (name@ == DEFAULT_NODE_POOL@),
{
    let chars = chars_of(name);
    crate::text::chars_eq_str(chars.as_slice(), DEFAULT_NODE_POOL)
}

/// Decides a pool deletion from its name and its usage as read inside the
/// deleting transaction.
pub fn ensure_node_pool_deletable(name: &str, usage: Option<NodePoolUsage>) -> (result: Result<
    (),
    StorageError,
>)
    ensures
        result == deletion_outcome(name@, usage),
{
    if is_protected_node_pool(name) {
        return Err(StorageError::NodePoolInUse);
    }
    match usage {
        None => Err(StorageError::NodePoolNotFound),
        Some(u) => if u.enabled || u.workspace_in_use || u.template_in_use {
            Err(StorageError::NodePoolInUse)
        } else {
            Ok(())
        },
    }
}

/// The default pool is never deletable, whatever the store says of it.
pub proof fn lemma_default_pool_never_deleted(usage: Option<NodePoolUsage>)
    ensures
        deletion_outcome(DEFAULT_NODE_POOL@, usage) == Err::<(), StorageError>(
            StorageError::NodePoolInUse,
        ),
{
}

/// A pool that is selected for a workspace is always one of the template's
/// allowed pools.
pub proof fn lemma_selected_pool_is_allowed(
    placement: WorkspacePlacement,
    requested: Option<Seq<char>>,
)
    requires
        selected_pool(placement, requested) is Ok,
    ensures
        exists|i: int|
            0 <= i < placement.allowed_node_pools@.len() && #[trigger] placement.allowed_node_pools@[i]@
                == selected_pool(placement, requested)->Ok_0,
{
}

} // verus!
