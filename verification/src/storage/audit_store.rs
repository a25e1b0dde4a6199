//! Filtering and paging of the audit log.
use vstd::prelude::*;

use super::StorageError;
use crate::text::{chars_of, has_control, trim};

verus! {

/// The largest audit page.
pub const MAX_AUDIT_PAGE: u32 = 100;

/// The longest exact filter value, in characters.
pub const MAX_FILTER_CHARS: usize = 128;

/// What a caller asks of the audit log. Identifiers are carried as their
/// 128-bit values.
#[derive(Debug, Clone, PartialEq, Eq)]
pub struct AuditFilter {
    pub organization_id: Option<u128>,
    pub limit: u32,
    pub offset: u64,
    pub action: Option<String>,
    pub actor: Option<String>,
    pub workspace: Option<String>,
    pub query: Option<String>,
}

/// A checked filter, with the patterns the query matches text against.
#[derive(Debug, Clone, PartialEq, Eq)]
pub struct ValidatedFilter {
    pub organization_id: Option<u128>,
    pub limit: usize,
    pub offset_u64: u64,
    pub offset: i64,
    pub fetch_limit: i64,
    pub action: Option<String>,
    pub actor: Option<String>,
    pub actor_like: Option<String>,
    pub workspace: Option<String>,
    pub workspace_like: Option<String>,
    pub query_like: Option<String>,
}

/// The text of an optional string.
pub open spec fn opt_view(value: Option<String>) -> Option<Seq<char>> {
    match value {
        Some(v) => Some(v@),
        None => None,
    }
}

/// What an exact filter value normalizes to: nothing when absent or blank,
/// the trimmed text otherwise, refused when that is longer than 128
/// characters or holds a control character.
pub open spec fn exact_filter(value: Option<Seq<char>>) -> Result<Option<Seq<char>>, StorageError> {
    match value {
        None => Ok(None),
        Some(v) => {
            let t = trim(v);
            if t.len() == 0 {
                Ok(None)
            } else if t.len() > MAX_FILTER_CHARS || has_control(t) {
                Err(StorageError::InvalidAuditQuery)
            } else {
                Ok(Some(t))
            }
        },
    }
}

/// Normalizes an exact filter value.
pub fn normalize_exact(value: Option<String>) -> (normalized: Result<Option<String>, StorageError>)
    ensures
        match (normalized, exact_filter(opt_view(value))) {
            (Ok(n), Ok(expected)) => opt_view(n) == expected,
            (Err(error), Err(expected)) => error == expected,
            _ => false,
        },
{
    let value = match value {
        None => return Ok(None),
        Some(value) => value,
    };
    let chars = chars_of(value.as_str());
    let trimmed = crate::text::trimmed(chars.as_slice());
    if trimmed.len() == 0 {
        return Ok(None);
    }
    if trimmed.len() > MAX_FILTER_CHARS || crate::text::any_control(trimmed.as_slice()) {
        return Err(StorageError::InvalidAuditQuery);
    }
    Ok(Some(crate::text::string_from_chars(trimmed.as_slice())))
}

/// The lower-case form that `str::to_lowercase` gives (full Unicode case
/// mapping).
pub uninterp spec fn unicode_lowercase(value: Seq<char>) -> Seq<char>;

/// Calls `str::to_lowercase`.
#[verifier::external_body]
pub(crate) fn to_lowercase(value: &str) -> (lower: String)
    ensures
        lower@ == unicode_lowercase(value@),
{
    value.to_lowercase()
}

/// A character as it stands in a `LIKE` pattern with `\` as escape.
pub open spec fn like_escaped_char(c: char) -> Seq<char> {
    if c == '\\' || c == '%' || c == '_' {
        seq!['\\', c]
    } else {
        seq![c]
    }
}

/// Text as it stands in a `LIKE` pattern with `\` as escape: the escape
/// character and both wildcards are escaped.
pub open spec fn like_escaped(s: Seq<char>) -> Seq<char>
    decreases s.len(),
{
    if s.len() == 0 {
        Seq::empty()
    } else {
        like_escaped(s.drop_last()) + like_escaped_char(s.last())
    }
}

/// The pattern that matches text containing `value`, ignoring case.
pub open spec fn like_pattern_of(value: Seq<char>) -> Seq<char> {
    seq!['%'] + like_escaped(unicode_lowercase(value)) + seq!['%']
}

/// `%`, the escaped text, `%`: the pattern of text containing `chars`.
pub(crate) fn escaped_pattern(chars: &[char]) -> (pattern: String)
    ensures
        pattern@ == seq!['%'] + like_escaped(chars@) + seq!['%'],
{
    let mut out: Vec<char> = Vec::new();
    out.push('%');
    let mut i: usize = 0;
    while i < chars.len()
        invariant
            i <= chars@.len(),
            out@ == seq!['%'] + like_escaped(chars@.take(i as int)),
        decreases chars.len() - i,
    {
        let c = chars[i];
        proof {
            assert(chars@.take(i + 1).drop_last() =~= chars@.take(i as int));
            assert(chars@.take(i + 1).last() == c);
        }
        if c == '\\' || c == '%' || c == '_' {
            out.push('\\');
        }
        out.push(c);
        proof {
            assert(out@ =~= seq!['%'] + like_escaped(chars@.take(i + 1)));
        }
        i = i + 1;
    }
    out.push('%');
    proof {
        assert(chars@.take(chars@.len() as int) =~= chars@);
        assert(out@ =~= seq!['%'] + like_escaped(chars@) + seq!['%']);
    }
    crate::text::string_from_chars(out.as_slice())
}

/// The pattern that matches any text containing the value, ignoring case.
pub fn like_pattern(value: Option<&str>) -> (pattern: Option<String>)
    ensures
        match value {
            Some(v) => pattern matches Some(p) && p@ == like_pattern_of(v@),
            None => pattern is None,
        },
{
    let value = match value {
        None => return None,
        Some(value) => value,
    };
    let lower = to_lowercase(value);
    let chars = chars_of(lower.as_str());
    Some(escaped_pattern(chars.as_slice()))
}

/// The page size used: the asked size kept within 1 to 100.
pub open spec fn audit_page_size(limit: u32) -> int {
    if limit < 1 {
        1
    } else if limit > MAX_AUDIT_PAGE {
        MAX_AUDIT_PAGE as int
    } else {
        limit as int
    }
}

/// The pattern of an optional normalized value.
pub open spec fn opt_like(value: Option<Seq<char>>) -> Option<Seq<char>> {
    match value {
        Some(v) => Some(like_pattern_of(v)),
        None => None,
    }
}

/// A filter is refused when its offset does not fit the database's integer
/// or one of its values does not normalize.
pub open spec fn filter_refused(filter: AuditFilter) -> bool {
    ||| filter.offset > i64::MAX
    ||| exact_filter(opt_view(filter.action)) is Err
    ||| exact_filter(opt_view(filter.actor)) is Err
    ||| exact_filter(opt_view(filter.workspace)) is Err
    ||| exact_filter(opt_view(filter.query)) is Err
}

impl ValidatedFilter {
    /// Checks a filter and derives the page size, the row count to fetch
    /// (one more, to see whether a next page exists) and the patterns.
    pub fn new(filter: AuditFilter) -> (validated: Result<Self, StorageError>)
        ensures
            match validated {
                Ok(v) => !filter_refused(filter) && v.organization_id == filter.organization_id
                    && v.limit == audit_page_size(filter.limit) && v.offset_u64 == filter.offset
                    && v.offset == filter.offset && v.fetch_limit == v.limit + 1 && opt_view(
                    v.action,
                ) == exact_filter(opt_view(filter.action))->Ok_0 && opt_view(v.actor)
                    == exact_filter(opt_view(filter.actor))->Ok_0 && opt_view(v.workspace)
                    == exact_filter(opt_view(filter.workspace))->Ok_0 && opt_view(v.actor_like)
                    == opt_like(exact_filter(opt_view(filter.actor))->Ok_0) && opt_view(
                    v.workspace_like,
                ) == opt_like(exact_filter(opt_view(filter.workspace))->Ok_0) && opt_view(
                    v.query_like,
                ) == opt_like(exact_filter(opt_view(filter.query))->Ok_0),
                Err(error) => filter_refused(filter) && error == StorageError::InvalidAuditQuery,
            },
    {
        let limit: usize = if filter.limit < 1 {
            1
        } else if filter.limit > MAX_AUDIT_PAGE {
            MAX_AUDIT_PAGE as usize
        } else {
            filter.limit as usize
        };
        if filter.offset > 9223372036854775807u64 {
            return Err(StorageError::InvalidAuditQuery);
        }
        let offset = filter.offset as i64;
        let action = normalize_exact(filter.action)?;
        let actor = normalize_exact(filter.actor)?;
        let workspace = normalize_exact(filter.workspace)?;
        let query = normalize_exact(filter.query)?;
        let actor_like = match &actor {
            Some(a) => like_pattern(Some(a.as_str())),
            None => None,
        };
        let workspace_like = match &workspace {
            Some(w) => like_pattern(Some(w.as_str())),
            None => None,
        };
        let query_like = match &query {
            Some(q) => like_pattern(Some(q.as_str())),
            None => None,
        };
        Ok(
            ValidatedFilter {
                organization_id: filter.organization_id,
                limit,
                offset_u64: filter.offset,
                offset,
                fetch_limit: (limit + 1) as i64,
                action,
                actor,
                actor_like,
                workspace,
                workspace_like,
                query_like,
            },
        )
    }

    /// Cuts the fetched rows to the page size; when more rows came back
    /// than fit, the next page starts right after this one.
    pub fn page<T>(&self, items: Vec<T>) -> (page: Result<(Vec<T>, Option<u64>), StorageError>)
        ensures
            match page {
                Ok((kept, next)) => kept@ == items@.take(
                    if items@.len() > self.limit {
                        self.limit as int
                    } else {
                        items@.len() as int
                    },
                ) && (items@.len() > self.limit ==> next == Some((self.offset_u64 + self.limit) as u64))
                    && (items@.len() <= self.limit ==> next is None),
                Err(error) => error == StorageError::InvalidAuditQuery && items@.len() > self.limit
                    && self.offset_u64 + self.limit > u64::MAX,
            },
    {
        let has_more = items.len() > self.limit;
        let mut items = items;
        items.truncate(self.limit);
        if has_more {
            let limit = self.limit as u64;
            match self.offset_u64.checked_add(limit) {
                Some(next) => Ok((items, Some(next))),
                None => Err(StorageError::InvalidAuditQuery),
            }
        } else {
            Ok((items, None))
        }
    }
}

} // verus!
