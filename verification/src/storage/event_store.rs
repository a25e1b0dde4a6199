//! The event feed: how much one read returns, and which database
//! notifications wake a waiting reader.
use vstd::prelude::*;

use crate::text::chars_of;

verus! {

/// The most events one read returns.
pub const MAX_EVENT_LIST_LIMIT: u32 = 1000;

/// How many events a read returns: the asked number kept within 1 to
/// 1000.
pub fn event_list_limit(limit: u32) -> (size: i64)
    ensures
        size == if limit < 1 {
            1
        } else if limit > MAX_EVENT_LIST_LIMIT {
            MAX_EVENT_LIST_LIMIT as int
        } else {
            limit as int
        },
{
    if limit < 1 {
        1
    } else if limit > MAX_EVENT_LIST_LIMIT {
        MAX_EVENT_LIST_LIMIT as i64
    } else {
        limit as i64
    }
}

/// A notification on the shared channel wakes the readers of the
/// installation it names, and no others.
pub fn wakes_reader(payload: &str, installation_id: &str) -> (wakes: bool)
    ensures
        wakes == (payload@ == installation_id@),
{
    let p = chars_of(payload);
    crate::text::chars_eq_str(p.as_slice(), installation_id)
}

} // verus!
