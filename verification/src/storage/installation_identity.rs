//! The database belongs to one installation: the identity recorded on
//! first start must be the one configured on every later start.
use vstd::prelude::*;

use super::StorageError;
use crate::text::chars_of;

verus! {

/// Compares the configured installation with the one the database
/// recorded; a database of another installation is never used.
pub fn ensure_installation_matches(configured: &str, stored: &str) -> (result: Result<
    (),
    StorageError,
>)
    ensures
        configured@ == stored@ ==> result is Ok,
        configured@ != stored@ ==> (result matches Err(
            StorageError::InstallationMismatch { configured: c, stored: s },
        ) && c@ == configured@ && s@ == stored@),
{
    let c = chars_of(configured);
    if crate::text::chars_eq_str(c.as_slice(), stored) {
        Ok(())
    } else {
        Err(
            StorageError::InstallationMismatch {
                configured: configured.to_owned(),
                stored: stored.to_owned(),
            },
        )
    }
}

/// The current time as stored, in whole seconds since the Unix epoch; a
/// time beyond the stored range is a clock fault.
pub fn stored_seconds(seconds: u64) -> (result: Result<i64, StorageError>)
    ensures
        seconds <= i64::MAX ==> result == Ok::<i64, StorageError>(seconds as i64),
        seconds > i64::MAX ==> result == Err::<i64, StorageError>(StorageError::Clock),
{
    if seconds > i64::MAX as u64 {
        Err(StorageError::Clock)
    } else {
        Ok(seconds as i64)
    }
}

} // verus!
