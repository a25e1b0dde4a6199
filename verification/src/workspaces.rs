//! Workspace attributes that the library reads.
use vstd::prelude::*;

use crate::text::chars_of;

verus! {

/// Who can reach a workspace's endpoints.
#[derive(Debug, Clone, Copy, PartialEq, Eq, Structural)]
pub enum AccessMode {
    Internal,
    Public,
}

/// The stored name of an access mode.
pub open spec fn access_mode_name(mode: AccessMode) -> Seq<char> {
    match mode {
        AccessMode::Internal => "internal"@,
        AccessMode::Public => "public"@,
    }
}

impl AccessMode {
    /// The stored name of the mode.
    pub fn as_str(self) -> (name: &'static str)
        ensures
            name@ == access_mode_name(self),
    {
        match self {
            AccessMode::Internal => "internal",
            AccessMode::Public => "public",
        }
    }

    /// The mode with the given stored name, if there is one.
    pub fn from_database(value: &str) -> (mode: Option<Self>)
        ensures
            match mode {
                Some(m) => access_mode_name(m) == value@,
                None => forall|m: AccessMode| access_mode_name(m) != value@,
            },
    {
        let chars = chars_of(value);
        if crate::text::chars_eq_str(chars.as_slice(), "internal") {
            Some(AccessMode::Internal)
        } else if crate::text::chars_eq_str(chars.as_slice(), "public") {
            Some(AccessMode::Public)
        } else {
            proof {
                assert forall|m: AccessMode| access_mode_name(m) != value@ by {
                    match m {
                        AccessMode::Internal => {},
                        AccessMode::Public => {},
                    }
                }
            }
            None
        }
    }
}

} // verus!
