use vstd::prelude::*;

use crate::storage::StorageError;

verus! {

/// Why a plugin operation was refused.
#[derive(Debug, Clone, PartialEq, Eq)]
pub enum PluginError {
    Package,
    InvalidPackage(String),
    NotFound,
    InvalidConfiguration,
    InvalidApiRequest,
    MiddlewareDenied,
    ConfigurationVersionConflict,
    AdmissionDenied { plugin_id: String, decision_code: String },
    ExecutionFailed,
    RuntimeUnavailable,
    Storage(StorageError),
}

/// `error` is the refusal of an invalid package with the given message.
pub open spec fn is_invalid_package(error: PluginError, message: Seq<char>) -> bool {
    error matches PluginError::InvalidPackage(m) && m@ == message
}

impl PluginError {
    /// An invalid package, with a message that says what is wrong.
    pub fn invalid(message: &str) -> (error: Self)
        ensures
            is_invalid_package(error, message@),
    {
        PluginError::InvalidPackage(message.to_owned())
    }
}

impl From<StorageError> for PluginError {
    fn from(error: StorageError) -> (converted: Self) {
        PluginError::Storage(error)
    }
}

impl vstd::std_specs::convert::FromSpecImpl<StorageError> for PluginError {
    open spec fn obeys_from_spec() -> bool {
        true
    }

    open spec fn from_spec(error: StorageError) -> Self {
        PluginError::Storage(error)
    }
}

} // verus!
