//! Verified core of the workspace control plane: quotas, input validation,
//! runtime incident normalization, plugin manifest rules and the decisions the
//! storage layer takes around its queries.

pub mod digest;
pub mod encoding;
pub mod ids;
pub mod json;
pub mod json_write;
pub mod plugins;
pub mod quota;
pub mod runtime_incidents;
pub mod storage;
pub mod templates;
pub mod text;
pub mod workspaces;
