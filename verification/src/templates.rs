//! The parts of a workspace template that the library reads.
use vstd::prelude::*;

use crate::quota::Resources;
use crate::workspaces::AccessMode;

verus! {

/// What a template fixes for the workspaces created from it.
#[derive(Debug, Clone, PartialEq, Eq)]
pub struct WorkspaceTemplateSpec {
    pub image: String,
    pub access_mode: AccessMode,
    pub resources: Resources,
    pub buildkit: bool,
    pub cluster_access: bool,
}

} // verus!
