use vstd::prelude::*;

verus! {

/// The refusals of the storage layer that do not come from the database
/// driver itself. Identifiers are carried as their 128-bit values.
#[derive(Debug, Clone, PartialEq, Eq)]
pub enum StorageError {
    EmptyLeaseOwner,
    LeaseDurationOverflow,
    LeaseNotOwned(u128),
    InstallationMismatch { configured: String, stored: String },
    TokenTooShort,
    UserNotFound,
    InvalidUserProfile,
    InvalidApiKey,
    ApiKeyNotFound,
    LastApiKey,
    TooManyApiKeys,
    InvalidAuditQuery,
    OrganizationNotFound,
    LastSystemAdmin,
    LastOrganizationAdmin,
    InvalidOrganizationMembership,
    OrganizationInUse,
    UnknownRole(String),
    UnknownWorkspaceState(String),
    UnknownAccessMode(String),
    UnknownRuntimeIncidentCategory(String),
    WorkspaceNotFound,
    InvalidPortMappingPort,
    InvalidPortMappingDisplayName,
    PortMappingNotFound,
    InvalidWorkspace,
    InvalidWorkspaceInjectionRefs,
    ImageNotAllowed,
    TemplateNotFound,
    InvalidTemplate,
    InvalidPluginConfiguration,
    PluginConfigurationVersionConflict,
    PluginInspectionNotFound,
    PluginInspectionExpired,
    PluginDigestMismatch,
    PluginPackageVersionConflict,
    PluginCapabilityNotApproved,
    PluginPackageNotFound,
    PluginUiSessionInvalid,
    PluginCapacityExceeded,
    TooManyPluginInspections,
    TemplateMustBeDisabled,
    TemplateInUse,
    PrivilegedTemplateForbidden,
    InvalidIdempotencyKey,
    IdempotencyReservationLost,
    InvalidEncryptedInjection,
    UnknownInjectionScope(String),
    UnknownInjectionKind(String),
    InvalidInjectionLock,
    InvalidEvent,
    InvalidTicketTtl,
    RandomSource,
    InvalidWebhook,
    WebhookNotFound,
    Clock,
    InvalidSshIdentity,
    InvalidNodePool,
    NodePoolNotFound,
    NodePoolNotAllowed,
    NodePoolUnavailable,
    NodePoolInUse,
    SchemaUpgradeDataInvalid,
    UnsupportedDatabaseVersion,
    ExportRequiresSqlite,
    ImportRequiresPostgres,
    UnsupportedSnapshotVersion(u32),
    SnapshotInstallationMismatch { snapshot: String, configured: String },
    SnapshotSchemaTooNew(i64),
    SnapshotMissingTable(String),
    SnapshotRowInstallationMismatch { table: String },
    InvalidPluginSnapshot,
    ImportDestinationNotEmpty,
}

} // verus!
