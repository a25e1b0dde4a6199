//! Rules and decisions of the storage layer, apart from the queries.

pub mod admin_store;
pub mod audit_store;
pub mod error;
pub mod event_store;
pub mod idempotency;
pub mod identity;
pub mod image_policy_store;
pub mod injection_store;
pub mod installation_identity;
pub mod leases;
pub mod metrics_store;
pub mod migration;
pub mod migration_v20;
pub mod node_pool_store;
pub mod plugin_package_store;
pub mod plugin_store;
pub mod port_mappings;
pub mod runtime_incidents;
pub mod ssh_identity;
pub mod template_migration;
pub mod template_store;
pub mod template_upgrade;
pub mod transfer;

pub use error::StorageError;
