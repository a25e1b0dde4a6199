//! Plugins: manifest rules, the configuration they carry, and the
//! decisions taken around their execution.

pub mod error;
pub mod manifest;
pub mod package;
pub mod runtime;
pub mod schema;

pub use error::PluginError;
