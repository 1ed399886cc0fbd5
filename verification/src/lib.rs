//! Maintenance rules for an installed editor's persisted identity: where its
//! files live, how its credential rows and identity document are rewritten,
//! how its script is patched, and how its process is stopped and started again.

pub mod account;
pub mod backup;
pub mod commands;
pub mod error;
pub mod identity;
pub mod json;
pub mod paths;
pub mod process;
pub mod reset;
pub mod script;
pub mod store;
pub mod text;
