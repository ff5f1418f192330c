//! Access layer for a two-tier privacy-permission store: service-name
//! resolution, store selection, result merging and ordering, and guarded
//! writes, with machine-checked contracts.

pub mod catalog;
pub mod db;
pub mod diagnose;
pub mod entry;
pub mod error;
pub mod gate;
pub mod json;
pub mod query;
pub mod reader;
pub mod render;
pub mod resolve;
pub mod store;
pub mod table;
pub mod text;
pub mod writer;

pub use crate::db::TccDb;
pub use crate::entry::TccEntry;
pub use crate::error::TccError;
pub use crate::gate::DbTarget;
pub use crate::render::{auth_value_display, compact_client};
