//! Manages the `[[bin]]` entries of a package manifest: a format-preserving
//! record section with upsert, lookup and removal, name derivation for
//! discovered entry-point files, and the reconciliation ("tidy") passes.
pub mod bin_info;
pub mod commands;
pub mod entry_point;
pub mod error;
pub mod manifest;
pub mod reconcile;
pub mod records;
mod toml_doc;
