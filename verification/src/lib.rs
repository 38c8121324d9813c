//! Resolves, acquires, integrity-checks and installs the helper binaries a
//! host application depends on, and keeps the ledger of installed versions.
//!
//! The library decides and never touches the outside world. A host drives
//! it: it reads the manifest and the ledger, looks at the disk, and then
//! carries out the [`commands`] that an install [`run`] issues, reporting
//! back what happened.

pub mod assoc;
pub mod binaries_manager;
pub mod binaries_state;
pub mod commands;
pub mod digest;
pub mod embedded;
pub mod events;
pub mod extract;
pub mod filters;
pub mod hashing;
pub mod laws;
pub mod manifest;
pub mod metadata;
pub mod pipeline;
pub mod plan;
pub mod platform;
pub mod release;
pub mod run;
pub mod site;
pub mod text;
pub mod tool_table;
pub mod urls;
