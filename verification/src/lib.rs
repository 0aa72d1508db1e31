//! Verified core of an automatic backup tool: configuration handling, backup
//! file naming and recognition, rotation of old backups, archive layout
//! decisions and the text the tool reports.

pub mod config;
pub mod naming;
pub mod rotation;
pub mod text;
pub mod context;
pub mod archive;
pub mod run;
