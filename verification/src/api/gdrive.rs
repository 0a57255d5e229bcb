//! Mirroring a shared Google Drive folder.

pub mod download;
pub mod dry_run;
pub mod job;
pub mod list;
pub mod remotes;
pub mod types;
pub mod utils;
