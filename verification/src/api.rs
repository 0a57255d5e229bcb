//! The operations offered to the front end.

pub mod gdrive;
pub mod rclone;
