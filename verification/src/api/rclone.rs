//! The rclone backend: its binary, its log and its remote-control server.

pub mod install;
pub mod log;
pub mod server;
