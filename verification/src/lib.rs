//! Download and sync orchestration for mirroring a shared remote folder to
//! local storage through an rclone remote-control server.
//!
//! The library decides; its caller acts. The caller performs the network
//! calls, runs the subprocesses and reads the log file, and reports what it
//! saw; the functions here build the requests, follow a job from submission
//! to its counters, read deletions out of the log, and drive the
//! authorization of a remote. They work on plain values and are verified
//! against the contracts they carry.
//!
//! A few small functions hand a value to `std`, `chrono` or `serde_json`.
//! Their documentation marks them as trusted: what their contracts say of
//! the code they call is believed, not proved.

pub mod api;
pub mod json;
pub mod order;
pub mod paths;
pub mod sidecar;
pub mod text;
pub mod utils;
