//! Backend library for a farm-monitoring server: a little-endian binary
//! buffer codec, the device wire-protocol packets and their framing, the
//! per-connection state machine that reassembles chunked image uploads, and
//! the dispatcher that owns the device table and applies control policy.

pub mod login;
pub mod service;
pub mod signup;
pub mod utils;
pub mod web_server;
