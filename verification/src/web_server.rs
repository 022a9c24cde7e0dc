//! Response shapes of the HTTP control plane.  The routing, serialization
//! and transport live outside the library; only the data carried is
//! defined here.

use vstd::prelude::*;

verus! {

/// Body of every control-plane reply.
#[derive(Debug, Clone, PartialEq, Eq)]
pub enum BackendResponse {
    Success,
    AccessToken(String),
    PasswordChallenge(String),
    DeviceId(String),
    Error(String),
}

/// Body of a device-id request: the region the new device is placed in.
pub struct IdRequest {
    pub region: String,
}

} // verus!
