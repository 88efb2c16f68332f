//! The Auth0 replies as the first login flow reads them.

use vstd::prelude::*;

verus! {

/// The reply to a device code request.
pub struct Auth0DeviceCodeResponse {
    pub interval: u32,
    pub device_code: String,
    pub verification_uri_complete: String,
}

/// The reply to a granted token request, with the identity token.
pub struct Auth0AccessTokenResponse {
    pub access_token: String,
    pub id_token: String,
}

} // verus!
