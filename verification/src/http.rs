//! Values sent with requests to the Runebook API.

use vstd::prelude::*;

verus! {

/// The `Authorization` header value that carries `access_token`.
pub fn bearer_token(access_token: &str) -> (r: String)
    ensures
        r@ == "Bearer "@ + access_token@,
{
    let mut r = String::from_str("Bearer ");
    r.append(access_token);
    r
}

} // verus!
