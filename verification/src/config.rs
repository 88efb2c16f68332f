//! The stored client configuration.

use vstd::prelude::*;

verus! {

/// What the client keeps between runs.
pub struct Config {
    pub access_token: String,
}

impl Config {
    /// A configuration that holds `access_token`.
    pub fn new(access_token: String) -> (r: Config)
        ensures
            r.access_token@ == access_token@,
    {
        Config { access_token }
    }

    /// Whether a login has stored a token.
    pub fn has_access_token(&self) -> (r: bool)
        ensures
            r == (self.access_token@.len() > 0),
    {
        !self.access_token.as_str().is_empty()
    }
}

} // verus!
