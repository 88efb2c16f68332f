//! The command line of the client.

use vstd::prelude::*;

verus! {

/// What the user asked for.
pub enum Command {
    /// Authenticate with Runebook.
    Login,
    /// Cast a spell.
    Cast { spell: String },
    /// List all available spells.
    List,
}

/// Wand~
pub struct Cli {
    pub command: Command,
}

impl Cli {
    /// Whether the command talks to the Runebook API with a stored token:
    /// casting and listing do, logging in obtains one.
    pub fn needs_authentication(&self) -> (r: bool)
        ensures
            r == !(self.command is Login),
    {
        match self.command {
            Command::Login => false,
            _ => true,
        }
    }
}

} // verus!
