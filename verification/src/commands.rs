//! The commands of the client.

pub mod cast;
pub mod install;
pub mod login;
