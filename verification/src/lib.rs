//! Verified core of the `wand` command line client for Runebook: text
//! rendering of diffs and step output, decoding of channel messages, and the
//! decisions taken by the commands.

pub mod text;
pub mod util;
pub mod decimal;
pub mod style;
pub mod pusher;
pub mod http;
pub mod commands;
pub mod config;
pub mod cli;
