//! Text helpers used when a Kubernetes diff is shown.

pub mod color;
pub mod fmt;
