//! Logging in with the Auth0 device flow.

pub mod http;

use vstd::prelude::*;

verus! {

/// The reply to a device code request.
pub struct Auth0DeviceCodeResponse {
    pub interval: u32,
    pub device_code: String,
    pub verification_uri_complete: String,
}

/// The reply to a granted token request.
pub struct Auth0AccessTokenResponse {
    pub access_token: String,
}

/// How a token request came back.
pub enum TokenPollOutcome {
    /// The token was granted.
    Granted,
    /// The server answered with this error status.
    Status(u16),
    /// The request did not reach the server, or no answer came back.
    Transport,
}

/// What the login does after a token request.
#[derive(Debug, PartialEq, Eq, Structural)]
pub enum PollAction {
    /// Read the token from the reply.
    Finish,
    /// The user has not confirmed yet: wait this many seconds, then ask again.
    Wait(u64),
    /// Report a transport error and ask again at once.
    Retry,
}

/// The decision after a token request.
pub open spec fn poll_decision(outcome: TokenPollOutcome, interval: u32) -> PollAction {
    match outcome {
        TokenPollOutcome::Granted => PollAction::Finish,
        TokenPollOutcome::Status(code) => if code == 403 {
            PollAction::Wait(interval as u64)
        } else {
            PollAction::Retry
        },
        TokenPollOutcome::Transport => PollAction::Retry,
    }
}

/// Decides what the login does after a token request: a granted token ends
/// the polling, a `403` (authorization still pending) waits for the
/// interval the device code reply gave, and every other failure is reported
/// and retried.
pub fn poll_action(outcome: TokenPollOutcome, interval: u32) -> (r: PollAction)
    ensures
        r == poll_decision(outcome, interval),
{
    match outcome {
        TokenPollOutcome::Granted => PollAction::Finish,
        TokenPollOutcome::Status(code) => if code == 403 {
            PollAction::Wait(interval as u64)
        } else {
            PollAction::Retry
        },
        TokenPollOutcome::Transport => PollAction::Retry,
    }
}

/// A `403` (authorization still pending) always waits the interval that
/// the device code reply gave, whatever that interval is.
pub proof fn law_pending_waits_interval(interval: u32)
    ensures
        poll_decision(TokenPollOutcome::Status(403), interval) == PollAction::Wait(interval as u64),
{
}

/// A granted token always ends the polling.
pub proof fn law_granted_finishes(interval: u32)
    ensures
        poll_decision(TokenPollOutcome::Granted, interval) == PollAction::Finish,
{
}

/// Every failure other than a `403` is reported and retried at once,
/// without waiting.
pub proof fn law_other_failures_retry(code: u16, interval: u32)
    requires
        code != 403,
    ensures
        poll_decision(TokenPollOutcome::Status(code), interval) == PollAction::Retry,
        poll_decision(TokenPollOutcome::Transport, interval) == PollAction::Retry,
{
}

} // verus!

