//! A `sudo`-style privilege-escalation library: rule-based policy decisions
//! with priorities, roles and command patterns, plus the per-user
//! authentication session state machine (proof-of-auth timeout, retry
//! budget, failure lockout).
//!
//! The library itself is pure: file and terminal I/O, the credential
//! backend, and the actual privilege transition live in the surrounding
//! program, which hands plain values in and takes plain values back.

use vstd::prelude::*;

pub mod auth;
pub mod config;
pub mod exec;
pub mod logs;
pub mod pattern;
pub mod text;
pub mod util;

verus! {

/// The error taxonomy of an invocation. The library itself returns
/// only the policy and authentication variants; the surrounding
/// program maps configuration, privilege-transition and execution
/// failures onto the rest.
#[derive(PartialEq, Eq, Structural, Clone, Copy, Debug)]
pub enum ElevError {
    /// The policy file could not be read or parsed.
    ConfigParseError,
    /// No matching allow rule; the request is denied.
    PermissionDenied,
    /// The credential backend rejected the secret until the retry
    /// budget ran out, or an attempt aborted.
    AuthenticationFailed,
    /// The cumulative failure threshold was reached.
    AccountLocked,
    /// The proof of authentication is absent or expired; not an error
    /// in itself, but the trigger for re-authentication.
    SessionTimedOut,
    /// The target identity is missing or the identity switch failed.
    PrivilegeTransitionFailed,
    /// The command to execute was not found.
    CommandNotFound,
    /// The command was found but could not be run.
    ExecutionFailed,
}

} // verus!
