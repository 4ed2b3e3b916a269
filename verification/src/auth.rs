//! The per-invocation authentication session: the proof-of-auth
//! timeout window, the cumulative failure counter with its lockout,
//! and the decision steps of the bounded retry loop. Time enters as
//! plain seconds since the epoch, so every transition is a pure
//! function of state and clock.

use vstd::prelude::*;

verus! {

/// Failures at which a lockout begins.
pub const LOCKOUT_THRESHOLD: u32 = 5;

/// Seconds a lockout lasts.
pub const LOCKOUT_SECONDS: u64 = 900;

/// Verification attempts allowed within one invocation.
pub const MAX_ATTEMPTS: u32 = 3;

/// The session state for one user, partially persisted across
/// invocations (proof timestamp, failure count, lockout end).
pub struct AuthState {
    /// Seconds since the epoch of the last successful proof, if any.
    pub last_authenticated: Option<u64>,
    /// Seconds for which a proof of authentication stays valid.
    pub timeout: u64,
    pub username: String,
    pub groups: Vec<String>,
    /// Cumulative failed verification attempts; reset by success.
    pub failed_attempts: u32,
    /// Second since the epoch at which the current lockout ends, if one is set.
    pub lockout_until: Option<u64>,
    /// Roles resolved for this user at session construction.
    pub roles: Vec<String>,
}

impl AuthState {
    /// The session invariant: a lockout is only ever set once the
    /// failure count has reached the threshold.
    pub open spec fn wf(self) -> bool {
        self.lockout_until is Some ==> self.failed_attempts >= LOCKOUT_THRESHOLD
    }

    /// The proof of authentication is still valid at `now`: a proof
    /// exists, does not lie in the future, and less than `timeout`
    /// seconds have passed since it.
    pub open spec fn timeout_ok(self, now: u64) -> bool {
        match self.last_authenticated {
            Some(t) => t <= now && now - t < self.timeout,
            None => false,
        }
    }

    /// The session is locked out at `now`: a lockout end is set and
    /// has not been reached yet.
    pub open spec fn locked_out(self, now: u64) -> bool {
        match self.lockout_until {
            Some(u) => now < u,
            None => false,
        }
    }

    /// Builds the session for one invocation from the persisted state:
    /// proof timestamp, failure count and lockout end as last written.
    /// A persisted lockout that the failure count does not justify is
    /// discarded, so the built session always satisfies [`Self::wf`].
    pub fn new(
        timeout: u64,
        username: String,
        groups: Vec<String>,
        roles: Vec<String>,
        last_authenticated: Option<u64>,
        failed_attempts: u32,
        lockout_until: Option<u64>,
    ) -> (s: AuthState)
        ensures
            s.timeout == timeout,
            s.username == username,
            s.groups == groups,
            s.roles == roles,
            s.last_authenticated == last_authenticated,
            s.failed_attempts == failed_attempts,
            s.lockout_until == (if failed_attempts >= LOCKOUT_THRESHOLD {
                lockout_until
            } else {
                None::<u64>
            }),
            s.wf(),
    {
        let lockout = if failed_attempts >= LOCKOUT_THRESHOLD {
            lockout_until
        } else {
            None
        };
        AuthState {
            last_authenticated,
            timeout,
            username,
            groups,
            failed_attempts,
            lockout_until: lockout,
            roles,
        }
    }

    /// True iff the persisted proof is still within the timeout
    /// window at `now`. A session without a proof is never valid.
    pub fn check_timeout(&self, now: u64) -> (valid: bool)
        ensures
            valid == self.timeout_ok(now),
            self.last_authenticated is None ==> !valid,
    {
        match self.last_authenticated {
            Some(t) => t <= now && now - t < self.timeout,
            None => false,
        }
    }

    /// True iff a lockout is set and `now` still lies before its end.
    pub fn check_lockout(&self, now: u64) -> (locked: bool)
        ensures
            locked == self.locked_out(now),
    {
        match self.lockout_until {
            Some(u) => now < u,
            None => false,
        }
    }

    /// Records a successful proof at `now`: the proof timestamp is set
    /// to `now`, the failure count resets to 0, and an expired lockout
    /// is cleared. Success is unreachable while locked, since the
    /// credential backend is never consulted then; hence the caller
    /// guarantees the session is not locked out.
    pub fn update_last_authenticated(&mut self, now: u64)
        requires
            !old(self).locked_out(now),
        ensures
            final(self).last_authenticated == Some(now),
            final(self).failed_attempts == 0,
            final(self).lockout_until is None,
            final(self).timeout == old(self).timeout,
            final(self).username == old(self).username,
            final(self).groups == old(self).groups,
            final(self).roles == old(self).roles,
            final(self).wf(),
            old(self).timeout > 0 ==> final(self).timeout_ok(now),
    {
        self.last_authenticated = Some(now);
        self.failed_attempts = 0;
        self.lockout_until = None;
    }

    /// Records one failed verification attempt at `now`. The failure
    /// count rises by one; the moment it reaches the threshold —
    /// exactly then, not on later failures — a lockout until
    /// `now + LOCKOUT_SECONDS` begins.
    pub fn increment_failed_attempts(&mut self, now: u64)
        requires
            old(self).failed_attempts < u32::MAX,
            now + LOCKOUT_SECONDS <= u64::MAX,
        ensures
            final(self).failed_attempts == old(self).failed_attempts + 1,
            final(self).lockout_until == (if old(self).failed_attempts + 1 == LOCKOUT_THRESHOLD {
                Some((now + LOCKOUT_SECONDS) as u64)
            } else {
                old(self).lockout_until
            }),
            final(self).last_authenticated == old(self).last_authenticated,
            final(self).timeout == old(self).timeout,
            final(self).username == old(self).username,
            final(self).groups == old(self).groups,
            final(self).roles == old(self).roles,
            old(self).wf() ==> final(self).wf(),
    {
        self.failed_attempts = self.failed_attempts + 1;
        if self.failed_attempts == LOCKOUT_THRESHOLD {
            self.lockout_until = Some(now + LOCKOUT_SECONDS);
        }
    }

    /// Forgets the session: clears the proof timestamp, the failure
    /// count and any lockout. The caller also removes the persisted
    /// record, so the next invocation must re-authenticate.
    pub fn invalidate(&mut self)
        ensures
            final(self).last_authenticated is None,
            final(self).failed_attempts == 0,
            final(self).lockout_until is None,
            final(self).timeout == old(self).timeout,
            final(self).username == old(self).username,
            final(self).groups == old(self).groups,
            final(self).roles == old(self).roles,
            final(self).wf(),
    {
        self.last_authenticated = None;
        self.failed_attempts = 0;
        self.lockout_until = None;
    }
}

/// A session with no persisted proof record is never valid: its
/// timeout check fails at every time.
pub proof fn lemma_no_proof_never_valid(s: AuthState, now: u64)
    requires
        s.last_authenticated is None,
    ensures
        !s.timeout_ok(now),
{
}

/// A lockout that began at `lock_start` holds for exactly the lockout
/// window: the session is locked at every time strictly before
/// `lock_start + LOCKOUT_SECONDS` and open again from that moment on.
pub proof fn lemma_lockout_window(s: AuthState, lock_start: u64, t: u64)
    requires
        lock_start + LOCKOUT_SECONDS <= u64::MAX,
        s.lockout_until == Some((lock_start + LOCKOUT_SECONDS) as u64),
    ensures
        s.locked_out(t) <==> t < lock_start + LOCKOUT_SECONDS,
{
}

/// A persisted proof reloaded into a fresh session yields a timeout
/// check that agrees with the elapsed time: valid exactly when the
/// stored time is not in the future and less than `timeout` seconds
/// old.
pub proof fn lemma_reloaded_proof_agrees_with_elapsed(s: AuthState, stored: u64, later: u64)
    requires
        s.last_authenticated == Some(stored),
    ensures
        s.timeout_ok(later) <==> (stored <= later && later - stored < s.timeout),
{
}

/// What one credential-verification attempt reported back.
pub enum AttemptOutcome {
    /// The backend accepted the secret.
    Verified,
    /// The backend rejected the secret.
    Rejected,
    /// The collected secret was empty or absent.
    EmptySecret,
    /// The backend itself failed (context setup or account checks).
    BackendError,
}

/// What to do before any secret is collected.
#[derive(PartialEq, Eq, Structural, Clone, Copy, Debug)]
pub enum VerifyGate {
    /// No password is required; proceed without authentication.
    Skip,
    /// The session is locked out; abort without consulting the backend.
    Locked,
    /// Collect a secret and consult the backend.
    Prompt,
}

/// The decision after one attempt.
#[derive(PartialEq, Eq, Structural, Clone, Copy, Debug)]
pub enum AttemptResult {
    /// The proof succeeded; the session has been updated.
    Granted,
    /// The attempt failed but the retry budget allows another prompt.
    Retry,
    /// The invocation's authentication is over, with this error.
    Failed(crate::ElevError),
}

/// Decides whether a secret must be collected at all: skip when no
/// password is required, abort when locked out, prompt otherwise.
pub fn begin_verification(password_required: bool, state: &AuthState, now: u64) -> (g: VerifyGate)
    ensures
        g == (if !password_required {
            VerifyGate::Skip
        } else if state.locked_out(now) {
            VerifyGate::Locked
        } else {
            VerifyGate::Prompt
        }),
{
    if !password_required {
        VerifyGate::Skip
    } else if state.check_lockout(now) {
        VerifyGate::Locked
    } else {
        VerifyGate::Prompt
    }
}

/// Applies the outcome of one verification attempt to the session,
/// when `attempts_before` attempts were already made this invocation.
///
/// A success records the proof and grants. A rejection counts one
/// failure; reaching the lockout threshold aborts with
/// `AccountLocked`, exhausting the per-invocation retry budget aborts
/// with `AuthenticationFailed`, and otherwise another prompt is
/// allowed. An empty secret or a backend failure aborts at once,
/// without counting a failure.
pub fn process_attempt(
    state: &mut AuthState,
    attempts_before: u32,
    outcome: AttemptOutcome,
    now: u64,
) -> (r: AttemptResult)
    requires
        attempts_before < MAX_ATTEMPTS,
        old(state).failed_attempts < u32::MAX,
        now + LOCKOUT_SECONDS <= u64::MAX,
        !old(state).locked_out(now),
        old(state).wf(),
    ensures
        final(state).wf(),
        final(state).timeout == old(state).timeout,
        final(state).username == old(state).username,
        final(state).groups == old(state).groups,
        final(state).roles == old(state).roles,
        match outcome {
            AttemptOutcome::Verified => {
                &&& r == AttemptResult::Granted
                &&& final(state).last_authenticated == Some(now)
                &&& final(state).failed_attempts == 0
                &&& final(state).lockout_until is None
            },
            AttemptOutcome::Rejected => {
                &&& final(state).failed_attempts == old(state).failed_attempts + 1
                &&& final(state).last_authenticated == old(state).last_authenticated
                &&& final(state).lockout_until == (if old(state).failed_attempts + 1
                    == LOCKOUT_THRESHOLD {
                    Some((now + LOCKOUT_SECONDS) as u64)
                } else {
                    old(state).lockout_until
                })
                &&& r == (if old(state).failed_attempts + 1 == LOCKOUT_THRESHOLD {
                    AttemptResult::Failed(crate::ElevError::AccountLocked)
                } else if attempts_before + 1 < MAX_ATTEMPTS {
                    AttemptResult::Retry
                } else {
                    AttemptResult::Failed(crate::ElevError::AuthenticationFailed)
                })
            },
            AttemptOutcome::EmptySecret => {
                &&& r == AttemptResult::Failed(crate::ElevError::AuthenticationFailed)
                &&& *final(state) == *old(state)
            },
            AttemptOutcome::BackendError => {
                &&& r == AttemptResult::Failed(crate::ElevError::AuthenticationFailed)
                &&& *final(state) == *old(state)
            },
        },
{
    match outcome {
        AttemptOutcome::Verified => {
            state.update_last_authenticated(now);
            AttemptResult::Granted
        },
        AttemptOutcome::Rejected => {
            state.increment_failed_attempts(now);
            if state.failed_attempts == LOCKOUT_THRESHOLD {
                AttemptResult::Failed(crate::ElevError::AccountLocked)
            } else if attempts_before + 1 < MAX_ATTEMPTS {
                AttemptResult::Retry
            } else {
                AttemptResult::Failed(crate::ElevError::AuthenticationFailed)
            }
        },
        AttemptOutcome::EmptySecret => AttemptResult::Failed(crate::ElevError::AuthenticationFailed),
        AttemptOutcome::BackendError => AttemptResult::Failed(crate::ElevError::AuthenticationFailed),
    }
}

} // verus!
