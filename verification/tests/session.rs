use elev::auth::{
    begin_verification, process_attempt, AttemptOutcome, AttemptResult, AuthState, VerifyGate,
};
use elev::util::{format_auth_timestamp, parse_auth_timestamp};
use elev::ElevError;

fn fresh(timeout: u64, last: Option<u64>, failed: u32, lockout: Option<u64>) -> AuthState {
    AuthState::new(
        timeout,
        "alice".to_string(),
        Vec::new(),
        Vec::new(),
        last,
        failed,
        lockout,
    )
}

#[test]
fn session_without_proof_is_never_valid() {
    let s = fresh(60, None, 0, None);
    assert!(!s.check_timeout(0));
    assert!(!s.check_timeout(1));
    assert!(!s.check_timeout(u64::MAX));
}

#[test]
fn fifth_failure_locks_for_exactly_900_seconds() {
    let mut s = fresh(60, None, 4, None);
    s.increment_failed_attempts(1000);
    assert_eq!(s.failed_attempts, 5);
    assert_eq!(s.lockout_until, Some(1900));
    assert!(s.check_lockout(1000));
    assert!(s.check_lockout(1899));
    assert!(!s.check_lockout(1900));
    assert!(!s.check_lockout(1901));
}

#[test]
fn earlier_failures_do_not_lock() {
    let mut s = fresh(60, None, 0, None);
    for n in 0..4 {
        s.increment_failed_attempts(100 + n);
        assert!(!s.check_lockout(100 + n));
    }
    assert_eq!(s.failed_attempts, 4);
    assert_eq!(s.lockout_until, None);
}

#[test]
fn failures_after_the_threshold_do_not_extend_the_lockout() {
    let mut s = fresh(60, None, 5, Some(100));
    assert!(!s.check_lockout(200));
    s.increment_failed_attempts(200);
    assert_eq!(s.failed_attempts, 6);
    assert_eq!(s.lockout_until, Some(100));
    assert!(!s.check_lockout(200));
}

#[test]
fn success_resets_failures_and_is_immediately_valid() {
    let mut s = fresh(60, None, 3, None);
    s.update_last_authenticated(500);
    assert_eq!(s.failed_attempts, 0);
    assert_eq!(s.last_authenticated, Some(500));
    assert!(s.check_timeout(500));
    assert!(s.check_timeout(559));
    assert!(!s.check_timeout(560));
}

#[test]
fn timestamp_survives_the_persistence_round_trip() {
    let written = format_auth_timestamp(1700000000);
    assert_eq!(written, "1700000000".to_string());
    assert_eq!(parse_auth_timestamp(&written), Some(1700000000));
    assert_eq!(parse_auth_timestamp(" 1700000000\n"), Some(1700000000));
    let reloaded = fresh(60, parse_auth_timestamp(&written), 0, None);
    assert!(reloaded.check_timeout(1700000000 + 59));
    assert!(!reloaded.check_timeout(1700000000 + 60));
    assert!(!reloaded.check_timeout(1700000000 - 1));
}

#[test]
fn malformed_persisted_records_parse_to_nothing() {
    assert_eq!(parse_auth_timestamp(""), None);
    assert_eq!(parse_auth_timestamp("  \n"), None);
    assert_eq!(parse_auth_timestamp("12x4"), None);
    assert_eq!(parse_auth_timestamp("99999999999999999999999"), None);
}

#[test]
fn three_rejections_abort_one_invocation_and_five_lock_the_account() {
    // First invocation: three consecutive rejections exhaust the retry
    // budget without reaching the lockout threshold.
    let mut inv1 = fresh(60, None, 0, None);
    assert_eq!(begin_verification(true, &inv1, 0), VerifyGate::Prompt);
    assert_eq!(
        process_attempt(&mut inv1, 0, AttemptOutcome::Rejected, 10),
        AttemptResult::Retry
    );
    assert_eq!(
        process_attempt(&mut inv1, 1, AttemptOutcome::Rejected, 11),
        AttemptResult::Retry
    );
    assert_eq!(
        process_attempt(&mut inv1, 2, AttemptOutcome::Rejected, 12),
        AttemptResult::Failed(ElevError::AuthenticationFailed)
    );
    assert_eq!(inv1.failed_attempts, 3);
    assert!(!inv1.check_lockout(12));

    // Second invocation, counter carried over: the fourth failure.
    let mut inv2 = fresh(60, None, inv1.failed_attempts, inv1.lockout_until);
    assert_eq!(begin_verification(true, &inv2, 20), VerifyGate::Prompt);
    assert_eq!(
        process_attempt(&mut inv2, 0, AttemptOutcome::Rejected, 20),
        AttemptResult::Retry
    );
    assert_eq!(inv2.failed_attempts, 4);
    assert!(!inv2.check_lockout(20));

    // Third invocation: the fifth failure locks the account.
    let mut inv3 = fresh(60, None, inv2.failed_attempts, inv2.lockout_until);
    assert_eq!(begin_verification(true, &inv3, 30), VerifyGate::Prompt);
    assert_eq!(
        process_attempt(&mut inv3, 0, AttemptOutcome::Rejected, 30),
        AttemptResult::Failed(ElevError::AccountLocked)
    );
    assert_eq!(inv3.failed_attempts, 5);
    assert_eq!(inv3.lockout_until, Some(930));

    // A fourth invocation within the window is gated off before any
    // prompt; after the window it may prompt again.
    let inv4 = fresh(60, None, inv3.failed_attempts, inv3.lockout_until);
    assert_eq!(begin_verification(true, &inv4, 31), VerifyGate::Locked);
    assert_eq!(begin_verification(true, &inv4, 930), VerifyGate::Prompt);
}

#[test]
fn verification_is_skipped_when_no_password_is_required() {
    let s = fresh(60, None, 0, None);
    assert_eq!(begin_verification(false, &s, 0), VerifyGate::Skip);
}

#[test]
fn successful_attempt_grants_and_updates_the_session() {
    let mut s = fresh(60, None, 2, None);
    assert_eq!(
        process_attempt(&mut s, 0, AttemptOutcome::Verified, 100),
        AttemptResult::Granted
    );
    assert_eq!(s.failed_attempts, 0);
    assert_eq!(s.last_authenticated, Some(100));
    assert!(s.check_timeout(100));
}

#[test]
fn empty_secret_aborts_without_counting_a_failure() {
    let mut s = fresh(60, None, 1, None);
    assert_eq!(
        process_attempt(&mut s, 0, AttemptOutcome::EmptySecret, 100),
        AttemptResult::Failed(ElevError::AuthenticationFailed)
    );
    assert_eq!(s.failed_attempts, 1);
    assert_eq!(s.lockout_until, None);
}

#[test]
fn backend_failure_aborts_without_counting_a_failure() {
    let mut s = fresh(60, None, 1, None);
    assert_eq!(
        process_attempt(&mut s, 0, AttemptOutcome::BackendError, 100),
        AttemptResult::Failed(ElevError::AuthenticationFailed)
    );
    assert_eq!(s.failed_attempts, 1);
}

#[test]
fn construction_discards_an_unjustified_lockout() {
    let s = fresh(60, None, 2, Some(5000));
    assert_eq!(s.lockout_until, None);
    assert!(!s.check_lockout(0));
    let kept = fresh(60, None, 5, Some(5000));
    assert_eq!(kept.lockout_until, Some(5000));
    assert!(kept.check_lockout(4999));
}

#[test]
fn invalidate_forgets_the_session() {
    let mut s = fresh(60, Some(100), 5, Some(5000));
    s.invalidate();
    assert_eq!(s.last_authenticated, None);
    assert_eq!(s.failed_attempts, 0);
    assert_eq!(s.lockout_until, None);
    assert!(!s.check_timeout(100));
}

#[test]
fn construction_keeps_identity_and_settings() {
    let s = AuthState::new(
        120,
        "alice".to_string(),
        vec!["adm".to_string()],
        vec!["ops".to_string()],
        Some(7),
        1,
        None,
    );
    assert_eq!(s.timeout, 120);
    assert_eq!(s.username, "alice".to_string());
    assert_eq!(s.groups, vec!["adm".to_string()]);
    assert_eq!(s.roles, vec!["ops".to_string()]);
    assert_eq!(s.last_authenticated, Some(7));
    assert_eq!(s.failed_attempts, 1);
}
