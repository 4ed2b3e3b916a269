use elev::auth::AuthState;
use elev::config::Config;
use elev::exec::{authorize_command, check_group_permission};
use elev::logs::{log_debug, log_error, log_info, log_warn, LogContext, LogLevel};
use elev::text::{
    format_u64, parse_bool, parse_time_of_day, parse_time_window, parse_u64, split_sep, str_eq,
    tokenize, trim,
};
use elev::util::{auth_timestamp_path, current_minutes_of_day};
use elev::ElevError;

fn strs(xs: &[&str]) -> Vec<String> {
    let mut v: Vec<String> = Vec::new();
    for x in xs {
        v.push(x.to_string());
    }
    v
}

#[test]
fn tokenize_splits_on_runs_of_blanks() {
    assert_eq!(tokenize("  a  bb\tc \r"), strs(&["a", "bb", "c"]));
    assert_eq!(tokenize(""), strs(&[]));
    assert_eq!(tokenize("   "), strs(&[]));
    assert_eq!(tokenize("one"), strs(&["one"]));
}

#[test]
fn split_sep_keeps_empty_fields() {
    assert_eq!(split_sep("a,,b", ','), strs(&["a", "", "b"]));
    assert_eq!(split_sep("", ','), strs(&[""]));
    assert_eq!(split_sep("a,", ','), strs(&["a", ""]));
    assert_eq!(split_sep("x", ','), strs(&["x"]));
}

#[test]
fn parse_u64_accepts_digits_only() {
    assert_eq!(parse_u64("0"), Some(0));
    assert_eq!(parse_u64("42"), Some(42));
    assert_eq!(parse_u64("18446744073709551615"), Some(u64::MAX));
    assert_eq!(parse_u64("18446744073709551616"), None);
    assert_eq!(parse_u64(""), None);
    assert_eq!(parse_u64("4x"), None);
    assert_eq!(parse_u64("+5"), None);
    assert_eq!(parse_u64("-5"), None);
}

#[test]
fn format_u64_writes_decimal_digits() {
    assert_eq!(format_u64(0), "0".to_string());
    assert_eq!(format_u64(7), "7".to_string());
    assert_eq!(format_u64(907), "907".to_string());
    assert_eq!(format_u64(u64::MAX), "18446744073709551615".to_string());
}

#[test]
fn format_then_parse_is_identity() {
    for n in [0u64, 1, 9, 10, 99, 1000, 123456789, u64::MAX] {
        assert_eq!(parse_u64(&format_u64(n)), Some(n));
    }
}

#[test]
fn trim_removes_surrounding_blanks() {
    assert_eq!(trim("  x \n"), "x".to_string());
    assert_eq!(trim(""), "".to_string());
    assert_eq!(trim(" \t\r\n"), "".to_string());
    assert_eq!(trim("a b"), "a b".to_string());
}

#[test]
fn time_of_day_parses_hours_and_minutes() {
    assert_eq!(parse_time_of_day("09:30"), Some(570));
    assert_eq!(parse_time_of_day("9:30"), Some(570));
    assert_eq!(parse_time_of_day("00:00"), Some(0));
    assert_eq!(parse_time_of_day("23:59"), Some(1439));
    assert_eq!(parse_time_of_day("24:00"), None);
    assert_eq!(parse_time_of_day("10:60"), None);
    assert_eq!(parse_time_of_day("aa:bb"), None);
    assert_eq!(parse_time_of_day("10"), None);
}

#[test]
fn time_window_needs_two_valid_times() {
    assert_eq!(parse_time_window("08:00-17:30"), Some((480, 1050)));
    assert_eq!(parse_time_window("8-9"), None);
    assert_eq!(parse_time_window("08:00"), None);
    assert_eq!(parse_time_window("08:00-25:00"), None);
}

#[test]
fn parse_bool_accepts_the_two_words() {
    assert_eq!(parse_bool("true"), Some(true));
    assert_eq!(parse_bool("false"), Some(false));
    assert_eq!(parse_bool("True"), None);
    assert_eq!(parse_bool(""), None);
}

#[test]
fn str_eq_compares_contents() {
    assert!(str_eq("", ""));
    assert!(str_eq("abc", "abc"));
    assert!(!str_eq("abc", "abd"));
    assert!(!str_eq("abc", "ab"));
}

#[test]
fn timestamp_path_names_the_user() {
    assert_eq!(auth_timestamp_path("alice"), "/run/elev/auth-alice.ts".to_string());
}

#[test]
fn group_permission_checks_membership() {
    let groups = strs(&["users", "adm"]);
    assert!(check_group_permission(&groups, "adm"));
    assert!(!check_group_permission(&groups, "wheel"));
}

#[test]
fn authorize_command_reports_each_refusal() {
    let mut log = LogContext::new();
    let deny_all = Config::load("", &mut log);
    let allow_all = Config::load("allow *\n", &mut log);
    let unproven = AuthState::new(
        60,
        "alice".to_string(),
        Vec::new(),
        Vec::new(),
        None,
        0,
        None,
    );
    let proven = AuthState::new(
        60,
        "alice".to_string(),
        Vec::new(),
        Vec::new(),
        Some(100),
        0,
        None,
    );
    assert_eq!(
        authorize_command(&deny_all, &proven, "root", "ls", 100),
        Err(ElevError::PermissionDenied)
    );
    assert_eq!(
        authorize_command(&allow_all, &unproven, "root", "ls", 100),
        Err(ElevError::SessionTimedOut)
    );
    assert_eq!(
        authorize_command(&allow_all, &proven, "root", "ls", 200),
        Err(ElevError::SessionTimedOut)
    );
    assert_eq!(authorize_command(&allow_all, &proven, "root", "ls", 100), Ok(()));
    assert_eq!(authorize_command(&allow_all, &proven, "root", "ls", 159), Ok(()));
}

#[test]
fn clock_reading_is_a_minute_of_the_day() {
    assert!(current_minutes_of_day() < 1440);
}

#[test]
fn log_context_collects_entries_in_order() {
    let mut log = LogContext::new();
    log_info(&mut log, "one");
    log_warn(&mut log, "two");
    log_error(&mut log, "three");
    log_debug(&mut log, "four");
    assert_eq!(log.entries.len(), 4);
    assert!(matches!(log.entries[0].level, LogLevel::Info));
    assert!(matches!(log.entries[1].level, LogLevel::Warn));
    assert!(matches!(log.entries[2].level, LogLevel::Error));
    assert!(matches!(log.entries[3].level, LogLevel::Debug));
    assert_eq!(log.entries[1].message, "two".to_string());
}
