use elev::config::{parse_role, parse_rule, Config, Rule};
use elev::logs::{LogContext, LogLevel};
use elev::pattern::{glob_matches, pattern_match};
use elev::text::tokenize;
use elev::util::get_roles_for_user;

fn strs(xs: &[&str]) -> Vec<String> {
    let mut v: Vec<String> = Vec::new();
    for x in xs {
        v.push(x.to_string());
    }
    v
}

fn load(source: &str) -> Config {
    let mut log = LogContext::new();
    Config::load(source, &mut log)
}

#[test]
fn wildcard_pattern_matches_apt_but_not_yum() {
    assert!(glob_matches("/usr/bin/apt*", "/usr/bin/apt-get"));
    assert!(!glob_matches("/usr/bin/apt*", "/usr/bin/yum"));
    assert!(pattern_match("/usr/bin/apt*", "/usr/bin/apt-get"));
    assert!(!pattern_match("/usr/bin/apt*", "/usr/bin/yum"));
}

#[test]
fn pattern_edge_cases() {
    assert!(pattern_match("*", "anything at all"));
    assert!(glob_matches("", ""));
    assert!(glob_matches("*", ""));
    assert!(!glob_matches("?", ""));
    assert!(pattern_match("a?c", "abc"));
    assert!(!pattern_match("a?c", "abbc"));
    assert!(pattern_match("ls", "ls"));
    assert!(!pattern_match("ls", "lsx"));
    assert!(!pattern_match("a.b", "axb"));
}

#[test]
fn deny_with_higher_priority_wins() {
    let cfg = load("deny :wheel cmd rm priority 10\nallow :wheel cmd * priority 5\n");
    let groups = strs(&["wheel"]);
    assert!(!cfg.is_permitted("u", &groups, "root", "rm", &[]));
    assert!(cfg.is_permitted("u", &groups, "root", "ls", &[]));
}

#[test]
fn deny_wins_regardless_of_declaration_order() {
    let cfg = load("allow :wheel cmd * priority 5\ndeny :wheel cmd rm priority 10\n");
    let groups = strs(&["wheel"]);
    assert!(!cfg.is_permitted("u", &groups, "root", "rm", &[]));
    assert!(cfg.is_permitted("u", &groups, "root", "ls", &[]));
}

#[test]
fn equal_priority_first_declared_wins() {
    let denied_first = load("deny alice cmd x\nallow alice cmd x\n");
    assert!(!denied_first.is_permitted("alice", &[], "root", "x", &[]));
    let allowed_first = load("allow alice cmd x\ndeny alice cmd x\n");
    assert!(allowed_first.is_permitted("alice", &[], "root", "x", &[]));
}

#[test]
fn role_gated_rule_allows_member_only() {
    let cfg = load("role ops alice\nallow * roles ops priority 1\n");
    let alice_roles = get_roles_for_user("alice", &cfg, 0);
    assert_eq!(alice_roles, strs(&["ops"]));
    let bob_roles = get_roles_for_user("bob", &cfg, 0);
    assert!(bob_roles.is_empty());
    assert!(cfg.is_permitted("alice", &[], "root", "ls", &alice_roles));
    assert!(!cfg.is_permitted("bob", &[], "root", "ls", &bob_roles));
}

#[test]
fn no_rules_means_default_deny() {
    let cfg = load("");
    assert!(!cfg.is_permitted("alice", &[], "root", "ls", &[]));
}

#[test]
fn catch_all_allow_matches_everything() {
    let cfg = load("allow\n");
    assert!(cfg.is_permitted("anyone", &[], "whoever", "whatever", &[]));
}

#[test]
fn parse_rule_reads_all_fields() {
    let toks = tokenize("deny :wheel as root cmd rm priority 10 roles a,b");
    let rule = parse_rule(&toks).expect("a rule");
    assert!(rule.deny);
    assert_eq!(rule.user, None);
    assert_eq!(rule.group, Some("wheel".to_string()));
    assert_eq!(rule.as_user, Some("root".to_string()));
    assert_eq!(rule.cmd_pattern, Some("rm".to_string()));
    assert_eq!(rule.priority, 10);
    assert_eq!(rule.allowed_roles, Some(strs(&["a", "b"])));
}

#[test]
fn parse_rule_rejects_other_lines() {
    assert!(parse_rule(&tokenize("timeout 30")).is_none());
    assert!(parse_rule(&tokenize("# allow everything")).is_none());
    assert!(parse_rule(&tokenize("")).is_none());
}

#[test]
fn parse_rule_bare_allow_is_catch_all() {
    let rule = parse_rule(&tokenize("allow")).expect("a rule");
    assert!(!rule.deny);
    assert_eq!(rule.user, None);
    assert_eq!(rule.group, None);
    assert_eq!(rule.as_user, None);
    assert_eq!(rule.cmd_pattern, None);
    assert_eq!(rule.priority, 0);
    assert_eq!(rule.allowed_roles, None);
}

#[test]
fn unparsable_priority_counts_as_zero() {
    let rule = parse_rule(&tokenize("allow u priority abc")).expect("a rule");
    assert_eq!(rule.priority, 0);
}

#[test]
fn subject_user_predicate_is_exact() {
    let cfg = load("allow alice\n");
    assert!(cfg.is_permitted("alice", &[], "root", "ls", &[]));
    assert!(!cfg.is_permitted("bob", &[], "root", "ls", &[]));
}

#[test]
fn subject_group_predicate_requires_membership() {
    let cfg = load("allow :adm\n");
    assert!(cfg.is_permitted("u", &strs(&["adm", "users"]), "root", "ls", &[]));
    assert!(!cfg.is_permitted("u", &strs(&["users"]), "root", "ls", &[]));
}

#[test]
fn subject_naming_both_sides_is_inclusive_or() {
    let rule = Rule {
        user: Some("alice".to_string()),
        group: Some("adm".to_string()),
        as_user: None,
        cmd_pattern: None,
        priority: 0,
        allowed_roles: None,
        deny: false,
    };
    assert!(rule.matches("alice", &[], "root", "ls", &[]));
    assert!(rule.matches("bob", &strs(&["adm"]), "root", "ls", &[]));
    assert!(!rule.matches("bob", &strs(&["users"]), "root", "ls", &[]));
}

#[test]
fn star_subject_is_a_wildcard() {
    let cfg = load("allow *\n");
    assert!(cfg.is_permitted("anyone", &[], "root", "ls", &[]));
}

#[test]
fn target_predicate_must_equal_target() {
    let cfg = load("allow alice as root\n");
    assert!(cfg.is_permitted("alice", &[], "root", "ls", &[]));
    assert!(!cfg.is_permitted("alice", &[], "backup", "ls", &[]));
}

#[test]
fn settings_override_defaults() {
    let cfg = load("timeout 120\npassword_required false\n");
    assert_eq!(cfg.timeout, 120);
    assert!(!cfg.password_required);
    let defaults = load("# nothing\n");
    assert_eq!(defaults.timeout, 60);
    assert!(defaults.password_required);
}

#[test]
fn unparsable_settings_keep_defaults() {
    let cfg = load("timeout soon\npassword_required maybe\n");
    assert_eq!(cfg.timeout, 60);
    assert!(cfg.password_required);
}

#[test]
fn role_window_limits_eligibility() {
    let cfg = load("role night bob 22:00-23:59\n");
    assert_eq!(get_roles_for_user("bob", &cfg, 22 * 60 + 30), strs(&["night"]));
    assert!(get_roles_for_user("bob", &cfg, 12 * 60).is_empty());
    assert_eq!(get_roles_for_user("bob", &cfg, 22 * 60), strs(&["night"]));
    assert_eq!(get_roles_for_user("bob", &cfg, 23 * 60 + 59), strs(&["night"]));
}

#[test]
fn later_role_definition_replaces_earlier() {
    let cfg = load("role ops alice\nrole ops bob\n");
    assert!(get_roles_for_user("alice", &cfg, 0).is_empty());
    assert_eq!(get_roles_for_user("bob", &cfg, 0), strs(&["ops"]));
}

#[test]
fn parse_role_reads_members_and_window() {
    let d = parse_role(&tokenize("role ops alice,bob 08:00-17:00")).expect("a role");
    assert_eq!(d.name, "ops".to_string());
    assert_eq!(d.members, strs(&["alice", "bob"]));
    assert_eq!(d.window, Some((480, 1020)));
    let plain = parse_role(&tokenize("role ops alice")).expect("a role");
    assert_eq!(plain.window, None);
    assert!(parse_role(&tokenize("role ops")).is_none());
    assert!(parse_role(&tokenize("allow ops x")).is_none());
}

#[test]
fn malformed_window_keeps_role_without_window() {
    let cfg = load("role ops alice 25:00-26:00\n");
    assert_eq!(get_roles_for_user("alice", &cfg, 0), strs(&["ops"]));
}

#[test]
fn undefined_role_reference_warns_but_keeps_rule() {
    let mut log = LogContext::new();
    let cfg = Config::load("allow * roles nosuch\n", &mut log);
    assert_eq!(cfg.rules.len(), 1);
    let mut saw_warning = false;
    for e in &log.entries {
        if matches!(e.level, LogLevel::Warn) {
            saw_warning = true;
        }
    }
    assert!(saw_warning);
}

#[test]
fn line_without_effect_keyword_warns_and_is_dropped() {
    let mut log = LogContext::new();
    let cfg = Config::load("grant alice everything\n", &mut log);
    assert!(cfg.rules.is_empty());
    let mut saw_warning = false;
    for e in &log.entries {
        if matches!(e.level, LogLevel::Warn) {
            saw_warning = true;
        }
    }
    assert!(saw_warning);
}

#[test]
fn comments_and_blank_lines_are_ignored() {
    let mut log = LogContext::new();
    let cfg = Config::load("# a comment\n\n   \nallow alice\n", &mut log);
    assert_eq!(cfg.rules.len(), 1);
    for e in &log.entries {
        assert!(!matches!(e.level, LogLevel::Warn));
    }
}
