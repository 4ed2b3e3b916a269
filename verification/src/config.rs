//! The rule and role store and the policy decision engine: policy
//! statements with subject, target, command and role predicates plus a
//! priority, and the evaluation that decides whether a request is
//! permitted.

use vstd::prelude::*;

use crate::pattern::pattern_match;
use crate::text::slice_contains_str;
use crate::text::str_views;
use crate::text::vec_contains_str;
use crate::pattern::pattern_matches;

verus! {

/// The views of a list of rules.
pub open spec fn rule_views(xs: Seq<Rule>) -> Seq<RuleV> {
    xs.map_values(|r: Rule| r@)
}

/// The views of a list of role definitions.
pub open spec fn role_views(xs: Seq<RoleDef>) -> Seq<RoleDefV> {
    xs.map_values(|d: RoleDef| d@)
}

/// A single policy statement.
///
/// A rule with no predicates at all matches every request, acting as a
/// catch-all at its priority tier. A subject of `*` (user or group) is
/// a wildcard, like an absent subject.
pub struct Rule {
    /// Required acting user, or any if absent.
    pub user: Option<String>,
    /// Required OS group of the acting user, or any if absent.
    pub group: Option<String>,
    /// Required target identity, or any if absent.
    pub as_user: Option<String>,
    /// Pattern the full command string must match, or any if absent.
    pub cmd_pattern: Option<String>,
    /// Higher priorities are evaluated first; the default is 0.
    pub priority: u64,
    /// The acting user must hold at least one of these roles, if present.
    pub allowed_roles: Option<Vec<String>>,
    /// Whether a match denies (true) or allows (false) the request.
    pub deny: bool,
}

/// The mathematical content of a [`Rule`]: the same fields over
/// character sequences.
pub ghost struct RuleV {
    pub user: Option<Seq<char>>,
    pub group: Option<Seq<char>>,
    pub as_user: Option<Seq<char>>,
    pub cmd_pattern: Option<Seq<char>>,
    pub priority: u64,
    pub allowed_roles: Option<Seq<Seq<char>>>,
    pub deny: bool,
}

impl View for Rule {
    type V = RuleV;

    open spec fn view(&self) -> RuleV {
        RuleV {
            user: self.user.deep_view(),
            group: self.group.deep_view(),
            as_user: self.as_user.deep_view(),
            cmd_pattern: self.cmd_pattern.deep_view(),
            priority: self.priority,
            allowed_roles: self.allowed_roles.deep_view(),
            deny: self.deny,
        }
    }
}

/// A named role: a member list, with an optional eligibility window
/// given as start and end minutes of the day, both inclusive.
pub struct RoleDef {
    pub name: String,
    pub members: Vec<String>,
    pub window: Option<(u16, u16)>,
}

/// The mathematical content of a [`RoleDef`].
pub ghost struct RoleDefV {
    pub name: Seq<char>,
    pub members: Seq<Seq<char>>,
    pub window: Option<(u16, u16)>,
}

impl View for RoleDef {
    type V = RoleDefV;

    open spec fn view(&self) -> RoleDefV {
        RoleDefV {
            name: self.name@,
            members: self.members.deep_view(),
            window: self.window,
        }
    }
}

/// The loaded policy: rules in declaration order, global defaults, and
/// the role table.
pub struct Config {
    pub rules: Vec<Rule>,
    /// Seconds for which a proof of authentication stays valid.
    pub timeout: u64,
    /// Whether authentication is required at all.
    pub password_required: bool,
    pub roles: Vec<RoleDef>,
}

/// The mathematical content of a [`Config`].
pub ghost struct ConfigV {
    pub rules: Seq<RuleV>,
    pub timeout: u64,
    pub password_required: bool,
    pub roles: Seq<RoleDefV>,
}

impl View for Config {
    type V = ConfigV;

    open spec fn view(&self) -> ConfigV {
        ConfigV {
            rules: rule_views(self.rules@),
            timeout: self.timeout,
            password_required: self.password_required,
            roles: role_views(self.roles@),
        }
    }
}

/// One request to be decided: who asks, with which OS groups and
/// resolved roles, as whom, and for which command.
pub ghost struct RequestV {
    pub user: Seq<char>,
    pub groups: Seq<Seq<char>>,
    pub target: Seq<char>,
    pub command: Seq<char>,
    pub roles: Seq<Seq<char>>,
}

/// The subject predicate: satisfied when the rule names neither a user
/// nor a group, or when a named side matches the actor (`*` matches
/// anyone). Naming both user and group is an inclusive-or.
pub open spec fn subject_matches(r: RuleV, q: RequestV) -> bool {
    ||| (r.user is None && r.group is None)
    ||| (r.user matches Some(u) && (u == "*"@ || u == q.user))
    ||| (r.group matches Some(g) && (g == "*"@ || q.groups.contains(g)))
}

/// Whether a rule matches a request: the conjunction of its subject,
/// role, target and command predicates; absent predicates hold.
pub open spec fn rule_matches(r: RuleV, q: RequestV) -> bool {
    &&& subject_matches(r, q)
    &&& (r.allowed_roles matches Some(req) ==> exists|i: int|
        0 <= i < q.roles.len() && req.contains(#[trigger] q.roles[i]))
    &&& (r.as_user matches Some(t) ==> t == q.target)
    &&& (r.cmd_pattern matches Some(p) ==> pattern_matches(p, q.command))
}

/// The rule at index `i` exists and matches the request.
pub open spec fn matches_at(rules: Seq<RuleV>, q: RequestV, i: int) -> bool {
    0 <= i < rules.len() && rule_matches(rules[i], q)
}

/// The rule at index `i` is the one that decides the request: it
/// matches, and it precedes every other matching rule in the
/// evaluation order (descending priority, declaration order as the
/// tie-break).
pub open spec fn wins_at(rules: Seq<RuleV>, q: RequestV, i: int) -> bool {
    &&& matches_at(rules, q, i)
    &&& forall|j: int| #[trigger]
        matches_at(rules, q, j) ==> rules[i].priority > rules[j].priority || (rules[i].priority
            == rules[j].priority && i <= j)
}

/// The decision: permitted exactly when some rule wins and its effect
/// is allow. When no rule matches, nothing wins and the request is
/// denied.
pub open spec fn spec_permitted(rules: Seq<RuleV>, q: RequestV) -> bool {
    exists|i: int| #[trigger] wins_at(rules, q, i) && !rules[i].deny
}

/// An empty rule of the given effect: no predicates, priority 0.
pub open spec fn rule_base(deny: bool) -> RuleV {
    RuleV {
        user: None,
        group: None,
        as_user: None,
        cmd_pattern: None,
        priority: 0,
        allowed_roles: None,
        deny,
    }
}

/// The subject token applied to a rule: a leading `:` names a group,
/// anything else a user.
pub open spec fn rule_with_subject(base: RuleV, subj: Seq<char>) -> RuleV {
    if subj.len() > 0 && subj[0] == ':' {
        RuleV {
            user: base.user,
            group: Some(subj.skip(1)),
            as_user: base.as_user,
            cmd_pattern: base.cmd_pattern,
            priority: base.priority,
            allowed_roles: base.allowed_roles,
            deny: base.deny,
        }
    } else {
        RuleV {
            user: Some(subj),
            group: base.group,
            as_user: base.as_user,
            cmd_pattern: base.cmd_pattern,
            priority: base.priority,
            allowed_roles: base.allowed_roles,
            deny: base.deny,
        }
    }
}

/// Scanning the option tokens of a rule line from position `i`: each
/// recognized keyword (`as`, `cmd`, `priority`, `roles`) followed by a
/// value token sets the corresponding field, later occurrences
/// overriding earlier ones; unknown tokens are ignored. An unparsable
/// priority counts as 0.
pub open spec fn scan_rule_opts(toks: Seq<Seq<char>>, i: int, r: RuleV) -> RuleV
    decreases toks.len() - i,
{
    if i < 0 || i >= toks.len() {
        r
    } else if toks[i] == "as"@ && i + 1 < toks.len() {
        scan_rule_opts(
            toks,
            i + 2,
            RuleV {
                user: r.user,
                group: r.group,
                as_user: Some(toks[i + 1]),
                cmd_pattern: r.cmd_pattern,
                priority: r.priority,
                allowed_roles: r.allowed_roles,
                deny: r.deny,
            },
        )
    } else if toks[i] == "cmd"@ && i + 1 < toks.len() {
        scan_rule_opts(
            toks,
            i + 2,
            RuleV {
                user: r.user,
                group: r.group,
                as_user: r.as_user,
                cmd_pattern: Some(toks[i + 1]),
                priority: r.priority,
                allowed_roles: r.allowed_roles,
                deny: r.deny,
            },
        )
    } else if toks[i] == "priority"@ && i + 1 < toks.len() {
        scan_rule_opts(
            toks,
            i + 2,
            RuleV {
                user: r.user,
                group: r.group,
                as_user: r.as_user,
                cmd_pattern: r.cmd_pattern,
                priority: match crate::text::parse_u64_spec(toks[i + 1]) {
                    Some(p) => p,
                    None => 0,
                },
                allowed_roles: r.allowed_roles,
                deny: r.deny,
            },
        )
    } else if toks[i] == "roles"@ && i + 1 < toks.len() {
        scan_rule_opts(
            toks,
            i + 2,
            RuleV {
                user: r.user,
                group: r.group,
                as_user: r.as_user,
                cmd_pattern: r.cmd_pattern,
                priority: r.priority,
                allowed_roles: Some(crate::text::split_of(toks[i + 1], ',')),
                deny: r.deny,
            },
        )
    } else {
        scan_rule_opts(toks, i + 1, r)
    }
}

/// What parsing a rule line yields: the first token must be `allow` or
/// `deny`; the second token, if any, is the subject; the rest are
/// scanned as options. Any other line is no rule.
pub open spec fn parse_rule_spec(toks: Seq<Seq<char>>) -> Option<RuleV> {
    if toks.len() == 0 {
        None
    } else if toks[0] == "deny"@ || toks[0] == "allow"@ {
        let deny = toks[0] == "deny"@;
        if toks.len() == 1 {
            Some(rule_base(deny))
        } else {
            Some(scan_rule_opts(toks, 2, rule_with_subject(rule_base(deny), toks[1])))
        }
    } else {
        None
    }
}

/// What parsing a role line yields: `role <name> <m1,m2,...>` with an
/// optional trailing `HH:MM-HH:MM` window; a malformed window leaves
/// the role without one.
pub open spec fn parse_role_spec(toks: Seq<Seq<char>>) -> Option<RoleDefV> {
    if toks.len() >= 3 && toks[0] == "role"@ {
        Some(
            RoleDefV {
                name: toks[1],
                members: crate::text::split_of(toks[2], ','),
                window: if toks.len() >= 4 {
                    crate::text::parse_window_spec(toks[3])
                } else {
                    None
                },
            },
        )
    } else {
        None
    }
}

/// The index of the first role with the given name at or after `i`, or
/// -1 if there is none.
pub open spec fn role_index_from(roles: Seq<RoleDefV>, name: Seq<char>, i: int) -> int
    decreases roles.len() - i,
{
    if i < 0 || i >= roles.len() {
        -1
    } else if roles[i].name == name {
        i
    } else {
        role_index_from(roles, name, i + 1)
    }
}

/// The index of the first role with the given name, or -1.
pub open spec fn role_index(roles: Seq<RoleDefV>, name: Seq<char>) -> int {
    role_index_from(roles, name, 0)
}

/// A role definition added to the table: it replaces the first
/// definition of the same name, or is appended if the name is new.
pub open spec fn upsert_role_spec(roles: Seq<RoleDefV>, d: RoleDefV) -> Seq<RoleDefV> {
    let i = role_index(roles, d.name);
    if i < 0 {
        roles.push(d)
    } else {
        roles.update(i, d)
    }
}

/// The role table after the role lines among `lines` from position `i`
/// on have been applied to `acc`, in order.
pub open spec fn roles_pass(lines: Seq<Seq<char>>, i: int, acc: Seq<RoleDefV>) -> Seq<RoleDefV>
    decreases lines.len() - i,
{
    if i < 0 || i >= lines.len() {
        acc
    } else {
        match parse_role_spec(crate::text::tokens_of(lines[i])) {
            Some(d) => roles_pass(lines, i + 1, upsert_role_spec(acc, d)),
            None => roles_pass(lines, i + 1, acc),
        }
    }
}

/// The configuration after the rule and setting lines among `lines`
/// from position `i` on have been applied to `acc`: rule lines append
/// a rule, `timeout <N>` and `password_required <true|false>` lines
/// with a parsable value replace the defaults, all other lines are
/// ignored.
pub open spec fn main_pass(lines: Seq<Seq<char>>, i: int, acc: ConfigV) -> ConfigV
    decreases lines.len() - i,
{
    if i < 0 || i >= lines.len() {
        acc
    } else {
        main_pass(lines, i + 1, apply_line(crate::text::tokens_of(lines[i]), acc))
    }
}

/// One tokenized line applied to the configuration being built.
pub open spec fn apply_line(toks: Seq<Seq<char>>, acc: ConfigV) -> ConfigV {
    {
        let with_rule = match parse_rule_spec(toks) {
            Some(r) => ConfigV {
                rules: acc.rules.push(r),
                timeout: acc.timeout,
                password_required: acc.password_required,
                roles: acc.roles,
            },
            None => acc,
        };
        let with_timeout = if toks.len() >= 2 && toks[0] == "timeout"@ {
            match crate::text::parse_u64_spec(toks[1]) {
                Some(v) => ConfigV {
                    rules: with_rule.rules,
                    timeout: v,
                    password_required: with_rule.password_required,
                    roles: with_rule.roles,
                },
                None => with_rule,
            }
        } else {
            with_rule
        };
        if toks.len() >= 2 && toks[0] == "password_required"@ {
            match crate::text::parse_bool_spec(toks[1]) {
                Some(b) => ConfigV {
                    rules: with_timeout.rules,
                    timeout: with_timeout.timeout,
                    password_required: b,
                    roles: with_timeout.roles,
                },
                None => with_timeout,
            }
        } else {
            with_timeout
        }
    }
}

/// What loading a configuration text yields: the role lines build the
/// role table (a later definition of a name replaces the earlier one),
/// then the rule and setting lines build the rule list and the global
/// defaults (timeout 60 seconds, password required).
pub open spec fn parse_config_spec(src: Seq<char>) -> ConfigV {
    let lines = crate::text::split_of(src, '\n');
    let roles = roles_pass(lines, 0, Seq::empty());
    main_pass(
        lines,
        0,
        ConfigV { rules: Seq::empty(), timeout: 60, password_required: true, roles },
    )
}

/// The view of an optional rule.
pub open spec fn opt_rule_view(r: Option<Rule>) -> Option<RuleV> {
    match r {
        Some(x) => Some(x@),
        None => None,
    }
}

/// The view of an optional role definition.
pub open spec fn opt_role_view(r: Option<RoleDef>) -> Option<RoleDefV> {
    match r {
        Some(x) => Some(x@),
        None => None,
    }
}

/// A rule with no predicates at all matches every request: it is a
/// catch-all at its priority tier.
pub proof fn lemma_rule_without_predicates_matches_everything(r: RuleV, q: RequestV)
    requires
        r.user is None,
        r.group is None,
        r.as_user is None,
        r.cmd_pattern is None,
        r.allowed_roles is None,
    ensures
        rule_matches(r, q),
{
}

/// At most one rule wins a given request.
pub proof fn lemma_winner_unique(rules: Seq<RuleV>, q: RequestV, i: int, j: int)
    requires
        wins_at(rules, q, i),
        wins_at(rules, q, j),
    ensures
        i == j,
{
    assert(matches_at(rules, q, i));
    assert(matches_at(rules, q, j));
}

/// The winning rule's effect is the decision.
pub proof fn lemma_winner_determines(rules: Seq<RuleV>, q: RequestV, i: int)
    requires
        wins_at(rules, q, i),
    ensures
        spec_permitted(rules, q) <==> !rules[i].deny,
{
    if spec_permitted(rules, q) {
        let w = choose|w: int| #[trigger] wins_at(rules, q, w) && !rules[w].deny;
        lemma_winner_unique(rules, q, i, w);
    }
}

/// A matching deny rule always beats a matching allow rule of
/// strictly lower priority, whatever their declaration order: that
/// allow rule cannot be the winner.
pub proof fn lemma_deny_preempts_lower_priority_allow(
    rules: Seq<RuleV>,
    q: RequestV,
    d: int,
    a: int,
)
    requires
        matches_at(rules, q, d),
        rules[d].deny,
        matches_at(rules, q, a),
        !rules[a].deny,
        rules[a].priority < rules[d].priority,
    ensures
        !wins_at(rules, q, a),
{
}

/// Deny-override by priority: when some deny rule matches and every
/// matching allow rule has strictly lower priority, the request is
/// denied — whatever the declaration order.
pub proof fn lemma_deny_overrides(rules: Seq<RuleV>, q: RequestV, d: int)
    requires
        matches_at(rules, q, d),
        rules[d].deny,
        forall|j: int| #[trigger]
            matches_at(rules, q, j) && !rules[j].deny ==> rules[j].priority < rules[d].priority,
    ensures
        !spec_permitted(rules, q),
{
    if spec_permitted(rules, q) {
        let w = choose|w: int| #[trigger] wins_at(rules, q, w) && !rules[w].deny;
        assert(matches_at(rules, q, w));
        assert(rules[w].priority < rules[d].priority);
        assert(matches_at(rules, q, d));
    }
}

/// At equal priority the rule declared first wins: a matching rule
/// that another matching rule of the same priority precedes cannot be
/// the winner.
pub proof fn lemma_first_declared_wins(rules: Seq<RuleV>, q: RequestV, i: int, j: int)
    requires
        matches_at(rules, q, i),
        matches_at(rules, q, j),
        i < j,
        rules[i].priority == rules[j].priority,
    ensures
        !wins_at(rules, q, j),
{
}

impl Rule {
    /// Whether this rule matches the request, per the predicate
    /// conjunction of [`rule_matches`].
    pub fn matches(
        &self,
        user: &str,
        groups: &[String],
        target_user: &str,
        command: &str,
        user_roles: &[String],
    ) -> (r: bool)
        ensures
            r == rule_matches(
                self@,
                RequestV {
                    user: user@,
                    groups: str_views(groups@),
                    target: target_user@,
                    command: command@,
                    roles: str_views(user_roles@),
                },
            ),
    {
        let ghost q = RequestV {
            user: user@,
            groups: str_views(groups@),
            target: target_user@,
            command: command@,
            roles: str_views(user_roles@),
        };
        let subject_ok: bool = if self.user.is_none() && self.group.is_none() {
            true
        } else {
            let user_ok = match &self.user {
                Some(u) => crate::text::str_eq(u.as_str(), "*") || crate::text::str_eq(
                    u.as_str(),
                    user,
                ),
                None => false,
            };
            let group_ok = match &self.group {
                Some(g) => crate::text::str_eq(g.as_str(), "*") || slice_contains_str(
                    groups,
                    g.as_str(),
                ),
                None => false,
            };
            user_ok || group_ok
        };
        if !subject_ok {
            assert(!subject_matches(self@, q));
            return false;
        }
        if let Some(req) = &self.allowed_roles {
            let mut any: bool = false;
            let mut i: usize = 0;
            while i < user_roles.len()
                invariant
                    i <= user_roles@.len(),
                    q.roles == str_views(user_roles@),
                    req.deep_view() == self@.allowed_roles->0,
                    any <==> exists|k: int|
                        0 <= k < i && req.deep_view().contains(#[trigger] q.roles[k]),
                decreases user_roles@.len() - i,
            {
                if vec_contains_str(req, user_roles[i].as_str()) {
                    assert(req.deep_view().contains(q.roles[i as int]));
                    any = true;
                }
                i = i + 1;
            }
            if !any {
                return false;
            }
        }
        if let Some(t) = &self.as_user {
            if !crate::text::str_eq(t.as_str(), target_user) {
                return false;
            }
        }
        if let Some(p) = &self.cmd_pattern {
            if !pattern_match(p.as_str(), command) {
                return false;
            }
        }
        true
    }
}

/// Parses one tokenized line as a rule, if it begins with `allow` or
/// `deny`.
pub fn parse_rule(toks: &Vec<String>) -> (r: Option<Rule>)
    ensures
        opt_rule_view(r) == parse_rule_spec(toks.deep_view()),
{
    let ghost td = toks.deep_view();
    if toks.len() == 0 {
        return None;
    }
    proof {
        assert(td[0] == toks@[0]@);
    }
    let deny: bool;
    if crate::text::str_eq(toks[0].as_str(), "deny") {
        deny = true;
    } else if crate::text::str_eq(toks[0].as_str(), "allow") {
        deny = false;
    } else {
        return None;
    }
    let mut rule = Rule {
        user: None,
        group: None,
        as_user: None,
        cmd_pattern: None,
        priority: 0,
        allowed_roles: None,
        deny,
    };
    assert(rule@ == rule_base(deny));
    if toks.len() == 1 {
        return Some(rule);
    }
    proof {
        assert(td[1] == toks@[1]@);
    }
    let slen = toks[1].as_str().unicode_len();
    if slen > 0 && toks[1].as_str().get_char(0) == ':' {
        let g = toks[1].as_str().substring_char(1, slen).to_owned();
        proof {
            assert(g@ =~= td[1].skip(1));
        }
        rule.group = Some(g);
    } else {
        rule.user = Some(toks[1].clone());
    }
    assert(rule@ == rule_with_subject(rule_base(deny), td[1]));
    let ghost start_r = rule@;
    let mut i: usize = 2;
    while i < toks.len()
        invariant
            2 <= i <= toks@.len(),
            td == toks.deep_view(),
            td.len() == toks@.len(),
            scan_rule_opts(td, i as int, rule@) == scan_rule_opts(td, 2, start_r),
        decreases toks@.len() - i,
    {
        proof {
            assert(td[i as int] == toks@[i as int]@);
            if i + 1 < toks@.len() {
                assert(td[i as int + 1] == toks@[i as int + 1]@);
            }
        }
        let ghost pre = rule@;
        if crate::text::str_eq(toks[i].as_str(), "as") && i + 1 < toks.len() {
            rule.as_user = Some(toks[i + 1].clone());
            proof {
                assert(scan_rule_opts(td, i as int, pre) == scan_rule_opts(td, i + 2, rule@));
            }
            i = i + 2;
        } else if crate::text::str_eq(toks[i].as_str(), "cmd") && i + 1 < toks.len() {
            rule.cmd_pattern = Some(toks[i + 1].clone());
            proof {
                assert(scan_rule_opts(td, i as int, pre) == scan_rule_opts(td, i + 2, rule@));
            }
            i = i + 2;
        } else if crate::text::str_eq(toks[i].as_str(), "priority") && i + 1 < toks.len() {
            rule.priority = match crate::text::parse_u64(toks[i + 1].as_str()) {
                Some(v) => v,
                None => 0,
            };
            proof {
                assert(scan_rule_opts(td, i as int, pre) == scan_rule_opts(td, i + 2, rule@));
            }
            i = i + 2;
        } else if crate::text::str_eq(toks[i].as_str(), "roles") && i + 1 < toks.len() {
            rule.allowed_roles = Some(crate::text::split_sep(toks[i + 1].as_str(), ','));
            proof {
                assert(scan_rule_opts(td, i as int, pre) == scan_rule_opts(td, i + 2, rule@));
            }
            i = i + 2;
        } else {
            proof {
                assert(scan_rule_opts(td, i as int, pre) == scan_rule_opts(td, i + 1, pre));
            }
            i = i + 1;
        }
    }
    Some(rule)
}

/// Parses one tokenized line as a role definition, if it begins with
/// `role` and carries a name and a member list.
pub fn parse_role(toks: &Vec<String>) -> (r: Option<RoleDef>)
    ensures
        opt_role_view(r) == parse_role_spec(toks.deep_view()),
{
    let ghost td = toks.deep_view();
    if toks.len() >= 3 && crate::text::str_eq(toks[0].as_str(), "role") {
        proof {
            assert(td[0] == toks@[0]@);
            assert(td[1] == toks@[1]@);
            assert(td[2] == toks@[2]@);
        }
        let members = crate::text::split_sep(toks[2].as_str(), ',');
        let window: Option<(u16, u16)>;
        if toks.len() >= 4 {
            proof {
                assert(td[3] == toks@[3]@);
            }
            window = crate::text::parse_time_window(toks[3].as_str());
        } else {
            window = None;
        }
        Some(RoleDef { name: toks[1].clone(), members, window })
    } else {
        None
    }
}

fn role_position(roles: &Vec<RoleDef>, name: &str) -> (r: Option<usize>)
    ensures
        match r {
            Some(i) => 0 <= i < roles@.len() && role_index(role_views(roles@), name@) == i as int,
            None => role_index(role_views(roles@), name@) == -1,
        },
{
    let ghost rv = role_views(roles@);
    let mut i: usize = 0;
    while i < roles.len()
        invariant
            i <= roles@.len(),
            rv == role_views(roles@),
            rv.len() == roles@.len(),
            role_index(rv, name@) == role_index_from(rv, name@, i as int),
        decreases roles@.len() - i,
    {
        proof {
            assert(rv[i as int] == roles@[i as int]@);
        }
        if crate::text::str_eq(roles[i].name.as_str(), name) {
            return Some(i);
        }
        i = i + 1;
    }
    None
}

fn upsert_role(roles: &mut Vec<RoleDef>, d: RoleDef)
    ensures
        role_views(final(roles)@) == upsert_role_spec(role_views(old(roles)@), d@),
{
    let pos = role_position(roles, d.name.as_str());
    match pos {
        Some(i) => {
            roles[i] = d;
            proof {
                assert(role_views(roles@) =~= role_views(old(roles)@).update(i as int, d@));
            }
        },
        None => {
            roles.push(d);
            proof {
                assert(role_views(roles@) =~= role_views(old(roles)@).push(d@));
            }
        },
    }
}

fn quoted_msg(prefix: &str, name: &str) -> (msg: String)
    ensures
        msg@ == prefix@ + name@ + "'"@,
{
    let mut msg = prefix.to_owned();
    msg.append(name);
    msg.append("'");
    msg
}

impl Config {
    /// Loads a policy from its configuration text: role lines build
    /// the role table, `allow`/`deny` lines build the rule list in
    /// declaration order, `timeout` and `password_required` lines set
    /// the global defaults. Lines that fit none of these are dropped
    /// with a warning in `log`; references to undefined roles warn but
    /// keep the rule.
    pub fn load(source: &str, log: &mut crate::logs::LogContext) -> (cfg: Config)
        ensures
            cfg@ == parse_config_spec(source@),
            crate::logs::extends_log(*old(log), *final(log)),
    {
        let lines = crate::text::split_sep(source, '\n');
        let ghost lv = lines.deep_view();
        let mut roles: Vec<RoleDef> = Vec::new();
        let mut i: usize = 0;
        proof {
            assert(role_views(roles@) =~= Seq::<RoleDefV>::empty());
        }
        while i < lines.len()
            invariant
                i <= lines@.len(),
                lv == lines.deep_view(),
                lv.len() == lines@.len(),
                roles_pass(lv, i as int, role_views(roles@)) == roles_pass(
                    lv,
                    0,
                    Seq::<RoleDefV>::empty(),
                ),
                crate::logs::extends_log(*old(log), *log),
            decreases lines@.len() - i,
        {
            proof {
                assert(lv[i as int] == lines@[i as int]@);
            }
            let toks = crate::text::tokenize(lines[i].as_str());
            let ghost pre_roles = role_views(roles@);
            let rd = parse_role(&toks);
            match rd {
                Some(d) => {
                    let msg = quoted_msg("defined role '", d.name.as_str());
                    crate::logs::log_info(log, msg.as_str());
                    upsert_role(&mut roles, d);
                    proof {
                        assert(roles_pass(lv, i as int, pre_roles) == roles_pass(
                            lv,
                            i as int + 1,
                            role_views(roles@),
                        ));
                    }
                },
                None => {
                    proof {
                        assert(roles_pass(lv, i as int, pre_roles) == roles_pass(
                            lv,
                            i as int + 1,
                            pre_roles,
                        ));
                    }
                },
            }
            i = i + 1;
        }
        let ghost roles_v = role_views(roles@);
        let ghost init_cfg = ConfigV {
            rules: Seq::empty(),
            timeout: 60,
            password_required: true,
            roles: roles_v,
        };
        let mut rules: Vec<Rule> = Vec::new();
        let mut timeout: u64 = 60;
        let mut password_required: bool = true;
        let mut j: usize = 0;
        proof {
            assert(rule_views(rules@) =~= Seq::<RuleV>::empty());
        }
        while j < lines.len()
            invariant
                j <= lines@.len(),
                lv == lines.deep_view(),
                lv.len() == lines@.len(),
                roles_v == role_views(roles@),
                main_pass(
                    lv,
                    j as int,
                    ConfigV {
                        rules: rule_views(rules@),
                        timeout,
                        password_required,
                        roles: roles_v,
                    },
                ) == main_pass(lv, 0, init_cfg),
                crate::logs::extends_log(*old(log), *log),
            decreases lines@.len() - j,
        {
            proof {
                assert(lv[j as int] == lines@[j as int]@);
            }
            let toks = crate::text::tokenize(lines[j].as_str());
            let ghost td = toks.deep_view();
            let ghost pre_cfg = ConfigV {
                rules: rule_views(rules@),
                timeout,
                password_required,
                roles: roles_v,
            };
            let parsed = parse_rule(&toks);
            let is_rule = match &parsed {
                Some(_) => true,
                None => false,
            };
            match parsed {
                Some(rule) => {
                    if let Some(list) = &rule.allowed_roles {
                        let mut k: usize = 0;
                        while k < list.len()
                            invariant
                                crate::logs::extends_log(*old(log), *log),
                            decreases list@.len() - k,
                        {
                            if role_position(&roles, list[k].as_str()).is_none() {
                                let msg = quoted_msg(
                                    "rule references undefined role '",
                                    list[k].as_str(),
                                );
                                crate::logs::log_warn(log, msg.as_str());
                            }
                            k = k + 1;
                        }
                    }
                    let ghost pre_rules = rule_views(rules@);
                    rules.push(rule);
                    proof {
                        assert(rule_views(rules@) =~= pre_rules.push(rules@.last()@));
                    }
                },
                None => {},
            }
            let mut recognized = is_rule;
            if toks.len() >= 2 {
                proof {
                    assert(td[0] == toks@[0]@);
                    assert(td[1] == toks@[1]@);
                }
                if crate::text::str_eq(toks[0].as_str(), "timeout") {
                    proof {
                        reveal_strlit("timeout");
                        reveal_strlit("password_required");
                        assert("timeout"@.len() != "password_required"@.len());
                    }
                    recognized = true;
                    match crate::text::parse_u64(toks[1].as_str()) {
                        Some(v) => {
                            timeout = v;
                            let msg = quoted_msg("timeout set to '", toks[1].as_str());
                            crate::logs::log_info(log, msg.as_str());
                        },
                        None => {},
                    }
                } else if crate::text::str_eq(toks[0].as_str(), "password_required") {
                    recognized = true;
                    match crate::text::parse_bool(toks[1].as_str()) {
                        Some(b) => {
                            password_required = b;
                            let msg = quoted_msg("password_required set to '", toks[1].as_str());
                            crate::logs::log_info(log, msg.as_str());
                        },
                        None => {},
                    }
                }
            }
            if !recognized && toks.len() > 0 {
                let is_comment = toks[0].as_str().unicode_len() > 0 && toks[0].as_str().get_char(0)
                    == '#';
                let is_role = toks.len() >= 3 && crate::text::str_eq(toks[0].as_str(), "role");
                if !is_comment && !is_role {
                    let msg = quoted_msg("ignoring line without allow or deny: '", toks[0].as_str());
                    crate::logs::log_warn(log, msg.as_str());
                }
            }
            proof {
                assert(td == crate::text::tokens_of(lv[j as int]));
                assert(apply_line(td, pre_cfg) == ConfigV {
                    rules: rule_views(rules@),
                    timeout,
                    password_required,
                    roles: roles_v,
                });
                assert(main_pass(lv, j as int, pre_cfg) == main_pass(
                    lv,
                    j as int + 1,
                    apply_line(td, pre_cfg),
                ));
            }
            j = j + 1;
        }
        let count = crate::text::format_u64(rules.len() as u64);
        let msg = quoted_msg("loaded rules: '", count.as_str());
        crate::logs::log_info(log, msg.as_str());
        let cfg = Config { rules, timeout, password_required, roles };
        proof {
            assert(cfg@ == main_pass(lv, 0, init_cfg));
        }
        cfg
    }

    /// Decides whether `user`, holding `groups` and `user_roles`, may
    /// run `command` as `target_user`: the first matching rule in
    /// descending-priority order (declaration order breaking ties)
    /// decides, and no match means deny.
    pub fn is_permitted(
        &self,
        user: &str,
        groups: &[String],
        target_user: &str,
        command: &str,
        user_roles: &[String],
    ) -> (r: bool)
        ensures
            r == spec_permitted(
                self@.rules,
                RequestV {
                    user: user@,
                    groups: str_views(groups@),
                    target: target_user@,
                    command: command@,
                    roles: str_views(user_roles@),
                },
            ),
    {
        let ghost q = RequestV {
            user: user@,
            groups: str_views(groups@),
            target: target_user@,
            command: command@,
            roles: str_views(user_roles@),
        };
        let ghost rv = self@.rules;
        let mut best: Option<usize> = None;
        let mut i: usize = 0;
        while i < self.rules.len()
            invariant
                i <= self.rules@.len(),
                q == (RequestV {
                    user: user@,
                    groups: str_views(groups@),
                    target: target_user@,
                    command: command@,
                    roles: str_views(user_roles@),
                }),
                rv == self@.rules,
                rv.len() == self.rules@.len(),
                match best {
                    None => forall|j: int| 0 <= j < i ==> !matches_at(rv, q, j),
                    Some(b) => {
                        &&& b < i
                        &&& matches_at(rv, q, b as int)
                        &&& forall|j: int|
                            0 <= j < i && #[trigger] matches_at(rv, q, j) ==> rv[b as int].priority
                                > rv[j].priority || (rv[b as int].priority == rv[j].priority && b
                                <= j)
                    },
                },
            decreases self.rules@.len() - i,
        {
            assert(rv[i as int] == self.rules@[i as int]@);
            if self.rules[i].matches(user, groups, target_user, command, user_roles) {
                assert(matches_at(rv, q, i as int));
                match best {
                    None => {
                        best = Some(i);
                    },
                    Some(b) => {
                        if self.rules[i].priority > self.rules[b].priority {
                            assert(rv[b as int] == self.rules@[b as int]@);
                            best = Some(i);
                        }
                    },
                }
            } else {
                assert(!matches_at(rv, q, i as int));
            }
            i = i + 1;
        }
        match best {
            None => {
                assert(!spec_permitted(rv, q)) by {
                    if spec_permitted(rv, q) {
                        let w = choose|w: int| #[trigger] wins_at(rv, q, w) && !rv[w].deny;
                        assert(matches_at(rv, q, w));
                    }
                }
                false
            },
            Some(b) => {
                assert(wins_at(rv, q, b as int));
                proof {
                    lemma_winner_determines(rv, q, b as int);
                }
                assert(rv[b as int] == self.rules@[b as int]@);
                !self.rules[b].deny
            },
        }
    }
}

} // verus!
