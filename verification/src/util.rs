//! Utilities around the session and the role resolver: the location
//! and format of the persisted proof record, the role resolution for a
//! user at a time of day, and the clock reading the resolver needs.

use vstd::prelude::*;

use crate::config::Config;
use crate::config::RoleDefV;

verus! {

/// The location of the persisted proof record for a user.
pub fn auth_timestamp_path(user: &str) -> (p: String)
    ensures
        p@ == "/run/elev/auth-"@ + user@ + ".ts"@,
{
    let mut p = "/run/elev/auth-".to_owned();
    p.append(user);
    p.append(".ts");
    p
}

/// What a persisted proof record parses to: its text, trimmed of
/// surrounding blanks, read as a decimal number of seconds since the
/// epoch; nothing if it is not such a number.
pub open spec fn parse_timestamp_spec(s: Seq<char>) -> Option<u64> {
    crate::text::parse_u64_spec(crate::text::trim_spec(s))
}

/// Parses the text of a persisted proof record.
pub fn parse_auth_timestamp(content: &str) -> (r: Option<u64>)
    ensures
        r == parse_timestamp_spec(content@),
{
    let t = crate::text::trim(content);
    crate::text::parse_u64(t.as_str())
}

/// Writes a proof timestamp in the persisted record's format: its
/// decimal digits.
pub fn format_auth_timestamp(t: u64) -> (s: String)
    ensures
        s@ == crate::text::dec_digits(t as int),
{
    crate::text::format_u64(t)
}

/// Round trip through the persisted record: a timestamp written as its
/// decimal digits parses back to the same value.
pub proof fn lemma_timestamp_round_trip(t: u64)
    ensures
        parse_timestamp_spec(crate::text::dec_digits(t as int)) == Some(t),
{
    crate::text::lemma_dec_digits_value(t as int);
    let d = crate::text::dec_digits(t as int);
    assert(!crate::text::is_trim_space(d[0]));
    assert(crate::text::trim_front(d) == d);
    assert(!crate::text::is_trim_space(d.last()));
    assert(crate::text::trim_back(d) == d);
}

/// A role applies to `user` at minute `now_min` of the day: the user
/// is a member, and the eligibility window, if any, contains the
/// minute (both bounds inclusive).
pub open spec fn role_applies(d: RoleDefV, user: Seq<char>, now_min: u16) -> bool {
    &&& d.members.contains(user)
    &&& match d.window {
        Some(w) => w.0 <= now_min && now_min <= w.1,
        None => true,
    }
}

/// The names of the roles among `roles` from index `i` on that apply
/// to `user` at minute `now_min`, in table order.
pub open spec fn roles_for_from(
    roles: Seq<RoleDefV>,
    user: Seq<char>,
    now_min: u16,
    i: int,
) -> Seq<Seq<char>>
    decreases roles.len() - i,
{
    if i < 0 || i >= roles.len() {
        Seq::empty()
    } else if role_applies(roles[i], user, now_min) {
        seq![roles[i].name] + roles_for_from(roles, user, now_min, i + 1)
    } else {
        roles_for_from(roles, user, now_min, i + 1)
    }
}

/// The names of all roles that apply to `user` at minute `now_min`.
pub open spec fn roles_for(roles: Seq<RoleDefV>, user: Seq<char>, now_min: u16) -> Seq<Seq<char>> {
    roles_for_from(roles, user, now_min, 0)
}

/// Resolves the roles `username` holds under `config` at minute
/// `now_minutes` of the day: every role whose member list names the
/// user and whose eligibility window, if any, contains the minute.
pub fn get_roles_for_user(username: &str, config: &Config, now_minutes: u16) -> (r: Vec<String>)
    ensures
        r.deep_view() == roles_for(config@.roles, username@, now_minutes),
{
    let ghost rv = config@.roles;
    let mut r: Vec<String> = Vec::new();
    let mut i: usize = 0;
    proof {
        assert(r.deep_view() =~= Seq::<Seq<char>>::empty());
    }
    while i < config.roles.len()
        invariant
            i <= config.roles@.len(),
            rv == config@.roles,
            rv.len() == config.roles@.len(),
            r.deep_view() + roles_for_from(rv, username@, now_minutes, i as int) == roles_for(
                rv,
                username@,
                now_minutes,
            ),
        decreases config.roles@.len() - i,
    {
        proof {
            assert(rv[i as int] == config.roles@[i as int]@);
        }
        let ghost pre_dv = r.deep_view();
        let role = &config.roles[i];
        let member = crate::text::vec_contains_str(&role.members, username);
        let window_ok = match role.window {
            Some(w) => w.0 <= now_minutes && now_minutes <= w.1,
            None => true,
        };
        if member && window_ok {
            r.push(role.name.clone());
            proof {
                assert(r.deep_view() =~= pre_dv.push(rv[i as int].name));
                assert(pre_dv + (seq![rv[i as int].name] + roles_for_from(
                    rv,
                    username@,
                    now_minutes,
                    i as int + 1,
                )) =~= r.deep_view() + roles_for_from(rv, username@, now_minutes, i as int + 1));
            }
        } else {
            assert(!role_applies(rv[i as int], username@, now_minutes));
        }
        i = i + 1;
    }
    proof {
        assert(roles_for_from(rv, username@, now_minutes, i as int) =~= Seq::<Seq<char>>::empty());
        assert(r.deep_view() =~= r.deep_view() + Seq::<Seq<char>>::empty());
    }
    r
}

/// Relies on chrono's `Local::now`, `DateTime::time`, and the
/// `Timelike` accessors `hour` and `minute`: the hour of a valid time
/// is below 24 and the minute below 60. What the clock reads depends
/// on the machine, so nothing more is stated.
#[verifier::external_body]
fn local_time_of_day() -> (hm: (u32, u32))
    ensures
        hm.0 < 24,
        hm.1 < 60,
{
    let t = chrono::Local::now().time();
    (chrono::Timelike::hour(&t), chrono::Timelike::minute(&t))
}

/// The local wall-clock time, as the minute of the day, for role
/// eligibility windows. The value depends on the system clock and
/// time zone; it is always below 1440.
pub fn current_minutes_of_day() -> (m: u16)
    ensures
        m < 1440,
{
    let (h, min) = local_time_of_day();
    (h * 60 + min) as u16
}

} // verus!
