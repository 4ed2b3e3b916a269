//! Command patterns: a pattern with `*` (any sequence) and `?` (any
//! single character) is matched against the whole command string; a
//! pattern without wildcards must equal the command exactly.

use vstd::prelude::*;

verus! {

/// Wildcard matching of `p` against `s`, both viewed from positions
/// `pi` and `si` to their ends: `*` matches any sequence, `?` any
/// single character, everything else itself.
pub open spec fn glob_match_at(p: Seq<char>, s: Seq<char>, pi: int, si: int) -> bool
    decreases p.len() - pi, s.len() - si,
{
    if pi < 0 || si < 0 {
        false
    } else if pi >= p.len() {
        si >= s.len()
    } else if p[pi] == '*' {
        glob_match_at(p, s, pi + 1, si) || (si < s.len() && glob_match_at(p, s, pi, si + 1))
    } else if si < s.len() && (p[pi] == '?' || p[pi] == s[si]) {
        glob_match_at(p, s, pi + 1, si + 1)
    } else {
        false
    }
}

/// Whole-string wildcard matching.
pub open spec fn glob_match(p: Seq<char>, s: Seq<char>) -> bool {
    glob_match_at(p, s, 0, 0)
}

/// The pattern contains a `*` or `?` wildcard.
pub open spec fn has_wildcard(p: Seq<char>) -> bool {
    exists|i: int| 0 <= i < p.len() && (p[i] == '*' || p[i] == '?')
}

/// How a command pattern matches a command: by wildcard matching when
/// it holds a wildcard, by exact equality otherwise.
pub open spec fn pattern_matches(p: Seq<char>, command: Seq<char>) -> bool {
    if has_wildcard(p) {
        glob_match(p, command)
    } else {
        p == command
    }
}

proof fn lemma_star_from(p: Seq<char>, s: Seq<char>, si: int)
    requires
        p.len() == 1,
        p[0] == '*',
        0 <= si <= s.len(),
    ensures
        glob_match_at(p, s, 0, si),
    decreases s.len() - si,
{
    if si < s.len() {
        lemma_star_from(p, s, si + 1);
        assert(glob_match_at(p, s, 0, si + 1));
    } else {
        assert(glob_match_at(p, s, 1, si));
    }
}

/// The lone `*` pattern matches every command.
pub proof fn lemma_star_matches_everything(s: Seq<char>)
    ensures
        pattern_matches("*"@, s),
{
    reveal_strlit("*");
    assert(has_wildcard("*"@)) by {
        assert("*"@[0] == '*');
    }
    lemma_star_from("*"@, s, 0);
}

fn glob_match_from(p: &str, plen: usize, pi: usize, s: &str, slen: usize, si: usize) -> (r: bool)
    requires
        plen == p@.len(),
        slen == s@.len(),
        pi <= plen,
        si <= slen,
    ensures
        r == glob_match_at(p@, s@, pi as int, si as int),
    decreases plen - pi, slen - si,
{
    if pi >= plen {
        si >= slen
    } else {
        let pc = p.get_char(pi);
        if pc == '*' {
            if glob_match_from(p, plen, pi + 1, s, slen, si) {
                true
            } else if si < slen {
                glob_match_from(p, plen, pi, s, slen, si + 1)
            } else {
                false
            }
        } else if si < slen {
            let sc = s.get_char(si);
            if pc == '?' || pc == sc {
                glob_match_from(p, plen, pi + 1, s, slen, si + 1)
            } else {
                false
            }
        } else {
            false
        }
    }
}

/// Wildcard-matches `pattern` against the whole of `s`.
pub fn glob_matches(pattern: &str, s: &str) -> (r: bool)
    ensures
        r == glob_match(pattern@, s@),
{
    let plen: usize = pattern.unicode_len();
    let slen: usize = s.unicode_len();
    glob_match_from(pattern, plen, 0, s, slen, 0)
}

fn pattern_has_wildcard(p: &str) -> (b: bool)
    ensures
        b == has_wildcard(p@),
{
    let len: usize = p.unicode_len();
    let mut i: usize = 0;
    while i < len
        invariant
            i <= len,
            len == p@.len(),
            forall|j: int| 0 <= j < i ==> !(p@[j] == '*' || p@[j] == '?'),
        decreases len - i,
    {
        let c = p.get_char(i);
        if c == '*' || c == '?' {
            return true;
        }
        i = i + 1;
    }
    false
}

/// Matches a command pattern against the full command string:
/// wildcard matching when the pattern holds `*` or `?`, exact equality
/// otherwise.
pub fn pattern_match(pattern: &str, command: &str) -> (r: bool)
    ensures
        r == pattern_matches(pattern@, command@),
{
    if pattern_has_wildcard(pattern) {
        glob_matches(pattern, command)
    } else {
        crate::text::str_eq(pattern, command)
    }
}

} // verus!
