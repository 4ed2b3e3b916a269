//! Text utilities for the line-oriented policy grammar: whitespace
//! tokenization, separator splitting, string equality, and decimal
//! parsing/formatting. All of them are specified against sequence-level
//! functions so the parser's contracts can speak about the source text.

use vstd::prelude::*;

verus! {

/// Blank characters inside a line: space, tab, and carriage return
/// (so that CRLF line endings are harmless).
pub open spec fn is_space(c: char) -> bool {
    c == ' ' || c == '\t' || c == '\r'
}

fn is_space_char(c: char) -> (b: bool)
    ensures
        b == is_space(c),
{
    c == ' ' || c == '\t' || c == '\r'
}

/// Tokenization state machine: scanning `s` from position `i` with the
/// partial token `cur` and the tokens `acc` already emitted. Runs of
/// non-blank characters become tokens; blanks separate them.
pub open spec fn tokens_from(s: Seq<char>, i: int, cur: Seq<char>, acc: Seq<Seq<char>>) -> Seq<
    Seq<char>,
>
    decreases s.len() - i,
{
    if i < 0 || i >= s.len() {
        if cur.len() == 0 {
            acc
        } else {
            acc.push(cur)
        }
    } else if is_space(s[i]) {
        if cur.len() == 0 {
            tokens_from(s, i + 1, Seq::empty(), acc)
        } else {
            tokens_from(s, i + 1, Seq::empty(), acc.push(cur))
        }
    } else {
        tokens_from(s, i + 1, cur.push(s[i]), acc)
    }
}

/// The whitespace-separated tokens of a line, in order.
pub open spec fn tokens_of(s: Seq<char>) -> Seq<Seq<char>> {
    tokens_from(s, 0, Seq::empty(), Seq::empty())
}

/// Splits a line into its whitespace-separated tokens.
pub fn tokenize(s: &str) -> (toks: Vec<String>)
    ensures
        toks.deep_view() == tokens_of(s@),
{
    let len: usize = s.unicode_len();
    let mut toks: Vec<String> = Vec::new();
    let mut i: usize = 0;
    let mut start: usize = 0;
    proof {
        assert(s@.subrange(0, 0) =~= Seq::<char>::empty());
        assert(toks.deep_view() =~= Seq::<Seq<char>>::empty());
    }
    while i < len
        invariant
            i <= len,
            start <= i,
            len == s@.len(),
            tokens_from(s@, i as int, s@.subrange(start as int, i as int), toks.deep_view())
                == tokens_of(s@),
        decreases len - i,
    {
        let ghost pre_dv = toks.deep_view();
        let ghost cur_seq = s@.subrange(start as int, i as int);
        let c = s.get_char(i);
        if is_space_char(c) {
            if start < i {
                let tok = s.substring_char(start, i).to_owned();
                toks.push(tok);
                proof {
                    assert(cur_seq.len() > 0);
                    assert(toks.deep_view() =~= pre_dv.push(cur_seq));
                    assert(tokens_from(s@, i as int, cur_seq, pre_dv) == tokens_from(
                        s@,
                        (i + 1) as int,
                        Seq::empty(),
                        pre_dv.push(cur_seq),
                    ));
                }
            } else {
                proof {
                    assert(cur_seq.len() == 0);
                    assert(tokens_from(s@, i as int, cur_seq, pre_dv) == tokens_from(
                        s@,
                        (i + 1) as int,
                        Seq::empty(),
                        pre_dv,
                    ));
                }
            }
            start = i + 1;
            proof {
                assert(s@.subrange((i + 1) as int, (i + 1) as int) =~= Seq::<char>::empty());
            }
        } else {
            proof {
                assert(s@.subrange(start as int, (i + 1) as int) =~= cur_seq.push(s@[i as int]));
                assert(tokens_from(s@, i as int, cur_seq, pre_dv) == tokens_from(
                    s@,
                    (i + 1) as int,
                    cur_seq.push(s@[i as int]),
                    pre_dv,
                ));
            }
        }
        i = i + 1;
    }
    let ghost end_dv = toks.deep_view();
    let ghost end_cur = s@.subrange(start as int, len as int);
    if start < len {
        let tok = s.substring_char(start, len).to_owned();
        toks.push(tok);
        proof {
            assert(end_cur.len() > 0);
            assert(tokens_from(s@, len as int, end_cur, end_dv) == end_dv.push(end_cur));
            assert(toks.deep_view() =~= end_dv.push(end_cur));
        }
    } else {
        proof {
            assert(end_cur.len() == 0);
            assert(tokens_from(s@, len as int, end_cur, end_dv) == end_dv);
        }
    }
    toks
}

/// Splitting on a separator character, keeping empty fields: scanning
/// from `i` with the partial field `cur` and the fields `acc` already
/// emitted. The final field is always emitted, so the empty input has
/// one empty field.
pub open spec fn split_from(
    s: Seq<char>,
    sep: char,
    i: int,
    cur: Seq<char>,
    acc: Seq<Seq<char>>,
) -> Seq<Seq<char>>
    decreases s.len() - i,
{
    if i < 0 || i >= s.len() {
        acc.push(cur)
    } else if s[i] == sep {
        split_from(s, sep, i + 1, Seq::empty(), acc.push(cur))
    } else {
        split_from(s, sep, i + 1, cur.push(s[i]), acc)
    }
}

/// The fields of `s` split on `sep`, empty fields kept.
pub open spec fn split_of(s: Seq<char>, sep: char) -> Seq<Seq<char>> {
    split_from(s, sep, 0, Seq::empty(), Seq::empty())
}

/// Splits `s` on the separator character, keeping empty fields.
pub fn split_sep(s: &str, sep: char) -> (fields: Vec<String>)
    ensures
        fields.deep_view() == split_of(s@, sep),
{
    let len: usize = s.unicode_len();
    let mut fields: Vec<String> = Vec::new();
    let mut i: usize = 0;
    let mut start: usize = 0;
    proof {
        assert(s@.subrange(0, 0) =~= Seq::<char>::empty());
        assert(fields.deep_view() =~= Seq::<Seq<char>>::empty());
    }
    while i < len
        invariant
            i <= len,
            start <= i,
            len == s@.len(),
            split_from(s@, sep, i as int, s@.subrange(start as int, i as int), fields.deep_view())
                == split_of(s@, sep),
        decreases len - i,
    {
        let ghost pre_dv = fields.deep_view();
        let ghost cur_seq = s@.subrange(start as int, i as int);
        let c = s.get_char(i);
        if c == sep {
            let fld = s.substring_char(start, i).to_owned();
            fields.push(fld);
            proof {
                assert(fields.deep_view() =~= pre_dv.push(cur_seq));
                assert(split_from(s@, sep, i as int, cur_seq, pre_dv) == split_from(
                    s@,
                    sep,
                    (i + 1) as int,
                    Seq::empty(),
                    pre_dv.push(cur_seq),
                ));
            }
            start = i + 1;
            proof {
                assert(s@.subrange((i + 1) as int, (i + 1) as int) =~= Seq::<char>::empty());
            }
        } else {
            proof {
                assert(s@.subrange(start as int, (i + 1) as int) =~= cur_seq.push(s@[i as int]));
                assert(split_from(s@, sep, i as int, cur_seq, pre_dv) == split_from(
                    s@,
                    sep,
                    (i + 1) as int,
                    cur_seq.push(s@[i as int]),
                    pre_dv,
                ));
            }
        }
        i = i + 1;
    }
    let ghost end_dv = fields.deep_view();
    let ghost end_cur = s@.subrange(start as int, len as int);
    let fld = s.substring_char(start, len).to_owned();
    fields.push(fld);
    proof {
        assert(split_from(s@, sep, len as int, end_cur, end_dv) == end_dv.push(end_cur));
        assert(fields.deep_view() =~= end_dv.push(end_cur));
    }
    fields
}

/// A decimal digit.
pub open spec fn is_digit(c: char) -> bool {
    '0' as u32 <= c as u32 && c as u32 <= '9' as u32
}

/// The numeric value of a digit character.
pub open spec fn digit_val(c: char) -> int {
    c as u32 - '0' as u32
}

/// Every character of `s` is a decimal digit.
pub open spec fn all_digits(s: Seq<char>) -> bool {
    forall|i: int| 0 <= i < s.len() ==> is_digit(#[trigger] s[i])
}

/// The value of a digit sequence read most-significant first.
pub open spec fn dec_value(s: Seq<char>) -> int
    decreases s.len(),
{
    if s.len() == 0 {
        0
    } else {
        dec_value(s.drop_last()) * 10 + digit_val(s.last())
    }
}

/// What parsing an unsigned decimal number yields: the value, if `s` is
/// a non-empty, all-digit sequence whose value fits in a `u64`; nothing
/// otherwise.
pub open spec fn parse_u64_spec(s: Seq<char>) -> Option<u64> {
    if s.len() > 0 && all_digits(s) && dec_value(s) <= u64::MAX {
        Some(dec_value(s) as u64)
    } else {
        None
    }
}

proof fn lemma_dec_value_nonneg(s: Seq<char>)
    requires
        all_digits(s),
    ensures
        dec_value(s) >= 0,
    decreases s.len(),
{
    if s.len() > 0 {
        assert(all_digits(s.drop_last())) by {
            assert(forall|i: int|
                0 <= i < s.len() - 1 ==> is_digit(#[trigger] s.drop_last()[i]) == is_digit(s[i]));
        }
        lemma_dec_value_nonneg(s.drop_last());
    }
}

proof fn lemma_dec_value_prefix_grows(s: Seq<char>, i: int)
    requires
        all_digits(s),
        0 <= i <= s.len(),
    ensures
        dec_value(s) >= dec_value(s.take(i)),
    decreases s.len() - i,
{
    if i < s.len() {
        lemma_dec_value_prefix_grows(s, i + 1);
        assert(s.take(i + 1).drop_last() =~= s.take(i));
        assert(all_digits(s.take(i))) by {
            assert(forall|j: int|
                0 <= j < i ==> is_digit(#[trigger] s.take(i)[j]) == is_digit(s[j]));
        }
        lemma_dec_value_nonneg(s.take(i));
        assert(is_digit(s.take(i + 1).last()));
        assert(dec_value(s.take(i + 1)) >= dec_value(s.take(i)));
    } else {
        assert(s.take(i) =~= s);
    }
}

/// Parses a non-empty, all-digit decimal string into a `u64`; rejects
/// anything else, including values that do not fit.
pub fn parse_u64(s: &str) -> (r: Option<u64>)
    ensures
        r == parse_u64_spec(s@),
{
    let len: usize = s.unicode_len();
    if len == 0 {
        return None;
    }
    let mut acc: u64 = 0;
    let mut i: usize = 0;
    proof {
        assert(s@.take(0) =~= Seq::<char>::empty());
    }
    while i < len
        invariant
            i <= len,
            len == s@.len(),
            all_digits(s@.take(i as int)),
            acc == dec_value(s@.take(i as int)),
        decreases len - i,
    {
        let c = s.get_char(i);
        let cu: u32 = c as u32;
        proof {
            assert(s@.take(i as int + 1).drop_last() =~= s@.take(i as int));
        }
        if cu < '0' as u32 || cu > '9' as u32 {
            return None;
        }
        let d: u64 = (cu - '0' as u32) as u64;
        if acc > (u64::MAX - d) / 10 {
            proof {
                assert(acc * 10 + d > u64::MAX) by (nonlinear_arith)
                    requires
                        acc > (u64::MAX - d) / 10,
                        d <= 9,
                {}
                if all_digits(s@) {
                    lemma_dec_value_prefix_grows(s@, i as int + 1);
                    assert(dec_value(s@.take(i as int + 1)) == acc * 10 + d);
                    assert(dec_value(s@) > u64::MAX);
                }
            }
            return None;
        }
        proof {
            assert(acc * 10 + d <= u64::MAX) by (nonlinear_arith)
                requires
                    acc <= (u64::MAX - d) / 10,
                    d <= 9,
            {}
        }
        acc = acc * 10 + d;
        i = i + 1;
    }
    proof {
        assert(s@.take(len as int) =~= s@);
        lemma_dec_value_nonneg(s@);
    }
    Some(acc)
}

/// The digit character for a value below ten.
pub open spec fn digit_char(d: int) -> char {
    if d == 0 {
        '0'
    } else if d == 1 {
        '1'
    } else if d == 2 {
        '2'
    } else if d == 3 {
        '3'
    } else if d == 4 {
        '4'
    } else if d == 5 {
        '5'
    } else if d == 6 {
        '6'
    } else if d == 7 {
        '7'
    } else if d == 8 {
        '8'
    } else {
        '9'
    }
}

/// The decimal digit sequence of `n`, most significant first, without
/// leading zeros (`0` itself is the single digit `0`).
pub open spec fn dec_digits(n: int) -> Seq<char>
    decreases n,
{
    if n < 10 {
        seq![digit_char(n)]
    } else {
        dec_digits(n / 10).push(digit_char(n % 10))
    }
}

fn digit_str(d: u64) -> (r: &'static str)
    requires
        d < 10,
    ensures
        r@ =~= seq![digit_char(d as int)],
{
    let r = if d == 0 {
        "0"
    } else if d == 1 {
        "1"
    } else if d == 2 {
        "2"
    } else if d == 3 {
        "3"
    } else if d == 4 {
        "4"
    } else if d == 5 {
        "5"
    } else if d == 6 {
        "6"
    } else if d == 7 {
        "7"
    } else if d == 8 {
        "8"
    } else {
        "9"
    };
    proof {
        reveal_strlit("0");
        reveal_strlit("1");
        reveal_strlit("2");
        reveal_strlit("3");
        reveal_strlit("4");
        reveal_strlit("5");
        reveal_strlit("6");
        reveal_strlit("7");
        reveal_strlit("8");
        reveal_strlit("9");
    }
    r
}

/// The reversed digit list `rev`, read back in display order.
spec fn rev_digit_seq(rev: Seq<u64>) -> Seq<char> {
    Seq::new(rev.len(), |i: int| digit_char(rev[rev.len() - 1 - i] as int))
}

/// Formats `n` as its decimal digit string.
pub fn format_u64(n: u64) -> (s: String)
    ensures
        s@ == dec_digits(n as int),
{
    let mut rev: Vec<u64> = Vec::new();
    let mut m: u64 = n;
    proof {
        assert(dec_digits(n as int) =~= dec_digits(n as int) + rev_digit_seq(rev@));
    }
    loop
        invariant_except_break
            dec_digits(n as int) == dec_digits(m as int) + rev_digit_seq(rev@),
        invariant
            forall|i: int| 0 <= i < rev@.len() ==> #[trigger] rev@[i] < 10,
        ensures
            dec_digits(n as int) == rev_digit_seq(rev@),
        decreases m,
    {
        let ghost pre_rev = rev@;
        let ghost pre_m = m as int;
        let d: u64 = m % 10;
        rev.push(d);
        proof {
            assert(rev_digit_seq(rev@) =~= seq![digit_char(d as int)] + rev_digit_seq(pre_rev));
        }
        m = m / 10;
        if m == 0 {
            proof {
                assert(pre_m < 10);
                assert(dec_digits(pre_m) =~= seq![digit_char(d as int)]);
                assert(rev_digit_seq(rev@) =~= dec_digits(pre_m) + rev_digit_seq(pre_rev));
            }
            break;
        }
        proof {
            assert(pre_m >= 10);
            assert(dec_digits(pre_m) == dec_digits(pre_m / 10).push(digit_char(pre_m % 10)));
            assert(dec_digits(m as int) + rev_digit_seq(rev@) =~= (dec_digits(m as int).push(
                digit_char(d as int),
            )) + rev_digit_seq(pre_rev));
            assert(dec_digits(n as int) == dec_digits(m as int) + rev_digit_seq(rev@));
        }
    }
    let ghost digits = dec_digits(n as int);
    let mut s = String::new();
    let mut j: usize = rev.len();
    while j > 0
        invariant
            j <= rev@.len(),
            digits == rev_digit_seq(rev@),
            forall|i: int| 0 <= i < rev@.len() ==> #[trigger] rev@[i] < 10,
            s@ == digits.take(rev@.len() - j),
        decreases j,
    {
        let ghost pre_s = s@;
        j = j - 1;
        let part = digit_str(rev[j]);
        s.append(part);
        proof {
            assert(s@ =~= digits.take(rev@.len() - j));
        }
    }
    proof {
        assert(digits.take(rev@.len() as int) =~= digits);
    }
    s
}

proof fn lemma_digit_char_val(d: int)
    requires
        0 <= d <= 9,
    ensures
        is_digit(digit_char(d)),
        digit_val(digit_char(d)) == d,
{
}

/// The digit string of a number is non-empty, all digits, and reads
/// back to that number.
pub proof fn lemma_dec_digits_value(n: int)
    requires
        n >= 0,
    ensures
        dec_digits(n).len() >= 1,
        all_digits(dec_digits(n)),
        dec_value(dec_digits(n)) == n,
    decreases n,
{
    let s = dec_digits(n);
    if n < 10 {
        lemma_digit_char_val(n);
        assert(s =~= seq![digit_char(n)]);
        assert(s.drop_last() =~= Seq::<char>::empty());
        assert(dec_value(Seq::<char>::empty()) == 0);
        assert(dec_value(s) == n);
    } else {
        lemma_dec_digits_value(n / 10);
        lemma_digit_char_val(n % 10);
        let p = dec_digits(n / 10);
        assert(s == p.push(digit_char(n % 10)));
        assert(s.drop_last() =~= p);
        assert(s.last() == digit_char(n % 10));
        assert(dec_value(s) == dec_value(p) * 10 + digit_val(digit_char(n % 10)));
        assert(dec_value(s) == (n / 10) * 10 + n % 10);
        assert(all_digits(s)) by {
            assert(forall|i: int| 0 <= i < p.len() ==> s[i] == #[trigger] p[i]);
            assert(is_digit(s[s.len() - 1]));
        }
    }
}

/// Formatting then parsing gives the number back: the digit string of
/// any `u64` parses to that same value.
pub proof fn lemma_format_parse_round_trip(n: u64)
    ensures
        parse_u64_spec(dec_digits(n as int)) == Some(n),
{
    lemma_dec_digits_value(n as int);
}

/// What parsing a time of day `HH:MM` yields: minutes since midnight,
/// if the text has exactly two `:`-separated decimal fields with the
/// hour below 24 and the minute below 60.
pub open spec fn parse_time_spec(s: Seq<char>) -> Option<u16> {
    let parts = split_of(s, ':');
    if parts.len() == 2 {
        match (parse_u64_spec(parts[0]), parse_u64_spec(parts[1])) {
            (Some(h), Some(m)) => if h < 24 && m < 60 {
                Some((h * 60 + m) as u16)
            } else {
                None
            },
            _ => None,
        }
    } else {
        None
    }
}

/// Parses a time of day `HH:MM` into minutes since midnight.
pub fn parse_time_of_day(s: &str) -> (r: Option<u16>)
    ensures
        r == parse_time_spec(s@),
        r is Some ==> r->0 < 1440,
{
    let parts = split_sep(s, ':');
    if parts.len() != 2 {
        return None;
    }
    let hour = parse_u64(parts[0].as_str());
    let minute = parse_u64(parts[1].as_str());
    match (hour, minute) {
        (Some(h), Some(m)) => {
            if h < 24 && m < 60 {
                Some((h * 60 + m) as u16)
            } else {
                None
            }
        },
        _ => None,
    }
}

/// What parsing a time window `HH:MM-HH:MM` yields: start and end in
/// minutes since midnight, if both sides parse as times of day.
pub open spec fn parse_window_spec(s: Seq<char>) -> Option<(u16, u16)> {
    let parts = split_of(s, '-');
    if parts.len() == 2 {
        match (parse_time_spec(parts[0]), parse_time_spec(parts[1])) {
            (Some(a), Some(b)) => Some((a, b)),
            _ => None,
        }
    } else {
        None
    }
}

/// Parses a time window `HH:MM-HH:MM` into start and end minutes.
pub fn parse_time_window(s: &str) -> (r: Option<(u16, u16)>)
    ensures
        r == parse_window_spec(s@),
{
    let parts = split_sep(s, '-');
    if parts.len() != 2 {
        return None;
    }
    let start = parse_time_of_day(parts[0].as_str());
    let end = parse_time_of_day(parts[1].as_str());
    match (start, end) {
        (Some(a), Some(b)) => Some((a, b)),
        _ => None,
    }
}

/// What parsing a boolean yields: exactly `true` or `false`.
pub open spec fn parse_bool_spec(s: Seq<char>) -> Option<bool> {
    if s == "true"@ {
        Some(true)
    } else if s == "false"@ {
        Some(false)
    } else {
        None
    }
}

/// Parses the literal words `true` and `false`.
pub fn parse_bool(s: &str) -> (r: Option<bool>)
    ensures
        r == parse_bool_spec(s@),
{
    if str_eq(s, "true") {
        Some(true)
    } else if str_eq(s, "false") {
        Some(false)
    } else {
        None
    }
}

/// Character-sequence equality of two string slices.
pub fn str_eq(a: &str, b: &str) -> (r: bool)
    ensures
        r == (a@ == b@),
{
    let alen: usize = a.unicode_len();
    let blen: usize = b.unicode_len();
    if alen != blen {
        return false;
    }
    let mut i: usize = 0;
    while i < alen
        invariant
            i <= alen,
            alen == a@.len(),
            alen == b@.len(),
            forall|j: int| 0 <= j < i ==> a@[j] == b@[j],
        decreases alen - i,
    {
        if a.get_char(i) != b.get_char(i) {
            return false;
        }
        i = i + 1;
    }
    proof {
        assert(a@ =~= b@);
    }
    true
}

/// The character sequences of a list of strings.
pub open spec fn str_views(xs: Seq<String>) -> Seq<Seq<char>> {
    xs.map_values(|s: String| s@)
}

/// Whether a slice of strings contains one equal to `x`.
pub fn slice_contains_str(xs: &[String], x: &str) -> (b: bool)
    ensures
        b == str_views(xs@).contains(x@),
{
    let ghost views = str_views(xs@);
    let mut i: usize = 0;
    while i < xs.len()
        invariant
            i <= xs@.len(),
            views == str_views(xs@),
            forall|j: int| 0 <= j < i ==> views[j] != x@,
        decreases xs@.len() - i,
    {
        if str_eq(xs[i].as_str(), x) {
            assert(views[i as int] == x@);
            return true;
        }
        i = i + 1;
    }
    false
}

/// Whether a vector of strings contains one equal to `x`.
pub fn vec_contains_str(xs: &Vec<String>, x: &str) -> (b: bool)
    ensures
        b == xs.deep_view().contains(x@),
{
    let ghost views = xs.deep_view();
    let mut i: usize = 0;
    while i < xs.len()
        invariant
            i <= xs@.len(),
            views == xs.deep_view(),
            forall|j: int| 0 <= j < i ==> views[j] != x@,
        decreases xs@.len() - i,
    {
        if str_eq(xs[i].as_str(), x) {
            assert(views[i as int] == x@);
            return true;
        }
        i = i + 1;
    }
    false
}

/// Characters trimmed from either end of a persisted record: blanks
/// and line breaks.
pub open spec fn is_trim_space(c: char) -> bool {
    c == ' ' || c == '\t' || c == '\r' || c == '\n'
}

fn is_trim_space_char(c: char) -> (b: bool)
    ensures
        b == is_trim_space(c),
{
    c == ' ' || c == '\t' || c == '\r' || c == '\n'
}

/// `s` with leading blanks removed.
pub open spec fn trim_front(s: Seq<char>) -> Seq<char>
    decreases s.len(),
{
    if s.len() > 0 && is_trim_space(s[0]) {
        trim_front(s.skip(1))
    } else {
        s
    }
}

/// `s` with trailing blanks removed.
pub open spec fn trim_back(s: Seq<char>) -> Seq<char>
    decreases s.len(),
{
    if s.len() > 0 && is_trim_space(s.last()) {
        trim_back(s.drop_last())
    } else {
        s
    }
}

/// `s` with blanks removed from both ends.
pub open spec fn trim_spec(s: Seq<char>) -> Seq<char> {
    trim_back(trim_front(s))
}

/// Removes blanks and line breaks from both ends of `s`.
pub fn trim(s: &str) -> (r: String)
    ensures
        r@ == trim_spec(s@),
{
    let len: usize = s.unicode_len();
    let mut start: usize = 0;
    proof {
        assert(s@.skip(0) =~= s@);
    }
    while start < len && is_trim_space_char(s.get_char(start))
        invariant
            start <= len,
            len == s@.len(),
            trim_front(s@) == trim_front(s@.skip(start as int)),
        decreases len - start,
    {
        proof {
            assert(s@.skip(start as int).skip(1) =~= s@.skip(start as int + 1));
        }
        start = start + 1;
    }
    proof {
        assert(trim_front(s@) == s@.skip(start as int));
        assert(s@.skip(start as int) =~= s@.subrange(start as int, len as int));
    }
    let mut end: usize = len;
    while end > start && is_trim_space_char(s.get_char(end - 1))
        invariant
            start <= end <= len,
            len == s@.len(),
            trim_front(s@) == s@.skip(start as int),
            trim_back(s@.skip(start as int)) == trim_back(
                s@.subrange(start as int, end as int),
            ),
        decreases end,
    {
        proof {
            assert(s@.subrange(start as int, end as int).last() == s@[end - 1]);
            assert(s@.subrange(start as int, end as int).drop_last() =~= s@.subrange(
                start as int,
                end as int - 1,
            ));
        }
        end = end - 1;
    }
    proof {
        assert(trim_back(s@.subrange(start as int, end as int)) == s@.subrange(
            start as int,
            end as int,
        ));
    }
    s.substring_char(start, end).to_owned()
}

} // verus!
