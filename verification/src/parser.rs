//! Heuristics that read a season number and an episode number out of one
//! free-text release name.

use vstd::prelude::*;
use vstd::string::StrSliceExecFns;

use crate::text::char_eq_ci;
use crate::text::char_is_digit;
use crate::text::chars_eq_ci;
use crate::text::dec_value;
use crate::text::digit_val;
use crate::text::digit_run_end;
use crate::text::digits_value;
use crate::text::find_digit_run_end;
use crate::text::is_digit_char;
use crate::text::lemma_dec_value_nonneg;
use crate::text::lemma_digit_run_end;
use crate::text::tokenize;
use crate::text::tokens_of;

verus! {

// ---------------------------------------------------------------------------
// Season number
// ---------------------------------------------------------------------------

/// The eight characters of "specials", up to case, start at index `i`.
pub open spec fn specials_at(s: Seq<char>, i: int) -> bool {
    &&& char_eq_ci(s[i], 's')
    &&& char_eq_ci(s[i + 1], 'p')
    &&& char_eq_ci(s[i + 2], 'e')
    &&& char_eq_ci(s[i + 3], 'c')
    &&& char_eq_ci(s[i + 4], 'i')
    &&& char_eq_ci(s[i + 5], 'a')
    &&& char_eq_ci(s[i + 6], 'l')
    &&& char_eq_ci(s[i + 7], 's')
}

/// The name mentions "specials" in any case.
pub open spec fn contains_specials(s: Seq<char>) -> bool {
    exists|i: int| 0 <= i && i + 8 <= s.len() && specials_at(s, i)
}

/// The token is the word "season", up to case.
pub open spec fn is_season_kw(t: Seq<char>) -> bool {
    &&& t.len() == 6
    &&& char_eq_ci(t[0], 's')
    &&& char_eq_ci(t[1], 'e')
    &&& char_eq_ci(t[2], 'a')
    &&& char_eq_ci(t[3], 's')
    &&& char_eq_ci(t[4], 'o')
    &&& char_eq_ci(t[5], 'n')
}

pub open spec fn all_digits(t: Seq<char>) -> bool {
    forall|k: int| 0 <= k < t.len() ==> is_digit_char(t[k])
}

/// The token read as a decimal integer with an optional sign, as long as its
/// magnitude stays within `i32::MAX`.
pub open spec fn parse_i32_spec(t: Seq<char>) -> Option<i32> {
    if t.len() > 0 && (t[0] == '-' || t[0] == '+') {
        let d = t.skip(1);
        if d.len() > 0 && all_digits(d) && dec_value(d) <= i32::MAX {
            if t[0] == '-' {
                Some((-dec_value(d)) as i32)
            } else {
                Some(dec_value(d) as i32)
            }
        } else {
            None
        }
    } else if t.len() > 0 && all_digits(t) && dec_value(t) <= i32::MAX {
        Some(dec_value(t) as i32)
    } else {
        None
    }
}

/// The index of the first "season" token, if any.
pub open spec fn first_kw_index(ts: Seq<Seq<char>>, i: int) -> Option<int>
    decreases ts.len() - i,
    when 0 <= i
{
    if i >= ts.len() {
        None
    } else if is_season_kw(ts[i]) {
        Some(i)
    } else {
        first_kw_index(ts, i + 1)
    }
}

/// The season read from the first "season" token's follower, if it parses.
pub open spec fn season_kw_value(ts: Seq<Seq<char>>) -> Option<i32> {
    match first_kw_index(ts, 0) {
        Some(i) => if i + 1 < ts.len() {
            parse_i32_spec(ts[i + 1])
        } else {
            None
        },
        None => None,
    }
}

/// The season read from a token of the shape `s<digits>...`, up to case:
/// the digit run right after the leading `s`.
pub open spec fn s_token_value(t: Seq<char>) -> Option<i32> {
    if t.len() >= 2 && char_eq_ci(t[0], 's') {
        let e = digit_run_end(t, 1);
        if e > 1 && dec_value(t.subrange(1, e)) <= i32::MAX {
            Some(dec_value(t.subrange(1, e)) as i32)
        } else {
            None
        }
    } else {
        None
    }
}

/// The value of the first token that yields a season by `s_token_value`.
pub open spec fn first_s_token_value(ts: Seq<Seq<char>>, i: int) -> Option<i32>
    decreases ts.len() - i,
    when 0 <= i
{
    if i >= ts.len() {
        None
    } else if s_token_value(ts[i]) is Some {
        s_token_value(ts[i])
    } else {
        first_s_token_value(ts, i + 1)
    }
}

/// The season number inferred from a name: "specials" means season 0; else
/// a "season N" token pair wins; else the first `s<digits>` token; else none.
pub open spec fn season_of(s: Seq<char>) -> Option<i32> {
    if contains_specials(s) {
        Some(0i32)
    } else {
        match season_kw_value(tokens_of(s)) {
            Some(n) => Some(n),
            None => first_s_token_value(tokens_of(s), 0),
        }
    }
}

/// Whether "specials" occurs in `s`, in any case.
fn scan_specials(s: &str) -> (r: bool)
    ensures
        r == contains_specials(s@),
{
    let n = s.unicode_len();
    if n < 8 {
        return false;
    }
    let mut i: usize = 0;
    loop
        invariant
            0 <= i <= n - 8,
            8 <= n == s@.len(),
            forall|j: int| 0 <= j < i ==> !specials_at(s@, j),
        decreases n - i,
    {
        if chars_eq_ci(s.get_char(i), 's') && chars_eq_ci(s.get_char(i + 1), 'p')
            && chars_eq_ci(s.get_char(i + 2), 'e') && chars_eq_ci(s.get_char(i + 3), 'c')
            && chars_eq_ci(s.get_char(i + 4), 'i') && chars_eq_ci(s.get_char(i + 5), 'a')
            && chars_eq_ci(s.get_char(i + 6), 'l') && chars_eq_ci(s.get_char(i + 7), 's') {
            assert(specials_at(s@, i as int));
            return true;
        }
        if i == n - 8 {
            assert(forall|j: int| 0 <= j && j + 8 <= s@.len() ==> !specials_at(s@, j));
            return false;
        }
        i = i + 1;
    }
}

/// Finds the first "season" token.
pub fn find_season_kw(tokens: &Vec<String>) -> (r: Option<usize>)
    ensures
        match r {
            Some(k) => k < tokens.len() && first_kw_index(tokens.deep_view(), 0) == Some(k as int),
            None => first_kw_index(tokens.deep_view(), 0) is None,
        },
{
    let ghost ts = tokens.deep_view();
    let mut i: usize = 0;
    while i < tokens.len()
        invariant
            0 <= i <= tokens.len(),
            ts == tokens.deep_view(),
            first_kw_index(ts, i as int) == first_kw_index(ts, 0),
        decreases tokens.len() - i,
    {
        assert(tokens.deep_view()[i as int] == tokens@[i as int]@);
        if token_is_season_kw(tokens[i].as_str()) {
            assert(first_kw_index(ts, i as int) == Some(i as int));
            return Some(i);
        }
        i = i + 1;
    }
    assert(first_kw_index(ts, i as int) is None);
    None
}

/// Whether the token is the word "season", up to case.
pub fn token_is_season_kw(t: &str) -> (r: bool)
    ensures
        r == is_season_kw(t@),
{
    if t.unicode_len() != 6 {
        return false;
    }
    chars_eq_ci(t.get_char(0), 's') && chars_eq_ci(t.get_char(1), 'e')
        && chars_eq_ci(t.get_char(2), 'a') && chars_eq_ci(t.get_char(3), 's')
        && chars_eq_ci(t.get_char(4), 'o') && chars_eq_ci(t.get_char(5), 'n')
}

/// Reads the token as a decimal integer with an optional sign.
pub fn parse_i32_token(t: &str) -> (r: Option<i32>)
    ensures
        r == parse_i32_spec(t@),
{
    let n = t.unicode_len();
    if n == 0 {
        return None;
    }
    let c0 = t.get_char(0);
    let signed = c0 == '-' || c0 == '+';
    let start: usize = if signed { 1 } else { 0 };
    let ghost d = if signed { t@.skip(1) } else { t@ };
    if start == n {
        return None;
    }
    let e = find_digit_run_end(t, start);
    proof {
        lemma_digit_run_end(t@, start as int);
        assert(d =~= t@.subrange(start as int, n as int));
        if e == n {
            assert(forall|k: int| 0 <= k < d.len() ==> is_digit_char(#[trigger] d[k]));
        } else {
            assert(!is_digit_char(d[e - start]));
        }
    }
    if e != n {
        return None;
    }
    match digits_value(t, start, n) {
        Some(v) => {
            proof {
                assert(dec_value(d) == v);
            }
            if v <= 0x7fff_ffff {
                let m = v as i32;
                if signed && c0 == '-' {
                    Some(0i32 - m)
                } else {
                    Some(m)
                }
            } else {
                None
            }
        },
        None => {
            proof {
                lemma_dec_value_nonneg(d);
            }
            None
        },
    }
}

/// Reads a season from a token of the shape `s<digits>...`.
pub fn s_token_season(t: &str) -> (r: Option<i32>)
    ensures
        r == s_token_value(t@),
{
    let n = t.unicode_len();
    if n < 2 {
        return None;
    }
    if !chars_eq_ci(t.get_char(0), 's') {
        return None;
    }
    let e = find_digit_run_end(t, 1);
    if e == 1 {
        return None;
    }
    proof {
        lemma_digit_run_end(t@, 1);
        lemma_dec_value_nonneg(t@.subrange(1, e as int));
    }
    match digits_value(t, 1, e) {
        Some(v) => if v <= 0x7fff_ffff {
            Some(v as i32)
        } else {
            None
        },
        None => None,
    }
}

/// Infers a season number from one free-text name.
///
/// A name that mentions "specials" (any case) is season 0. Otherwise a
/// token "season" followed by a token that reads as an integer decides.
/// Otherwise the first token of the shape `s<digits>...` (any case)
/// decides with the value of the digits after the `s`. Otherwise there is
/// no season value and the caller picks its default.
pub fn parse_season_number(name: &str) -> (r: Option<i32>)
    ensures
        r == season_of(name@),
{
    if scan_specials(name) {
        return Some(0);
    }
    let tokens = tokenize(name);
    let ghost ts = tokens_of(name@);
    // Rule: "season" followed by an integer token.
    let kw = find_season_kw(&tokens);
    if let Some(k) = kw {
        if k + 1 < tokens.len() {
            assert(tokens.deep_view()[k + 1] == tokens@[k + 1 as int]@);
            if let Some(v) = parse_i32_token(tokens[k + 1].as_str()) {
                return Some(v);
            }
        }
    }
    proof {
        assert(ts.len() == tokens@.len());
        assert(season_kw_value(ts) is None);
    }
    // Rule: the first `s<digits>` token.
    let mut j: usize = 0;
    while j < tokens.len()
        invariant
            0 <= j <= tokens.len(),
            tokens.deep_view() == ts,
            ts == tokens_of(name@),
            !contains_specials(name@),
            season_kw_value(ts) is None,
            first_s_token_value(ts, j as int) == first_s_token_value(ts, 0),
        decreases tokens.len() - j,
    {
        assert(tokens.deep_view()[j as int] == tokens@[j as int]@);
        let v = s_token_season(tokens[j].as_str());
        if v.is_some() {
            proof {
                assert(s_token_value(ts[j as int]) == v);
                assert(first_s_token_value(ts, j as int) == v);
            }
            return v;
        }
        j = j + 1;
    }
    None
}

/// Any name that mentions "specials" (in any case) is inferred as the
/// reserved specials season, number 0.
pub proof fn lemma_specials_is_season_zero(s: Seq<char>)
    requires
        contains_specials(s),
    ensures
        season_of(s) == Some(0i32),
{
}

/// A "Season N" token pair decides the season number, ahead of any
/// `s<digits>` token that also appears in the name.
pub proof fn lemma_season_keyword_wins(s: Seq<char>, i: int, n: i32)
    requires
        !contains_specials(s),
        first_kw_index(tokens_of(s), 0) == Some(i),
        i + 1 < tokens_of(s).len(),
        parse_i32_spec(tokens_of(s)[i + 1]) == Some(n),
    ensures
        season_of(s) == Some(n),
{
}

/// With no "specials" and no deciding "Season N" pair, a token `s<digits>`
/// decides the season with the value of its digits.
pub proof fn lemma_s_token_decides(s: Seq<char>, n: i32)
    requires
        !contains_specials(s),
        season_kw_value(tokens_of(s)) is None,
        first_s_token_value(tokens_of(s), 0) == Some(n),
    ensures
        season_of(s) == Some(n),
{
}

// ---------------------------------------------------------------------------
// Episode number
// ---------------------------------------------------------------------------

/// When the digits are worth more than `i32::MAX`, the value falls back to 0.
pub open spec fn value_or_zero(v: int) -> i32 {
    if v <= i32::MAX {
        v as i32
    } else {
        0i32
    }
}

/// The word "episode" (any case) immediately followed by a digit starts at `i`.
pub open spec fn episode_kw_at(s: Seq<char>, i: int) -> bool {
    &&& i + 8 <= s.len()
    &&& char_eq_ci(s[i], 'e')
    &&& char_eq_ci(s[i + 1], 'p')
    &&& char_eq_ci(s[i + 2], 'i')
    &&& char_eq_ci(s[i + 3], 's')
    &&& char_eq_ci(s[i + 4], 'o')
    &&& char_eq_ci(s[i + 5], 'd')
    &&& char_eq_ci(s[i + 6], 'e')
    &&& is_digit_char(s[i + 7])
}

/// An `e` (any case) immediately followed by a digit starts at `i`.
pub open spec fn e_digit_at(s: Seq<char>, i: int) -> bool {
    &&& i + 2 <= s.len()
    &&& char_eq_ci(s[i], 'e')
    &&& is_digit_char(s[i + 1])
}

/// The value of at most the first three digits starting at `p`.
pub open spec fn short_val(s: Seq<char>, p: int) -> int {
    let e = digit_run_end(s, p);
    let t = if e > p + 3 { p + 3 } else { e };
    dec_value(s.subrange(p, t))
}

/// The leftmost `E<1-3 digits>` / `Episode<1-3 digits>` match, scanning
/// from `i`.
pub open spec fn find_e_value(s: Seq<char>, i: int) -> Option<i32>
    decreases s.len() - i,
    when 0 <= i
{
    if i >= s.len() {
        None
    } else if episode_kw_at(s, i) {
        Some(short_val(s, i + 7) as i32)
    } else if e_digit_at(s, i) {
        Some(short_val(s, i + 1) as i32)
    } else {
        find_e_value(s, i + 1)
    }
}

/// A `<digits>x<digits>` match (any case) starts at `i`.
pub open spec fn cross_at(s: Seq<char>, i: int) -> bool {
    0 <= i < s.len() && is_digit_char(s[i]) && {
        let e = digit_run_end(s, i);
        e + 2 <= s.len() && char_eq_ci(s[e], 'x') && is_digit_char(s[e + 1])
    }
}

/// The value of the digits after the `x` of a match starting at `i`.
pub open spec fn cross_val(s: Seq<char>, i: int) -> i32 {
    let e = digit_run_end(s, i);
    value_or_zero(dec_value(s.subrange(e + 1, digit_run_end(s, e + 1))))
}

pub open spec fn find_cross_value(s: Seq<char>, i: int) -> Option<i32>
    decreases s.len() - i,
    when 0 <= i
{
    if i >= s.len() {
        None
    } else if cross_at(s, i) {
        Some(cross_val(s, i))
    } else {
        find_cross_value(s, i + 1)
    }
}

/// An `s<digits> - <digits>` match (any case) starts at `i`.
pub open spec fn sdash_at(s: Seq<char>, i: int) -> bool {
    0 <= i && i + 2 <= s.len() && char_eq_ci(s[i], 's') && is_digit_char(s[i + 1]) && {
        let e = digit_run_end(s, i + 1);
        e + 4 <= s.len() && s[e] == ' ' && s[e + 1] == '-' && s[e + 2] == ' '
            && is_digit_char(s[e + 3])
    }
}

/// The value of the digits after the dash of a match starting at `i`.
pub open spec fn sdash_val(s: Seq<char>, i: int) -> i32 {
    let e = digit_run_end(s, i + 1);
    value_or_zero(dec_value(s.subrange(e + 3, digit_run_end(s, e + 3))))
}

pub open spec fn find_sdash_value(s: Seq<char>, i: int) -> Option<i32>
    decreases s.len() - i,
    when 0 <= i
{
    if i >= s.len() {
        None
    } else if sdash_at(s, i) {
        Some(sdash_val(s, i))
    } else {
        find_sdash_value(s, i + 1)
    }
}

/// The episode number inferred from a name, by the first of these patterns
/// that matches anywhere: `E<1-3 digits>` or `Episode<1-3 digits>`, then
/// `<digits>x<digits>` (the digits after the `x`), then
/// `s<digits> - <digits>` (the digits after the dash).
pub open spec fn episode_of(s: Seq<char>) -> Option<i32> {
    match find_e_value(s, 0) {
        Some(v) => Some(v),
        None => match find_cross_value(s, 0) {
            Some(v) => Some(v),
            None => find_sdash_value(s, 0),
        },
    }
}

pub open spec fn pow10(n: nat) -> int
    decreases n,
{
    if n == 0 {
        1
    } else {
        10 * pow10((n - 1) as nat)
    }
}

/// A digit string is worth less than ten to its length.
proof fn lemma_dec_value_upper(d: Seq<char>)
    requires
        all_digits(d),
    ensures
        dec_value(d) < pow10(d.len()),
    decreases d.len(),
{
    if d.len() > 0 {
        let dl = d.drop_last();
        assert(all_digits(dl));
        lemma_dec_value_upper(dl);
        let p = pow10(dl.len());
        assert(digit_val(d.last()) <= 9);
        assert(dec_value(dl) * 10 <= (p - 1) * 10) by (nonlinear_arith)
            requires dec_value(dl) <= p - 1;
        assert(pow10(d.len()) == 10 * p);
    }
}

/// At most three digits are worth at most 999.
proof fn lemma_short_val_bound(s: Seq<char>, p: int)
    requires
        0 <= p <= s.len(),
    ensures
        0 <= short_val(s, p) <= 999,
{
    lemma_digit_run_end(s, p);
    let e = digit_run_end(s, p);
    let t = if e > p + 3 { p + 3 } else { e };
    let d = s.subrange(p, t);
    assert(d.len() <= 3);
    assert(all_digits(d));
    lemma_dec_value_nonneg(d);
    lemma_dec_value_upper(d);
    assert(pow10(0) == 1);
    assert(pow10(1) == 10);
    assert(pow10(2) == 100);
    assert(pow10(3) == 1000);
}

/// Reads the value of at most the first three digits starting at `p`.
fn read_short_val(s: &str, p: usize) -> (r: i32)
    requires
        p <= s@.len(),
    ensures
        r == short_val(s@, p as int),
{
    proof {
        lemma_short_val_bound(s@, p as int);
        lemma_digit_run_end(s@, p as int);
    }
    let e = find_digit_run_end(s, p);
    let t = if e > p && e - p > 3 { p + 3 } else { e };
    match digits_value(s, p, t) {
        Some(v) => v as i32,
        None => {
            proof {
                assert(false);
            }
            0
        },
    }
}

/// Reads the value of the whole digit run starting at `p`, or 0 when it
/// is worth more than `i32::MAX`.
fn read_run_or_zero(s: &str, p: usize) -> (r: i32)
    requires
        p <= s@.len(),
    ensures
        r == value_or_zero(dec_value(s@.subrange(p as int, digit_run_end(s@, p as int)))),
{
    proof {
        lemma_digit_run_end(s@, p as int);
        lemma_dec_value_nonneg(s@.subrange(p as int, digit_run_end(s@, p as int)));
    }
    let e = find_digit_run_end(s, p);
    match digits_value(s, p, e) {
        Some(v) => if v <= 0x7fff_ffff {
            v as i32
        } else {
            0
        },
        None => 0,
    }
}

/// Infers an episode number from one free-text name, trying in order:
/// `E<1-3 digits>` / `Episode<1-3 digits>`, `<digits>x<digits>` (the
/// digits after the `x` win), and `s<digits> - <digits>` (the digits
/// after the dash win). No match means no episode value.
pub fn parse_episode_number(name: &str) -> (r: Option<i32>)
    ensures
        r == episode_of(name@),
{
    let n = name.unicode_len();
    // `E<1-3 digits>` / `Episode<1-3 digits>`
    let mut i: usize = 0;
    while i < n
        invariant
            0 <= i <= n,
            n == name@.len(),
            find_e_value(name@, i as int) == find_e_value(name@, 0),
        decreases n - i,
    {
        if chars_eq_ci(name.get_char(i), 'e') {
            if n - i >= 8 && chars_eq_ci(name.get_char(i + 1), 'p')
                && chars_eq_ci(name.get_char(i + 2), 'i')
                && chars_eq_ci(name.get_char(i + 3), 's')
                && chars_eq_ci(name.get_char(i + 4), 'o')
                && chars_eq_ci(name.get_char(i + 5), 'd')
                && chars_eq_ci(name.get_char(i + 6), 'e')
                && char_is_digit(name.get_char(i + 7)) {
                assert(episode_kw_at(name@, i as int));
                return Some(read_short_val(name, i + 7));
            }
            if n - i >= 2 && char_is_digit(name.get_char(i + 1)) {
                assert(e_digit_at(name@, i as int));
                assert(!episode_kw_at(name@, i as int));
                return Some(read_short_val(name, i + 1));
            }
        }
        assert(!episode_kw_at(name@, i as int));
        assert(!e_digit_at(name@, i as int));
        i = i + 1;
    }
    // `<digits>x<digits>`
    let mut j: usize = 0;
    while j < n
        invariant
            0 <= j <= n,
            n == name@.len(),
            find_e_value(name@, 0) is None,
            find_cross_value(name@, j as int) == find_cross_value(name@, 0),
        decreases n - j,
    {
        if char_is_digit(name.get_char(j)) {
            let e = find_digit_run_end(name, j);
            proof {
                lemma_digit_run_end(name@, j as int);
            }
            if n - e >= 2 && chars_eq_ci(name.get_char(e), 'x')
                && char_is_digit(name.get_char(e + 1)) {
                assert(cross_at(name@, j as int));
                return Some(read_run_or_zero(name, e + 1));
            }
        }
        assert(!cross_at(name@, j as int));
        j = j + 1;
    }
    // `s<digits> - <digits>`
    let mut k: usize = 0;
    while k < n
        invariant
            0 <= k <= n,
            n == name@.len(),
            find_e_value(name@, 0) is None,
            find_cross_value(name@, 0) is None,
            find_sdash_value(name@, k as int) == find_sdash_value(name@, 0),
        decreases n - k,
    {
        if chars_eq_ci(name.get_char(k), 's') && n - k >= 2
            && char_is_digit(name.get_char(k + 1)) {
            let e = find_digit_run_end(name, k + 1);
            proof {
                lemma_digit_run_end(name@, k + 1 as int);
            }
            if n - e >= 4 && name.get_char(e) == ' ' && name.get_char(e + 1) == '-'
                && name.get_char(e + 2) == ' ' && char_is_digit(name.get_char(e + 3)) {
                assert(sdash_at(name@, k as int));
                return Some(read_run_or_zero(name, e + 3));
            }
        }
        assert(!sdash_at(name@, k as int));
        k = k + 1;
    }
    None
}

} // verus!
