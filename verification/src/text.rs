//! Character-level groundwork: case-insensitive comparison, whitespace
//! tokenization, and decimal digit runs.

use vstd::prelude::*;
use vstd::string::StrSliceExecFns;

verus! {

/// The code point of `c` with an ASCII upper-case letter folded to lower case.
pub open spec fn lower_code(c: char) -> int {
    if 'A' <= c && c <= 'Z' {
        c as u32 + 32
    } else {
        c as u32 as int
    }
}

/// Whether two characters are equal up to ASCII case.
pub open spec fn char_eq_ci(a: char, b: char) -> bool {
    lower_code(a) == lower_code(b)
}

pub open spec fn is_space(c: char) -> bool {
    c == ' '
}

pub open spec fn is_digit_char(c: char) -> bool {
    '0' <= c && c <= '9'
}

pub open spec fn digit_val(c: char) -> int {
    c as u32 - '0' as u32
}

/// Compares two characters up to ASCII case.
pub fn chars_eq_ci(a: char, b: char) -> (r: bool)
    ensures
        r == char_eq_ci(a, b),
{
    let ac: u32 = if a >= 'A' && a <= 'Z' { a as u32 + 32 } else { a as u32 };
    let bc: u32 = if b >= 'A' && b <= 'Z' { b as u32 + 32 } else { b as u32 };
    ac == bc
}

pub fn char_is_digit(c: char) -> (r: bool)
    ensures
        r == is_digit_char(c),
{
    c >= '0' && c <= '9'
}

/// The first index at or after `i` that does not hold a digit.
pub open spec fn digit_run_end(s: Seq<char>, i: int) -> int
    decreases s.len() - i,
{
    if i < 0 || i >= s.len() || !is_digit_char(s[i]) {
        i
    } else {
        digit_run_end(s, i + 1)
    }
}

pub proof fn lemma_digit_run_end(s: Seq<char>, i: int)
    requires
        0 <= i <= s.len(),
    ensures
        i <= digit_run_end(s, i) <= s.len(),
        forall|k: int| i <= k < digit_run_end(s, i) ==> is_digit_char(s[k]),
        digit_run_end(s, i) < s.len() ==> !is_digit_char(s[digit_run_end(s, i)]),
    decreases s.len() - i,
{
    if i < s.len() && is_digit_char(s[i]) {
        lemma_digit_run_end(s, i + 1);
    }
}

/// Finds the end of the digit run starting at `i`.
pub fn find_digit_run_end(s: &str, i: usize) -> (j: usize)
    requires
        i <= s@.len(),
    ensures
        j == digit_run_end(s@, i as int),
{
    proof {
        lemma_digit_run_end(s@, i as int);
    }
    let n = s.unicode_len();
    let mut j = i;
    while j < n && char_is_digit(s.get_char(j))
        invariant
            i <= j <= n,
            n == s@.len(),
            forall|k: int| i <= k < j ==> is_digit_char(s@[k]),
            digit_run_end(s@, i as int) >= j,
        decreases n - j,
    {
        proof {
            lemma_digit_run_end_step(s@, i as int, j as int);
        }
        j = j + 1;
    }
    proof {
        lemma_digit_run_end(s@, i as int);
        if digit_run_end(s@, i as int) > j {
            assert(is_digit_char(s@[j as int]));
        }
    }
    j
}

proof fn lemma_digit_run_end_step(s: Seq<char>, i: int, j: int)
    requires
        0 <= i <= j < s.len(),
        forall|k: int| i <= k < j ==> is_digit_char(s[k]),
        is_digit_char(s[j]),
    ensures
        digit_run_end(s, i) >= j + 1,
    decreases j - i,
{
    if i < j {
        lemma_digit_run_end_step(s, i + 1, j);
    } else {
        lemma_digit_run_end(s, i + 1);
    }
}

/// The value of the decimal digit string `s` (all characters must be digits).
pub open spec fn dec_value(s: Seq<char>) -> int
    decreases s.len(),
{
    if s.len() == 0 {
        0
    } else {
        dec_value(s.drop_last()) * 10 + digit_val(s.last())
    }
}

pub proof fn lemma_dec_value_nonneg(s: Seq<char>)
    requires
        forall|k: int| 0 <= k < s.len() ==> is_digit_char(s[k]),
    ensures
        dec_value(s) >= 0,
    decreases s.len(),
{
    if s.len() > 0 {
        lemma_dec_value_nonneg(s.drop_last());
        assert(digit_val(s.last()) >= 0);
    }
}

/// The value of the digits `s[from..to]`, if it does not exceed `u32::MAX`.
pub fn digits_value(s: &str, from: usize, to: usize) -> (r: Option<u32>)
    requires
        0 <= from <= to <= s@.len(),
        forall|k: int| from <= k < to ==> is_digit_char(s@[k]),
    ensures
        match r {
            Some(v) => v == dec_value(s@.subrange(from as int, to as int)),
            None => dec_value(s@.subrange(from as int, to as int)) > u32::MAX,
        },
{
    let ghost whole = s@.subrange(from as int, to as int);
    proof {
        lemma_dec_value_nonneg(whole);
    }
    let mut acc: u32 = 0;
    let mut i = from;
    let mut overflowed = false;
    while i < to
        invariant
            from <= i <= to <= s@.len(),
            whole == s@.subrange(from as int, to as int),
            forall|k: int| from <= k < to ==> is_digit_char(s@[k]),
            !overflowed ==> acc == dec_value(whole.take(i - from)),
            overflowed ==> dec_value(whole.take(i - from)) > u32::MAX,
        decreases to - i,
    {
        let c = s.get_char(i);
        let d: u32 = c as u32 - 48;
        proof {
            assert(s@[i as int] == whole[i - from]);
            assert(is_digit_char(whole[i - from]));
            assert(d == digit_val(whole[i - from]));
            assert(whole.take(i + 1 - from).drop_last() =~= whole.take(i - from));
            assert(forall|k: int| 0 <= k < whole.len() ==> is_digit_char(whole[k]));
            lemma_dec_value_nonneg(whole.take(i - from));
            lemma_dec_value_nonneg(whole.take(i + 1 - from));
        }
        if overflowed {
            proof {
                assert(dec_value(whole.take(i + 1 - from)) == dec_value(whole.take(i - from)) * 10
                    + digit_val(whole[i - from]));
                assert(dec_value(whole.take(i - from)) * 10 >= dec_value(whole.take(i - from)))
                    by (nonlinear_arith)
                    requires dec_value(whole.take(i - from)) >= 0;
            }
        } else if acc > (u32::MAX - d) / 10 {
            proof {
                assert(dec_value(whole.take(i + 1 - from)) == acc * 10 + d);
                assert(acc * 10 + d > u32::MAX) by (nonlinear_arith)
                    requires acc > (u32::MAX - d) / 10, 0 <= d <= 9;
            }
            overflowed = true;
        } else {
            proof {
                assert(acc * 10 + d <= u32::MAX) by (nonlinear_arith)
                    requires acc <= (u32::MAX - d) / 10, 0 <= d <= 9;
            }
            acc = acc * 10 + d;
        }
        i = i + 1;
    }
    proof {
        assert(whole.take(to - from) =~= whole);
    }
    if overflowed {
        None
    } else {
        Some(acc)
    }
}

/// No ten consecutive characters of `s` are all digits.
pub open spec fn digit_runs_bounded(s: Seq<char>) -> bool {
    forall|i: int| 0 <= i <= s.len() ==> #[trigger] digit_run_end(s, i) - i <= 9
}

/// Whether every digit run of `s` stays under ten digits.
pub fn check_digit_runs(s: &str) -> (r: bool)
    ensures
        r == digit_runs_bounded(s@),
{
    let n = s.unicode_len();
    let mut i: usize = 0;
    while i < n
        invariant
            0 <= i <= n,
            n == s@.len(),
            forall|j: int| 0 <= j < i ==> #[trigger] digit_run_end(s@, j) - j <= 9,
        decreases n - i,
    {
        let e = find_digit_run_end(s, i);
        proof {
            lemma_digit_run_end(s@, i as int);
        }
        if e - i > 9 {
            return false;
        }
        i = i + 1;
    }
    proof {
        assert forall|j: int| 0 <= j <= s@.len() implies #[trigger] digit_run_end(s@, j) - j
            <= 9 by {
            if j == s@.len() {
                assert(digit_run_end(s@, j) == j);
            }
        }
    }
    true
}

/// The digit character for a value between 0 and 9.
pub open spec fn digit_char(d: int) -> char {
    if d == 0 { '0' }
    else if d == 1 { '1' }
    else if d == 2 { '2' }
    else if d == 3 { '3' }
    else if d == 4 { '4' }
    else if d == 5 { '5' }
    else if d == 6 { '6' }
    else if d == 7 { '7' }
    else if d == 8 { '8' }
    else { '9' }
}

/// The decimal digits of a non-negative value.
pub open spec fn dec_digits(n: int) -> Seq<char>
    decreases n,
{
    if n < 10 {
        seq![digit_char(n)]
    } else {
        dec_digits(n / 10).push(digit_char(n % 10))
    }
}

/// The decimal rendering of a value, with a minus sign when negative.
pub open spec fn dec_str(n: int) -> Seq<char> {
    if n < 0 {
        seq!['-'] + dec_digits(-n)
    } else {
        dec_digits(n)
    }
}

/// Relies on `String::push`: appends one character to the string.
#[verifier::external_body]
fn push_char(s: &mut String, c: char)
    ensures
        final(s)@ == old(s)@.push(c),
{
    s.push(c);
}

fn digit_char_of(d: u32) -> (c: char)
    requires
        d <= 9,
    ensures
        c == digit_char(d as int),
{
    if d == 0 { '0' }
    else if d == 1 { '1' }
    else if d == 2 { '2' }
    else if d == 3 { '3' }
    else if d == 4 { '4' }
    else if d == 5 { '5' }
    else if d == 6 { '6' }
    else if d == 7 { '7' }
    else if d == 8 { '8' }
    else { '9' }
}

fn push_dec_digits(s: &mut String, n: u32)
    ensures
        final(s)@ == old(s)@ + dec_digits(n as int),
    decreases n,
{
    if n >= 10 {
        push_dec_digits(s, n / 10);
    }
    let ghost mid = s@;
    let c = digit_char_of(n % 10);
    push_char(s, c);
    proof {
        if n < 10 {
            assert(s@ =~= old(s)@ + dec_digits(n as int));
        } else {
            assert(mid == old(s)@ + dec_digits(n as int / 10));
            assert(s@ =~= old(s)@ + dec_digits(n as int));
        }
    }
}

/// Renders a value in decimal, with a minus sign when negative.
pub fn i32_to_string(n: i32) -> (r: String)
    ensures
        r@ == dec_str(n as int),
{
    let mut s = String::new();
    if n < 0 {
        push_char(&mut s, '-');
        let m: u32 = (-(n as i64)) as u32;
        push_dec_digits(&mut s, m);
        proof {
            assert(s@ =~= seq!['-'] + dec_digits(m as int));
        }
    } else {
        push_dec_digits(&mut s, n as u32);
        proof {
            assert(s@ =~= dec_digits(n as int));
        }
    }
    s
}

/// The first index at or after `i` that holds a space.
pub open spec fn token_end(s: Seq<char>, i: int) -> int
    decreases s.len() - i,
{
    if i < 0 || i >= s.len() || is_space(s[i]) {
        i
    } else {
        token_end(s, i + 1)
    }
}

pub proof fn lemma_token_end(s: Seq<char>, i: int)
    requires
        0 <= i <= s.len(),
    ensures
        i <= token_end(s, i) <= s.len(),
        forall|k: int| i <= k < token_end(s, i) ==> !is_space(s[k]),
        token_end(s, i) < s.len() ==> is_space(s[token_end(s, i)]),
    decreases s.len() - i,
{
    if i < s.len() && !is_space(s[i]) {
        lemma_token_end(s, i + 1);
    }
}

/// The whitespace-delimited tokens of `s`, from index `i` on.
pub open spec fn tokens_from(s: Seq<char>, i: int) -> Seq<Seq<char>>
    decreases s.len() - i,
    when 0 <= i
    via tokens_from_decreases
{
    if i >= s.len() {
        Seq::empty()
    } else if is_space(s[i]) {
        tokens_from(s, i + 1)
    } else {
        seq![s.subrange(i, token_end(s, i))] + tokens_from(s, token_end(s, i))
    }
}

#[via_fn]
proof fn tokens_from_decreases(s: Seq<char>, i: int) {
    if 0 <= i < s.len() && !is_space(s[i]) {
        lemma_token_end(s, i);
        assert(token_end(s, i) >= i + 1);
    }
}

/// The whitespace-delimited tokens of `s`.
pub open spec fn tokens_of(s: Seq<char>) -> Seq<Seq<char>> {
    tokens_from(s, 0)
}

/// Splits `s` into its whitespace-delimited tokens.
pub fn tokenize(s: &str) -> (r: Vec<String>)
    ensures
        r.deep_view() == tokens_of(s@),
{
    let n = s.unicode_len();
    let mut r: Vec<String> = Vec::new();
    let mut i: usize = 0;
    while i < n
        invariant
            0 <= i <= n,
            n == s@.len(),
            r.deep_view() + tokens_from(s@, i as int) == tokens_of(s@),
        decreases n - i,
    {
        if s.get_char(i) == ' ' {
            i = i + 1;
        } else {
            proof {
                lemma_token_end(s@, i as int);
            }
            let mut j = i + 1;
            while j < n && s.get_char(j) != ' '
                invariant
                    i < j <= n,
                    n == s@.len(),
                    forall|k: int| i <= k < j ==> !is_space(s@[k]),
                decreases n - j,
            {
                j = j + 1;
            }
            proof {
                lemma_token_end_pinned(s@, i as int, j as int);
            }
            let tok: String = s.substring_char(i, j).to_owned();
            let ghost prev = r.deep_view();
            r.push(tok);
            proof {
                assert(r.deep_view() =~= prev.push(tok@));
                assert(prev.push(tok@) + tokens_from(s@, j as int)
                    =~= prev + tokens_from(s@, i as int));
            }
            i = j;
        }
    }
    proof {
        assert(r.deep_view() + tokens_from(s@, i as int) =~= r.deep_view());
    }
    r
}

/// A stretch of non-spaces closed off by a space (or the end) is exactly
/// the token that starts at its first index.
pub proof fn lemma_token_end_pinned(s: Seq<char>, i: int, j: int)
    requires
        0 <= i <= j <= s.len(),
        forall|k: int| i <= k < j ==> !is_space(s[k]),
        j < s.len() ==> is_space(s[j]),
    ensures
        token_end(s, i) == j,
    decreases j - i,
{
    if i < j {
        lemma_token_end_pinned(s, i + 1, j);
    }
}

/// The tokens joined back together with single spaces.
pub open spec fn join_tokens(ts: Seq<Seq<char>>) -> Seq<char>
    decreases ts.len(),
{
    if ts.len() == 0 {
        Seq::empty()
    } else if ts.len() == 1 {
        ts[0]
    } else {
        ts[0] + seq![' '] + join_tokens(ts.skip(1))
    }
}

/// Joins the tokens of `v` with single spaces.
pub fn join(v: &Vec<String>) -> (r: String)
    ensures
        r@ == join_tokens(v.deep_view()),
{
    proof {
        assert(v.deep_view().skip(0) =~= v.deep_view());
    }
    join_from(v, 0)
}

fn join_from(v: &Vec<String>, i: usize) -> (r: String)
    requires
        i <= v.len(),
    ensures
        r@ == join_tokens(v.deep_view().skip(i as int)),
    decreases v.len() - i,
{
    if i == v.len() {
        proof {
            assert(v.deep_view().skip(i as int) =~= Seq::<Seq<char>>::empty());
        }
        String::new()
    } else if i + 1 == v.len() {
        proof {
            assert(v.deep_view().skip(i as int).len() == 1);
            assert(v.deep_view().skip(i as int)[0] == v.deep_view()[i as int]);
        }
        v[i].clone()
    } else {
        let mut r = v[i].clone();
        r.append(" ");
        let rest = join_from(v, i + 1);
        r.append(rest.as_str());
        proof {
            reveal_strlit(" ");
            assert(" "@ =~= seq![' ']);
            let ts = v.deep_view().skip(i as int);
            assert(ts.len() >= 2);
            assert(ts[0] == v.deep_view()[i as int]);
            assert(ts.skip(1) =~= v.deep_view().skip(i as int + 1));
            assert(r@ =~= ts[0] + seq![' '] + join_tokens(ts.skip(1)));
        }
        r
    }
}

} // verus!
