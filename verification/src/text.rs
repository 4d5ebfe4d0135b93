//! Verified text utilities: space-separated tokenization, joining, decimal
//! integer formatting and parsing, and plain string comparisons. These back
//! the cue slug parser, the sequence-id extraction from OSC addresses, and
//! the construction of outbound console addresses and fader keys.

use vstd::prelude::*;

verus! {

// ---------------------------------------------------------------------------
// Tokenization on spaces
// ---------------------------------------------------------------------------

/// Index of the first space in `s`, or `s.len()` if there is none.
pub open spec fn token_end(s: Seq<char>) -> int
    decreases s.len(),
{
    if s.len() == 0 {
        0
    } else if s[0] == ' ' {
        0
    } else {
        1 + token_end(s.drop_first())
    }
}

pub proof fn lemma_token_end(s: Seq<char>)
    ensures
        0 <= token_end(s) <= s.len(),
        token_end(s) < s.len() ==> s[token_end(s)] == ' ',
        forall|k: int| 0 <= k < token_end(s) ==> s[k] != ' ',
    decreases s.len(),
{
    if s.len() != 0 && s[0] != ' ' {
        lemma_token_end(s.drop_first());
        if token_end(s) < s.len() {
            assert(s[token_end(s)] == s.drop_first()[token_end(s.drop_first())]);
        }
        assert forall|k: int| 0 <= k < token_end(s) implies s[k] != ' ' by {
            if k > 0 {
                assert(s[k] == s.drop_first()[k - 1]);
            }
        }
    }
}

/// The maximal runs of non-space characters in `s`, in order.
pub open spec fn tokens_of(s: Seq<char>) -> Seq<Seq<char>>
    decreases s.len(),
    via tokens_of_dec
{
    if s.len() == 0 {
        seq![]
    } else if s[0] == ' ' {
        tokens_of(s.drop_first())
    } else {
        seq![s.take(token_end(s))] + tokens_of(s.skip(token_end(s)))
    }
}

#[via_fn]
proof fn tokens_of_dec(s: Seq<char>) {
    if s.len() != 0 && s[0] != ' ' {
        lemma_token_end(s);
    }
}

/// The tokens joined with a single space between consecutive tokens.
pub open spec fn joined(ts: Seq<Seq<char>>) -> Seq<char>
    decreases ts.len(),
{
    if ts.len() == 0 {
        seq![]
    } else if ts.len() == 1 {
        ts[0]
    } else {
        ts[0] + seq![' '] + joined(ts.drop_first())
    }
}

pub proof fn lemma_joined_push(ts: Seq<Seq<char>>, t: Seq<char>)
    ensures
        ts.len() == 0 ==> joined(ts.push(t)) == t,
        ts.len() > 0 ==> joined(ts.push(t)) == joined(ts) + seq![' '] + t,
    decreases ts.len(),
{
    if ts.len() == 0 {
        assert(ts.push(t)[0] == t);
        assert(joined(ts.push(t)) == t);
    } else {
        lemma_joined_push(ts.drop_first(), t);
        assert(ts.push(t).drop_first() =~= ts.drop_first().push(t));
        if ts.len() == 1 {
            assert(joined(ts.push(t)) == ts[0] + seq![' '] + t);
            assert(joined(ts) == ts[0]);
        } else {
            assert(joined(ts.push(t)) == ts[0] + seq![' '] + joined(ts.drop_first().push(t)));
            assert(ts[0] + seq![' '] + (joined(ts.drop_first()) + seq![' '] + t) =~= (ts[0]
                + seq![' '] + joined(ts.drop_first())) + seq![' '] + t);
        }
    }
}

/// Splits `s` into its maximal runs of non-space characters.
pub fn split_tokens(s: &str) -> (r: Vec<String>)
    ensures
        r@.map_values(|t: String| t@) == tokens_of(s@),
    decreases s@.len(),
{
    let n = s.unicode_len();
    if n == 0 {
        let r: Vec<String> = Vec::new();
        assert(r@.map_values(|t: String| t@) =~= tokens_of(s@));
        r
    } else if s.get_char(0) == ' ' {
        let rest = s.substring_char(1, n);
        assert(rest@ == s@.drop_first());
        split_tokens(rest)
    } else {
        proof {
            lemma_token_end(s@);
        }
        let mut j: usize = 0;
        while j < n && s.get_char(j) != ' '
            invariant
                0 <= j <= n,
                n == s@.len(),
                forall|k: int| 0 <= k < j ==> s@[k] != ' ',
            decreases n - j,
        {
            j += 1;
        }
        proof {
            // j is the first space index or the length, so it is token_end.
            if j < n {
                assert(s@[j as int] == ' ');
            }
            if token_end(s@) < j {
                assert(s@[token_end(s@)] == ' ');
            }
            if j < token_end(s@) {
                assert(s@[j as int] != ' ');
            }
            assert(j == token_end(s@));
        }
        let tok = s.substring_char(0, j);
        let rest = s.substring_char(j, n);
        assert(rest@ == s@.skip(token_end(s@)));
        let mut r = split_tokens(rest);
        let tok_string = tok.to_owned();
        r.insert(0, tok_string);
        assert(r@.map_values(|t: String| t@) =~= tokens_of(s@));
        r
    }
}

// ---------------------------------------------------------------------------
// Decimal integers
// ---------------------------------------------------------------------------

pub open spec fn dec_digit(d: int) -> char {
    if d == 0 {
        '0'
    } else if d == 1 {
        '1'
    } else if d == 2 {
        '2'
    } else if d == 3 {
        '3'
    } else if d == 4 {
        '4'
    } else if d == 5 {
        '5'
    } else if d == 6 {
        '6'
    } else if d == 7 {
        '7'
    } else if d == 8 {
        '8'
    } else {
        '9'
    }
}

/// The decimal digits of a non-negative integer, most significant first.
pub open spec fn dec_str_nat(n: int) -> Seq<char>
    decreases n,
{
    if n < 10 {
        seq![dec_digit(n)]
    } else {
        dec_str_nat(n / 10).push(dec_digit(n % 10))
    }
}

/// The decimal rendering of an integer, with a leading '-' when negative.
pub open spec fn dec_str(n: int) -> Seq<char> {
    if n < 0 {
        seq!['-'] + dec_str_nat(-n)
    } else {
        dec_str_nat(n)
    }
}

fn digit_str(d: i64) -> (r: &'static str)
    requires
        0 <= d <= 9,
    ensures
        r@ == seq![dec_digit(d as int)],
{
    proof {
        reveal_strlit("0");
        reveal_strlit("1");
        reveal_strlit("2");
        reveal_strlit("3");
        reveal_strlit("4");
        reveal_strlit("5");
        reveal_strlit("6");
        reveal_strlit("7");
        reveal_strlit("8");
        reveal_strlit("9");
    }
    let r: &'static str = if d == 0 {
        "0"
    } else if d == 1 {
        "1"
    } else if d == 2 {
        "2"
    } else if d == 3 {
        "3"
    } else if d == 4 {
        "4"
    } else if d == 5 {
        "5"
    } else if d == 6 {
        "6"
    } else if d == 7 {
        "7"
    } else if d == 8 {
        "8"
    } else {
        "9"
    };
    proof {
        assert(r@ =~= seq![dec_digit(d as int)]);
    }
    r
}

fn nat_to_string(n: i64) -> (r: String)
    requires
        n >= 0,
    ensures
        r@ == dec_str_nat(n as int),
    decreases n,
{
    if n < 10 {
        let d = digit_str(n);
        let r = d.to_owned();
        r
    } else {
        let mut r = nat_to_string(n / 10);
        let d = digit_str(n % 10);
        r.append(d);
        r
    }
}

/// Renders an `i32` in decimal, as the console addresses and fader keys need.
pub fn i32_to_string(n: i32) -> (r: String)
    ensures
        r@ == dec_str(n as int),
{
    let wide: i64 = n as i64;
    if wide < 0 {
        let mut r = String::from_str("-");
        proof {
            reveal_strlit("-");
            assert(r@ =~= seq!['-']);
        }
        let digits = nat_to_string(-wide);
        r.append(digits.as_str());
        proof {
            assert(r@ =~= dec_str(n as int));
        }
        r
    } else {
        nat_to_string(wide)
    }
}

pub open spec fn is_dec_digit(c: char) -> bool {
    c == '0' || c == '1' || c == '2' || c == '3' || c == '4' || c == '5' || c == '6' || c == '7'
        || c == '8' || c == '9'
}

pub open spec fn digit_val(c: char) -> int {
    if c == '0' {
        0
    } else if c == '1' {
        1
    } else if c == '2' {
        2
    } else if c == '3' {
        3
    } else if c == '4' {
        4
    } else if c == '5' {
        5
    } else if c == '6' {
        6
    } else if c == '7' {
        7
    } else if c == '8' {
        8
    } else {
        9
    }
}

/// The value of a sequence of decimal digits, most significant first.
pub open spec fn digits_val(s: Seq<char>) -> int
    decreases s.len(),
{
    if s.len() == 0 {
        0
    } else {
        digits_val(s.drop_last()) * 10 + digit_val(s.last())
    }
}

pub proof fn lemma_digits_val_nonneg(s: Seq<char>)
    ensures
        digits_val(s) >= 0,
    decreases s.len(),
{
    if s.len() > 0 {
        lemma_digits_val_nonneg(s.drop_last());
    }
}

/// Appending further digits never shrinks the value.
pub proof fn lemma_digits_val_prefix(s: Seq<char>, k: int)
    requires
        0 <= k <= s.len(),
    ensures
        digits_val(s) >= digits_val(s.take(k)),
    decreases s.len() - k,
{
    lemma_digits_val_nonneg(s.take(k));
    if k < s.len() {
        lemma_digits_val_prefix(s, k + 1);
        assert(s.take(k + 1).drop_last() =~= s.take(k));
        lemma_digits_val_nonneg(s.take(k));
        assert(digits_val(s.take(k + 1)) == digits_val(s.take(k)) * 10 + digit_val(s[k]));
        assert(digits_val(s.take(k)) * 10 >= digits_val(s.take(k)));
    } else {
        assert(s.take(k) =~= s);
    }
}

pub open spec fn all_dec_digits(s: Seq<char>) -> bool {
    forall|k: int| 0 <= k < s.len() ==> is_dec_digit(s[k])
}

/// What parsing a decimal integer accepts: an optional sign followed by at
/// least one digit, the value within the `i32` range.
pub open spec fn parse_i32_spec(s: Seq<char>) -> Option<i32> {
    let negative = s.len() > 0 && s[0] == '-';
    let digits = if s.len() > 0 && (s[0] == '-' || s[0] == '+') {
        s.drop_first()
    } else {
        s
    };
    if digits.len() == 0 || !all_dec_digits(digits) {
        None
    } else {
        let magnitude = digits_val(digits);
        let value = if negative {
            -magnitude
        } else {
            magnitude
        };
        if i32::MIN <= value <= i32::MAX {
            Some(value as i32)
        } else {
            None
        }
    }
}

fn digit_of_char(c: char) -> (r: Option<i64>)
    ensures
        r matches Some(v) ==> is_dec_digit(c) && v == digit_val(c) && 0 <= v <= 9,
        r is None ==> !is_dec_digit(c),
{
    if c == '0' {
        Some(0)
    } else if c == '1' {
        Some(1)
    } else if c == '2' {
        Some(2)
    } else if c == '3' {
        Some(3)
    } else if c == '4' {
        Some(4)
    } else if c == '5' {
        Some(5)
    } else if c == '6' {
        Some(6)
    } else if c == '7' {
        Some(7)
    } else if c == '8' {
        Some(8)
    } else if c == '9' {
        Some(9)
    } else {
        None
    }
}

/// Parses a decimal integer as the dispatch loop needs for sequence ids.
pub fn parse_i32(s: &str) -> (r: Option<i32>)
    ensures
        r == parse_i32_spec(s@),
{
    let n = s.unicode_len();
    let mut start: usize = 0;
    let mut negative = false;
    if n > 0 && s.get_char(0) == '-' {
        negative = true;
        start = 1;
    } else if n > 0 && s.get_char(0) == '+' {
        start = 1;
    }
    let ghost digits: Seq<char> = s@.skip(start as int);
    proof {
        if start == 1 {
            assert(digits =~= s@.drop_first());
        } else {
            assert(digits =~= s@);
        }
    }
    if start == n {
        assert(digits.len() == 0);
        return None;
    }
    let mut acc: i64 = 0;
    let mut i: usize = start;
    while i < n
        invariant
            start <= i <= n,
            n == s@.len(),
            start < n,
            start == 0 || start == 1,
            (start == 1) == (s@.len() > 0 && (s@[0] == '-' || s@[0] == '+')),
            negative == (s@.len() > 0 && s@[0] == '-'),
            digits == s@.skip(start as int),
            digits == (if s@.len() > 0 && (s@[0] == '-' || s@[0] == '+') {
                s@.drop_first()
            } else {
                s@
            }),
            0 <= acc <= 2147483648,
            acc == digits_val(digits.take(i - start)),
            forall|k: int| 0 <= k < i - start ==> is_dec_digit(digits[k]),
        decreases n - i,
    {
        let c = s.get_char(i);
        assert(digits[i - start] == c);
        match digit_of_char(c) {
            None => {
                proof {
                    assert(!all_dec_digits(digits)) by {
                        assert(0 <= i - start < digits.len() && !is_dec_digit(
                            digits[i - start],
                        ));
                    }
                }
                return None;
            },
            Some(d) => {
                proof {
                    assert(digits.take(i - start + 1).drop_last() =~= digits.take(i - start));
                }
                let next = acc * 10 + d;
                if next > 2147483648 {
                    proof {
                        lemma_digits_val_prefix(digits, i - start + 1);
                        assert(digits_val(digits) >= next);
                        assert(digits.take(digits.len() as int) =~= digits);
                    }
                    return None;
                }
                acc = next;
            },
        }
        i += 1;
    }
    proof {
        assert(digits.take(digits.len() as int) =~= digits);
        assert(acc == digits_val(digits));
    }
    if negative {
        let value = -acc;
        assert(i32::MIN <= value <= i32::MAX);
        Some(value as i32)
    } else {
        if acc > 2147483647 {
            return None;
        }
        Some(acc as i32)
    }
}

// ---------------------------------------------------------------------------
// The trailing dot-separated segment of an address
// ---------------------------------------------------------------------------

/// The suffix of `s` after its last '.', or all of `s` if it has none.
pub open spec fn after_last_dot(s: Seq<char>) -> Seq<char>
    decreases s.len(),
{
    if s.len() == 0 {
        seq![]
    } else if s.last() == '.' {
        seq![]
    } else {
        after_last_dot(s.drop_last()).push(s.last())
    }
}

pub proof fn lemma_after_last_dot_no_dot(s: Seq<char>)
    requires
        forall|k: int| 0 <= k < s.len() ==> s[k] != '.',
    ensures
        after_last_dot(s) == s,
    decreases s.len(),
{
    if s.len() > 0 {
        lemma_after_last_dot_no_dot(s.drop_last());
        assert(after_last_dot(s) =~= s);
    } else {
        assert(after_last_dot(s) =~= s);
    }
}

pub proof fn lemma_after_last_dot_at(s: Seq<char>, k: int)
    requires
        0 <= k < s.len(),
        s[k] == '.',
        forall|j: int| k < j < s.len() ==> s[j] != '.',
    ensures
        after_last_dot(s) == s.skip(k + 1),
    decreases s.len(),
{
    if k == s.len() - 1 {
        assert(after_last_dot(s) =~= s.skip(k + 1));
    } else {
        lemma_after_last_dot_at(s.drop_last(), k);
        assert(s.drop_last().skip(k + 1) =~= s.skip(k + 1).drop_last());
        assert(after_last_dot(s) =~= s.skip(k + 1));
    }
}

/// The substring after the last '.' of `s`, the whole of `s` if it has none.
pub fn trailing_segment(s: &str) -> (r: String)
    ensures
        r@ == after_last_dot(s@),
{
    let n = s.unicode_len();
    let mut i: usize = n;
    while i > 0
        invariant
            0 <= i <= n,
            n == s@.len(),
            forall|j: int| i <= j < n ==> s@[j] != '.',
        decreases i,
    {
        if s.get_char(i - 1) == '.' {
            let tail = s.substring_char(i, n);
            proof {
                lemma_after_last_dot_at(s@, i - 1);
                assert(tail@ =~= s@.skip(i as int));
            }
            return tail.to_owned();
        }
        i -= 1;
    }
    proof {
        lemma_after_last_dot_no_dot(s@);
    }
    let whole = s.substring_char(0, n);
    proof {
        assert(whole@ =~= s@);
    }
    whole.to_owned()
}

// ---------------------------------------------------------------------------
// Plain string comparisons
// ---------------------------------------------------------------------------

/// Character-wise string equality, stated over the views.
pub fn str_eq(a: &str, b: &str) -> (r: bool)
    ensures
        r == (a@ == b@),
{
    let na = a.unicode_len();
    let nb = b.unicode_len();
    if na != nb {
        return false;
    }
    let mut i: usize = 0;
    while i < na
        invariant
            0 <= i <= na,
            na == a@.len(),
            na == b@.len(),
            forall|k: int| 0 <= k < i ==> a@[k] == b@[k],
        decreases na - i,
    {
        if a.get_char(i) != b.get_char(i) {
            return false;
        }
        i += 1;
    }
    proof {
        assert(a@ =~= b@);
    }
    true
}

/// Whether `p` is a prefix of `s`, stated over the views.
pub fn str_starts_with(s: &str, p: &str) -> (r: bool)
    ensures
        r == p@.is_prefix_of(s@),
{
    let ns = s.unicode_len();
    let np = p.unicode_len();
    if np > ns {
        assert(!p@.is_prefix_of(s@));
        return false;
    }
    let mut i: usize = 0;
    while i < np
        invariant
            0 <= i <= np,
            np <= ns,
            ns == s@.len(),
            np == p@.len(),
            forall|k: int| 0 <= k < i ==> s@[k] == p@[k],
        decreases np - i,
    {
        if s.get_char(i) != p.get_char(i) {
            assert(!p@.is_prefix_of(s@));
            return false;
        }
        i += 1;
    }
    proof {
        assert(p@ =~= s@.take(np as int));
    }
    true
}

} // verus!
