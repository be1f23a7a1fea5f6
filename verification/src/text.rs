//! Verified building blocks for text handling: character-level string
//! predicates, single-pass tag replacement, and decimal digit sequences.

#![verifier::loop_isolation(false)]

use vstd::prelude::*;

verus! {

// ---------------------------------------------------------------------------
// Digit characters and the value of a digit sequence
// ---------------------------------------------------------------------------

/// `c` is one of the ASCII digits `'0'` through `'9'`.
pub open spec fn is_digit_char(c: char) -> bool {
    48 <= c as u32 && c as u32 <= 57
}

/// Numeric value of a digit character.
pub open spec fn digit_of(c: char) -> int {
    c as u32 - 48
}

/// Every character of `s` is a digit.
pub open spec fn all_digits(s: Seq<char>) -> bool {
    forall|i: int| 0 <= i < s.len() ==> is_digit_char(#[trigger] s[i])
}

/// Ten to the power `n`.
pub open spec fn pow10(n: nat) -> int
    decreases n,
{
    if n == 0 {
        1
    } else {
        10 * pow10((n - 1) as nat)
    }
}

/// The integer denoted by a sequence of digit characters, most significant
/// digit first.
pub open spec fn dec_value(s: Seq<char>) -> int
    decreases s.len(),
{
    if s.len() == 0 {
        0
    } else {
        dec_value(s.drop_last()) * 10 + digit_of(s.last())
    }
}

/// `k` zero characters.
pub open spec fn zero_chars(k: nat) -> Seq<char> {
    Seq::new(k, |i: int| '0')
}

/// Two characters are equal exactly when their code points are equal.
pub proof fn lemma_char_eq_iff_u32(a: char, b: char)
    ensures
        (a == b) <==> (a as u32 == b as u32),
{
    if a as u32 == b as u32 {
        vstd::utf8::char_u32_cast(a, a as u32);
        vstd::utf8::char_u32_cast(b, b as u32);
    }
}

pub proof fn lemma_pow10_pos(n: nat)
    ensures
        pow10(n) >= 1,
    decreases n,
{
    if n > 0 {
        lemma_pow10_pos((n - 1) as nat);
    }
}

pub proof fn lemma_pow10_mono(m: nat, n: nat)
    requires
        m <= n,
    ensures
        pow10(m) <= pow10(n),
    decreases n,
{
    if m < n {
        lemma_pow10_mono(m, (n - 1) as nat);
        lemma_pow10_pos((n - 1) as nat);
    }
}

pub proof fn lemma_pow10_adds(m: nat, n: nat)
    ensures
        pow10(m + n) == pow10(m) * pow10(n),
    decreases m,
{
    if m == 0 {
        assert(pow10(n) == 1 * pow10(n));
    } else {
        lemma_pow10_adds((m - 1) as nat, n);
        assert(pow10((m - 1) as nat + n) == pow10((m - 1) as nat) * pow10(n));
        assert(pow10(m + n) == 10 * pow10((m + n - 1) as nat));
        assert(10 * (pow10((m - 1) as nat) * pow10(n)) == (10 * pow10((m - 1) as nat)) * pow10(n))
            by (nonlinear_arith);
    }
}

pub proof fn lemma_dec_value_bounds(s: Seq<char>)
    requires
        all_digits(s),
    ensures
        0 <= dec_value(s),
        dec_value(s) < pow10(s.len()),
    decreases s.len(),
{
    if s.len() > 0 {
        let sd = s.drop_last();
        assert(all_digits(sd)) by {
            assert(forall|i: int| 0 <= i < sd.len() ==> #[trigger] sd[i] == s[i]);
        }
        lemma_dec_value_bounds(sd);
        assert(is_digit_char(s[s.len() - 1]));
        assert(pow10(s.len()) == 10 * pow10(sd.len()));
    }
}

/// A digit sequence whose first digit is not `'0'` denotes at least
/// `pow10(len - 1)`.
pub proof fn lemma_dec_value_leading(s: Seq<char>)
    requires
        all_digits(s),
        s.len() > 0,
        s[0] != '0',
    ensures
        dec_value(s) >= pow10((s.len() - 1) as nat),
    decreases s.len(),
{
    assert(is_digit_char(s[0]));
    lemma_char_eq_iff_u32(s[0], '0');
    if s.len() == 1 {
        assert(s.drop_last().len() == 0);
        assert(dec_value(s.drop_last()) == 0);
        assert(s.last() == s[0]);
        assert(digit_of(s[0]) >= 1);
        assert(dec_value(s) == digit_of(s[0]));
        assert(pow10((s.len() - 1) as nat) == 1);
    } else {
        let sd = s.drop_last();
        assert(all_digits(sd)) by {
            assert(forall|i: int| 0 <= i < sd.len() ==> #[trigger] sd[i] == s[i]);
        }
        assert(sd[0] == s[0]);
        lemma_dec_value_leading(sd);
        assert(is_digit_char(s[s.len() - 1]));
        assert(dec_value(s) >= pow10((s.len() - 1) as nat)) by (nonlinear_arith)
            requires
                dec_value(sd) >= pow10((sd.len() - 1) as nat),
                digit_of(s.last()) >= 0,
                dec_value(s) == dec_value(sd) * 10 + digit_of(s.last()),
                pow10((s.len() - 1) as nat) == 10 * pow10((sd.len() - 1) as nat),
        ;
    }
}

/// Appending digits to a digit sequence cannot decrease its value.
pub proof fn lemma_dec_value_prefix_le(s: Seq<char>, j: int)
    requires
        all_digits(s),
        0 <= j <= s.len(),
    ensures
        dec_value(s.take(j)) <= dec_value(s),
    decreases s.len() - j,
{
    if j == s.len() {
        assert(s.take(j) =~= s);
    } else {
        lemma_dec_value_prefix_le(s, j + 1);
        let t = s.take(j + 1);
        assert(t.drop_last() =~= s.take(j));
        assert(t.last() == s[j]);
        assert(all_digits(s.take(j))) by {
            assert(forall|i: int| 0 <= i < j ==> #[trigger] s.take(j)[i] == s[i]);
        }
        lemma_dec_value_bounds(s.take(j));
        assert(is_digit_char(s[j]));
    }
}

/// Appending `k` zero characters multiplies the value by `pow10(k)`.
pub proof fn lemma_dec_value_append_zeros(s: Seq<char>, k: nat)
    ensures
        dec_value(s + zero_chars(k)) == dec_value(s) * pow10(k),
    decreases k,
{
    if k == 0 {
        assert(s + zero_chars(0) =~= s);
    } else {
        lemma_dec_value_append_zeros(s, (k - 1) as nat);
        let t = s + zero_chars((k - 1) as nat);
        let u = s + zero_chars(k);
        assert(u.drop_last() =~= t);
        assert(u.last() == '0');
        assert(digit_of('0') == 0);
        assert(dec_value(u) == dec_value(t) * 10);
        assert(dec_value(s) * pow10((k - 1) as nat) * 10 == dec_value(s) * pow10(k)) by (nonlinear_arith)
            requires
                pow10(k) == 10 * pow10((k - 1) as nat),
        ;
    }
}

/// Leading zero characters do not change the value.
pub proof fn lemma_dec_value_strip_zeros(s: Seq<char>, k: int)
    requires
        0 <= k <= s.len(),
        forall|i: int| 0 <= i < k ==> s[i] == '0',
    ensures
        dec_value(s.skip(k)) == dec_value(s),
    decreases s.len(),
{
    if s.len() == k {
        assert(s.skip(k) =~= Seq::<char>::empty());
        lemma_dec_value_all_zeros(s);
    } else {
        let sd = s.drop_last();
        lemma_dec_value_strip_zeros(sd, k);
        assert(s.skip(k).drop_last() =~= sd.skip(k));
        assert(s.skip(k).last() == s.last());
    }
}

/// A sequence of zero characters denotes zero.
pub proof fn lemma_dec_value_all_zeros(s: Seq<char>)
    requires
        forall|i: int| 0 <= i < s.len() ==> s[i] == '0',
    ensures
        dec_value(s) == 0,
    decreases s.len(),
{
    if s.len() > 0 {
        lemma_dec_value_all_zeros(s.drop_last());
        assert(s.last() == '0');
        assert(digit_of('0') == 0);
    }
}

/// A digit sequence denotes zero exactly when all its digits are zero.
pub proof fn lemma_dec_value_zero_iff(s: Seq<char>)
    requires
        all_digits(s),
    ensures
        dec_value(s) == 0 <==> (forall|i: int| 0 <= i < s.len() ==> s[i] == '0'),
    decreases s.len(),
{
    if s.len() > 0 {
        let sd = s.drop_last();
        assert(all_digits(sd)) by {
            assert(forall|i: int| 0 <= i < sd.len() ==> #[trigger] sd[i] == s[i]);
        }
        lemma_dec_value_zero_iff(sd);
        lemma_dec_value_bounds(sd);
        assert(is_digit_char(s[s.len() - 1]));
        if dec_value(s) == 0 {
            assert(dec_value(sd) == 0 && digit_of(s.last()) == 0);
            lemma_char_eq_iff_u32(s.last(), '0');
            assert(s.last() == '0');
            assert(forall|i: int| 0 <= i < s.len() - 1 ==> #[trigger] s[i] == sd[i]);
        } else {
            if forall|i: int| 0 <= i < s.len() ==> s[i] == '0' {
                lemma_dec_value_all_zeros(s);
            }
        }
    }
}

/// Digit sequences of equal length compare like their values: a smaller
/// digit at the first differing position means a smaller value.
pub proof fn lemma_dec_value_lex(s: Seq<char>, t: Seq<char>, i: int)
    requires
        all_digits(s),
        all_digits(t),
        s.len() == t.len(),
        0 <= i < s.len(),
        forall|j: int| 0 <= j < i ==> s[j] == t[j],
        digit_of(s[i]) < digit_of(t[i]),
    ensures
        dec_value(s) < dec_value(t),
    decreases s.len(),
{
    let sd = s.drop_last();
    let td = t.drop_last();
    assert(all_digits(sd) && all_digits(td)) by {
        assert(forall|j: int| 0 <= j < sd.len() ==> #[trigger] sd[j] == s[j]);
        assert(forall|j: int| 0 <= j < td.len() ==> #[trigger] td[j] == t[j]);
    }
    assert(is_digit_char(s[s.len() - 1]));
    assert(is_digit_char(t[t.len() - 1]));
    if i == s.len() - 1 {
        assert(sd =~= td);
    } else {
        lemma_dec_value_lex(sd, td, i);
    }
}

// ---------------------------------------------------------------------------
// String predicates
// ---------------------------------------------------------------------------

/// `needle` occurs in `haystack` starting at character index `at`.
pub open spec fn occurs_at(haystack: Seq<char>, needle: Seq<char>, at: int) -> bool {
    &&& 0 <= at
    &&& at + needle.len() <= haystack.len()
    &&& haystack.subrange(at, at + needle.len() as int) == needle
}

/// `needle` occurs somewhere in `haystack`.
pub open spec fn contains_seq(haystack: Seq<char>, needle: Seq<char>) -> bool {
    exists|at: int| occurs_at(haystack, needle, at)
}

/// Character-by-character string equality, proved against the string views.
pub fn str_eq(a: &str, b: &str) -> (r: bool)
    ensures
        r == (a@ == b@),
{
    let a_len = a.unicode_len();
    let b_len = b.unicode_len();
    if a_len != b_len {
        return false;
    }
    let mut i: usize = 0;
    while i < a_len
        invariant
            i <= a_len,
            forall|j: int| 0 <= j < i ==> a@[j] == b@[j],
        decreases a_len - i,
    {
        if a.get_char(i) != b.get_char(i) {
            return false;
        }
        i += 1;
    }
    assert(a@ =~= b@);
    true
}

/// Does `needle` occur in `haystack` at character position `at`?
pub fn matches_at(haystack: &str, needle: &str, at: usize) -> (r: bool)
    ensures
        r == occurs_at(haystack@, needle@, at as int),
{
    let h_len = haystack.unicode_len();
    let n_len = needle.unicode_len();
    if at > h_len || n_len > h_len - at {
        return false;
    }
    let mut i: usize = 0;
    while i < n_len
        invariant
            i <= n_len,
            at + n_len <= h_len,
            forall|j: int| 0 <= j < i ==> haystack@[at + j] == needle@[j],
        decreases n_len - i,
    {
        if haystack.get_char(at + i) != needle.get_char(i) {
            assert(haystack@.subrange(at as int, at + needle@.len() as int)[i as int]
                != needle@[i as int]);
            return false;
        }
        i += 1;
    }
    assert(haystack@.subrange(at as int, at + needle@.len() as int) =~= needle@);
    true
}

/// Substring test over the character views.
pub fn str_contains(haystack: &str, needle: &str) -> (r: bool)
    ensures
        r == contains_seq(haystack@, needle@),
{
    let h_len = haystack.unicode_len();
    let n_len = needle.unicode_len();
    if n_len > h_len {
        assert(forall|at: int| !occurs_at(haystack@, needle@, at));
        return false;
    }
    let limit = h_len - n_len;
    let mut at: usize = 0;
    loop
        invariant
            n_len <= h_len,
            limit == h_len - n_len,
            at <= limit,
            forall|p: int| 0 <= p < at ==> !occurs_at(haystack@, needle@, p),
        decreases limit - at,
    {
        if matches_at(haystack, needle, at) {
            return true;
        }
        if at == limit {
            break;
        }
        at += 1;
    }
    assert(forall|p: int| occurs_at(haystack@, needle@, p) ==> 0 <= p <= h_len - n_len);
    false
}

/// Prefix test over the character views.
pub fn str_starts_with(haystack: &str, needle: &str) -> (r: bool)
    ensures
        r == occurs_at(haystack@, needle@, 0),
{
    matches_at(haystack, needle, 0)
}

/// Suffix test over the character views.
pub fn str_ends_with(haystack: &str, needle: &str) -> (r: bool)
    ensures
        r == (needle@.len() <= haystack@.len() && occurs_at(
            haystack@,
            needle@,
            haystack@.len() - needle@.len(),
        )),
{
    let h_len = haystack.unicode_len();
    let n_len = needle.unicode_len();
    if n_len > h_len {
        return false;
    }
    matches_at(haystack, needle, h_len - n_len)
}

// ---------------------------------------------------------------------------
// Single-pass replacement of every occurrence of a pattern
// ---------------------------------------------------------------------------

/// Left-to-right, non-overlapping replacement of every occurrence of
/// `pat` in `s` by `to`, in a single pass: replaced text is never scanned
/// again for further occurrences of `pat`.
pub open spec fn replace_all_spec(s: Seq<char>, pat: Seq<char>, to: Seq<char>) -> Seq<char>
    decreases s.len(),
{
    if s.len() == 0 {
        Seq::empty()
    } else if pat.len() > 0 && occurs_at(s, pat, 0) {
        to + replace_all_spec(s.skip(pat.len() as int), pat, to)
    } else {
        seq![s[0]] + replace_all_spec(s.skip(1), pat, to)
    }
}

/// Replace every occurrence of `pat` in `s` by `to`, scanning left to
/// right in a single pass.
pub fn replace_all(s: &str, pat: &str, to: &str) -> (r: String)
    requires
        pat@.len() > 0,
    ensures
        r@ == replace_all_spec(s@, pat@, to@),
{
    let s_len = s.unicode_len();
    let p_len = pat.unicode_len();
    let mut out = String::new();
    let mut i: usize = 0;
    proof {
        assert(s@.skip(0) =~= s@);
        assert(out@ + replace_all_spec(s@, pat@, to@) =~= replace_all_spec(s@, pat@, to@));
    }
    while i < s_len
        invariant
            i <= s_len,
            out@ + replace_all_spec(s@.skip(i as int), pat@, to@) == replace_all_spec(
                s@,
                pat@,
                to@,
            ),
        decreases s_len - i,
    {
        let ghost rest = s@.skip(i as int);
        if matches_at(s, pat, i) {
            proof {
                assert(rest.subrange(0, pat@.len() as int) =~= s@.subrange(
                    i as int,
                    i + pat@.len(),
                ));
                assert(occurs_at(rest, pat@, 0));
                assert(rest.skip(pat@.len() as int) =~= s@.skip(i + pat@.len()));
            }
            out.append(to);
            i += p_len;
        } else {
            proof {
                assert(!occurs_at(rest, pat@, 0)) by {
                    if occurs_at(rest, pat@, 0) {
                        assert(s@.subrange(i as int, i + pat@.len()) =~= rest.subrange(
                            0,
                            pat@.len() as int,
                        ));
                    }
                }
                assert(rest[0] == s@[i as int]);
                assert(rest.skip(1) =~= s@.skip(i + 1));
            }
            let c = s.substring_char(i, i + 1);
            proof {
                assert(c@ =~= seq![s@[i as int]]);
            }
            out.append(c);
            i += 1;
        }
    }
    proof {
        assert(s@.skip(s_len as int) =~= Seq::<char>::empty());
        assert(out@ + Seq::<char>::empty() =~= out@);
    }
    out
}

// ---------------------------------------------------------------------------
// Lowercasing
// ---------------------------------------------------------------------------

// ---------------------------------------------------------------------------
// Parsing decimal integers
// ---------------------------------------------------------------------------

/// The value of a nonempty all-digit sequence, when it fits in a `u64`.
pub open spec fn parse_digits_spec(t: Seq<char>) -> Option<int> {
    if t.len() > 0 && all_digits(t) && dec_value(t) <= u64::MAX {
        Some(dec_value(t))
    } else {
        None
    }
}

/// How `str::parse::<usize>` reads a string: an optional `+` sign, then
/// one or more digits, rejected when the value exceeds `usize::MAX`.
pub open spec fn parse_usize_spec(s: Seq<char>) -> Option<int> {
    let body = if s.len() > 0 && s[0] == '+' {
        s.skip(1)
    } else {
        s
    };
    if body.len() > 0 && all_digits(body) && dec_value(body) <= usize::MAX {
        Some(dec_value(body))
    } else {
        None
    }
}

/// How `str::parse::<u64>` reads a string.
pub open spec fn parse_u64_spec(s: Seq<char>) -> Option<int> {
    let body = if s.len() > 0 && s[0] == '+' {
        s.skip(1)
    } else {
        s
    };
    if body.len() > 0 && all_digits(body) && dec_value(body) <= u64::MAX {
        Some(dec_value(body))
    } else {
        None
    }
}

/// How `str::parse::<i64>` reads a string: an optional sign, then one or
/// more digits, rejected when the value falls outside the `i64` range.
pub open spec fn parse_i64_spec(s: Seq<char>) -> Option<int> {
    let neg = s.len() > 0 && s[0] == '-';
    let body = if s.len() > 0 && (s[0] == '-' || s[0] == '+') {
        s.skip(1)
    } else {
        s
    };
    if body.len() > 0 && all_digits(body) {
        let v = if neg {
            -dec_value(body)
        } else {
            dec_value(body)
        };
        if i64::MIN <= v <= i64::MAX {
            Some(v)
        } else {
            None
        }
    } else {
        None
    }
}

/// Accumulate the digits of `s` from character position `start` on.
fn parse_digits_u64(s: &str, start: usize) -> (r: Option<u64>)
    requires
        start <= s@.len(),
    ensures
        match r {
            Some(v) => parse_digits_spec(s@.skip(start as int)) == Some(v as int),
            None => parse_digits_spec(s@.skip(start as int)) is None,
        },
{
    let ghost t = s@.skip(start as int);
    let len = s.unicode_len();
    if start == len {
        return None;
    }
    let mut acc: u64 = 0;
    let mut i: usize = start;
    proof {
        assert(t.take(0) =~= Seq::<char>::empty());
    }
    while i < len
        invariant
            start <= i <= len,
            all_digits(t.take(i - start)),
            acc == dec_value(t.take(i - start)),
        decreases len - i,
    {
        let c = s.get_char(i);
        let cu = c as u32;
        proof {
            assert(t[i - start] == s@[i as int]);
        }
        if cu < 48 || cu > 57 {
            assert(!is_digit_char(t[i - start]));
            return None;
        }
        let d = (cu - 48) as u64;
        let ghost t_next = t.take(i - start + 1);
        proof {
            assert(t_next.drop_last() =~= t.take(i - start));
            assert(t_next.last() == t[i - start]);
            assert(all_digits(t_next)) by {
                assert(forall|j: int|
                    0 <= j < t_next.len() ==> #[trigger] t_next[j] == t.take(i - start + 1)[j]);
            }
            assert(dec_value(t_next) == acc * 10 + d);
        }
        let next = match acc.checked_mul(10) {
            Some(x) => x.checked_add(d),
            None => None,
        };
        match next {
            Some(v) => {
                acc = v;
            },
            None => {
                proof {
                    if all_digits(t) {
                        lemma_dec_value_prefix_le(t, i - start + 1);
                    }
                }
                return None;
            },
        }
        i += 1;
    }
    proof {
        assert(t.take(len - start) =~= t);
    }
    Some(acc)
}

/// Parse an unsigned decimal integer the way `str::parse::<usize>` does.
pub fn parse_usize(s: &str) -> (r: Option<usize>)
    ensures
        match r {
            Some(v) => parse_usize_spec(s@) == Some(v as int),
            None => parse_usize_spec(s@) is None,
        },
{
    let len = s.unicode_len();
    let start: usize = if len > 0 && s.get_char(0) == '+' {
        1
    } else {
        0
    };
    proof {
        if start == 0 {
            assert(s@.skip(0) =~= s@);
        }
    }
    match parse_digits_u64(s, start) {
        Some(v) => {
            if v <= usize::MAX as u64 {
                Some(v as usize)
            } else {
                None
            }
        },
        None => None,
    }
}

/// Parse an unsigned decimal integer the way `str::parse::<u64>` does.
pub fn parse_u64(s: &str) -> (r: Option<u64>)
    ensures
        match r {
            Some(v) => parse_u64_spec(s@) == Some(v as int),
            None => parse_u64_spec(s@) is None,
        },
{
    let len = s.unicode_len();
    let start: usize = if len > 0 && s.get_char(0) == '+' {
        1
    } else {
        0
    };
    proof {
        if start == 0 {
            assert(s@.skip(0) =~= s@);
        }
    }
    parse_digits_u64(s, start)
}

/// Parse a signed decimal integer the way `str::parse::<i64>` does.
pub fn parse_i64(s: &str) -> (r: Option<i64>)
    ensures
        match r {
            Some(v) => parse_i64_spec(s@) == Some(v as int),
            None => parse_i64_spec(s@) is None,
        },
{
    let len = s.unicode_len();
    let neg = len > 0 && s.get_char(0) == '-';
    let plus = len > 0 && s.get_char(0) == '+';
    let start: usize = if neg || plus {
        1
    } else {
        0
    };
    proof {
        if start == 0 {
            assert(s@.skip(0) =~= s@);
        }
    }
    match parse_digits_u64(s, start) {
        Some(m) => {
            if neg {
                if m <= 9223372036854775807u64 {
                    Some(-(m as i64))
                } else if m == 9223372036854775808u64 {
                    Some(i64::MIN)
                } else {
                    None
                }
            } else {
                if m <= 9223372036854775807u64 {
                    Some(m as i64)
                } else {
                    None
                }
            }
        },
        None => None,
    }
}

// ---------------------------------------------------------------------------
// Formatting decimal integers
// ---------------------------------------------------------------------------

/// The digit character for value `d`.
pub open spec fn digit_char(d: int) -> char {
    ((48 + d) as u8) as char
}

/// The decimal representation of a natural number, without sign or
/// leading zeros.
pub open spec fn nat_to_dec(n: nat) -> Seq<char>
    decreases n,
{
    if n < 10 {
        seq![digit_char(n as int)]
    } else {
        nat_to_dec(n / 10).push(digit_char((n % 10) as int))
    }
}

/// The decimal representation of an integer: a `-` sign when negative,
/// then the digits.
pub open spec fn i64_to_dec(v: int) -> Seq<char> {
    if v < 0 {
        seq!['-'] + nat_to_dec((-v) as nat)
    } else {
        nat_to_dec(v as nat)
    }
}

/// The characters of the digit values in `ds`, in reverse order.
pub open spec fn rev_digit_chars(ds: Seq<u64>) -> Seq<char> {
    Seq::new(ds.len(), |i: int| digit_char(ds[ds.len() - 1 - i] as int))
}

/// One-character string for the digit value `d`.
fn digit_str(d: u64) -> (r: &'static str)
    requires
        d < 10,
    ensures
        r@ == seq![digit_char(d as int)],
{
    if d == 0 {
        proof {
            reveal_strlit("0");
        }
        "0"
    } else if d == 1 {
        proof {
            reveal_strlit("1");
        }
        "1"
    } else if d == 2 {
        proof {
            reveal_strlit("2");
        }
        "2"
    } else if d == 3 {
        proof {
            reveal_strlit("3");
        }
        "3"
    } else if d == 4 {
        proof {
            reveal_strlit("4");
        }
        "4"
    } else if d == 5 {
        proof {
            reveal_strlit("5");
        }
        "5"
    } else if d == 6 {
        proof {
            reveal_strlit("6");
        }
        "6"
    } else if d == 7 {
        proof {
            reveal_strlit("7");
        }
        "7"
    } else if d == 8 {
        proof {
            reveal_strlit("8");
        }
        "8"
    } else {
        proof {
            reveal_strlit("9");
        }
        "9"
    }
}

/// Format an unsigned integer in decimal.
pub fn u64_to_string(n: u64) -> (r: String)
    ensures
        r@ == nat_to_dec(n as nat),
{
    let mut digits: Vec<u64> = Vec::new();
    let mut m: u64 = n;
    digits.push(m % 10);
    m = m / 10;
    proof {
        if n >= 10 {
            assert(nat_to_dec(n as nat) == nat_to_dec((n / 10) as nat).push(
                digit_char((n % 10) as int),
            ));
            assert(nat_to_dec(n as nat) =~= nat_to_dec(m as nat) + rev_digit_chars(digits@));
        } else {
            assert(nat_to_dec(n as nat) =~= rev_digit_chars(digits@));
        }
    }
    while m > 0
        invariant
            digits.len() >= 1,
            forall|j: int| 0 <= j < digits.len() ==> #[trigger] digits@[j] < 10,
            m > 0 ==> nat_to_dec(n as nat) == nat_to_dec(m as nat) + rev_digit_chars(digits@),
            m == 0 ==> nat_to_dec(n as nat) == rev_digit_chars(digits@),
        decreases m,
    {
        let d = m % 10;
        let ghost old_digits = digits@;
        digits.push(d);
        let ghost prev_m = m;
        m = m / 10;
        proof {
            assert(rev_digit_chars(old_digits.push(d)) =~= seq![digit_char(d as int)]
                + rev_digit_chars(old_digits));
            if prev_m >= 10 {
                assert(nat_to_dec(prev_m as nat) == nat_to_dec(m as nat).push(
                    digit_char(d as int),
                ));
                assert(nat_to_dec(m as nat) + rev_digit_chars(digits@) =~= (nat_to_dec(
                    m as nat,
                ).push(digit_char(d as int))) + rev_digit_chars(old_digits));
            } else {
                assert(nat_to_dec(prev_m as nat) == seq![digit_char(prev_m as int)]);
                assert(m == 0);
                assert(rev_digit_chars(digits@) =~= nat_to_dec(prev_m as nat) + rev_digit_chars(
                    old_digits,
                ));
            }
        }
    }
    let mut out = String::new();
    let mut k: usize = digits.len();
    proof {
        assert(out@ =~= rev_digit_chars(digits@).take(0));
    }
    while k > 0
        invariant
            k <= digits.len(),
            forall|j: int| 0 <= j < digits.len() ==> #[trigger] digits@[j] < 10,
            nat_to_dec(n as nat) == rev_digit_chars(digits@),
            out@ == rev_digit_chars(digits@).take(digits.len() - k),
        decreases k,
    {
        k -= 1;
        let piece = digit_str(digits[k]);
        out.append(piece);
        proof {
            assert(out@ =~= rev_digit_chars(digits@).take(digits.len() - k));
        }
    }
    proof {
        assert(rev_digit_chars(digits@).take(digits@.len() as int) =~= rev_digit_chars(digits@));
    }
    out
}

/// Format a signed integer in decimal.
pub fn i64_to_string(v: i64) -> (r: String)
    ensures
        r@ == i64_to_dec(v as int),
{
    if v >= 0 {
        u64_to_string(v as u64)
    } else {
        let mag: u64 = if v == i64::MIN {
            9223372036854775808u64
        } else {
            (-v) as u64
        };
        let mut out = String::from_str("-");
        let rest = u64_to_string(mag);
        out.append(rest.as_str());
        proof {
            reveal_strlit("-");
            assert(out@ =~= seq!['-'] + nat_to_dec(mag as nat));
        }
        out
    }
}

/// Is the character in the ASCII range?
pub open spec fn is_ascii_char(c: char) -> bool {
    (c as u32) < 128
}

/// Is every character of the sequence ASCII?
pub open spec fn is_ascii_seq(s: Seq<char>) -> bool {
    forall|i: int| 0 <= i < s.len() ==> is_ascii_char(#[trigger] s[i])
}

/// ASCII lowercasing of one character: `A` through `Z` shift down to
/// `a` through `z`; every other character stays itself.
pub open spec fn ascii_lower_char(c: char) -> char {
    if 65 <= c as u32 && c as u32 <= 90 {
        (c as u32 + 32) as char
    } else {
        c
    }
}

/// Elementwise ASCII lowercasing of a sequence.
pub open spec fn ascii_lower(s: Seq<char>) -> Seq<char> {
    s.map_values(|c: char| ascii_lower_char(c))
}

/// The lowercase form of a sequence of characters, as computed by the
/// standard library.
pub uninterp spec fn lower_of(s: Seq<char>) -> Seq<char>;

/// Relies on str::to_lowercase from std: the result is a function of the
/// input characters alone; the lowercase form of the empty string is the
/// empty string; and on all-ASCII text, where only Unicode's
/// unconditional one-to-one mappings apply, it is the elementwise ASCII
/// lowercasing.
#[verifier::external_body]
pub fn to_lowercase_str(s: &str) -> (r: String)
    ensures
        r@ == lower_of(s@),
        s@.len() == 0 ==> r@.len() == 0,
        is_ascii_seq(s@) ==> r@ == ascii_lower(s@),
{
    s.to_lowercase()
}

} // verus!
