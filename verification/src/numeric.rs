//! Verified decimal numbers for branch conditions: parsing a signed
//! decimal literal with an optional fractional part, and exact comparison
//! of two such numbers.
//!
//! The grammar is that of a plain decimal literal — an optional sign,
//! digits, at most one decimal point — and the comparison is exact.
//! This is deliberately narrower than binary floating point: there is
//! no exponent form and no infinity or not-a-number token (such
//! operands are rejected as unparseable), and values that
//! floating-point rounding would conflate stay distinct here.

#![verifier::loop_isolation(false)]

use vstd::prelude::*;

use crate::text::{
    all_digits, dec_value, digit_of, is_digit_char, lemma_char_eq_iff_u32,
    lemma_dec_value_append_zeros, lemma_dec_value_bounds, lemma_dec_value_leading,
    lemma_dec_value_lex, lemma_dec_value_strip_zeros, lemma_dec_value_zero_iff, lemma_pow10_adds,
    lemma_pow10_mono, lemma_pow10_pos, pow10, zero_chars,
};

verus! {

// ---------------------------------------------------------------------------
// The abstract model of a parsed decimal number
// ---------------------------------------------------------------------------

/// Abstract form of a decimal literal: `digits` are the significand's
/// digit characters, and the number denoted is
/// `(-1)^negative * dec_value(digits) / pow10(frac_len)`.
pub struct NumModel {
    pub negative: bool,
    pub digits: Seq<char>,
    pub frac_len: int,
}

/// The signed integer significand of `x`.
pub open spec fn num_int(x: NumModel) -> int {
    if x.negative {
        -dec_value(x.digits)
    } else {
        dec_value(x.digits)
    }
}

/// `x` denotes a strictly smaller number than `y`:
/// the denoted values are `num_int / pow10(frac_len)`, so the comparison
/// cross-multiplies by the (positive) denominators.
pub open spec fn num_lt(x: NumModel, y: NumModel) -> bool {
    num_int(x) * pow10(y.frac_len as nat) < num_int(y) * pow10(x.frac_len as nat)
}

/// `x` and `y` denote the same number.
pub open spec fn num_eq(x: NumModel, y: NumModel) -> bool {
    num_int(x) * pow10(y.frac_len as nat) == num_int(y) * pow10(x.frac_len as nat)
}

// ---------------------------------------------------------------------------
// The grammar of a decimal literal
// ---------------------------------------------------------------------------

/// Position of the first `.` in `s`, if any.
pub open spec fn first_dot(s: Seq<char>) -> Option<int>
    decreases s.len(),
{
    if s.len() == 0 {
        None
    } else if s[0] == '.' {
        Some(0)
    } else {
        match first_dot(s.skip(1)) {
            Some(i) => Some(i + 1),
            None => None,
        }
    }
}

/// The digit characters of a literal body: everything around the first dot.
pub open spec fn num_body_digits(b: Seq<char>) -> Seq<char> {
    match first_dot(b) {
        None => b,
        Some(i) => b.take(i) + b.skip(i + 1),
    }
}

/// The number of characters after the first dot.
pub open spec fn num_frac_len(b: Seq<char>) -> int {
    match first_dot(b) {
        None => 0,
        Some(i) => b.len() - 1 - i,
    }
}

/// A decimal literal: an optional sign, then digits with at most one
/// embedded dot and at least one digit.
pub open spec fn parse_number_spec(s: Seq<char>) -> Option<NumModel> {
    let neg = s.len() > 0 && s[0] == '-';
    let body = if s.len() > 0 && (s[0] == '-' || s[0] == '+') {
        s.skip(1)
    } else {
        s
    };
    let d = num_body_digits(body);
    if d.len() >= 1 && all_digits(d) {
        Some(NumModel { negative: neg, digits: d, frac_len: num_frac_len(body) })
    } else {
        None
    }
}

proof fn lemma_first_dot_props(s: Seq<char>)
    ensures
        match first_dot(s) {
            Some(i) => 0 <= i < s.len() && s[i] == '.' && forall|j: int| 0 <= j < i ==> s[j] != '.',
            None => forall|j: int| 0 <= j < s.len() ==> s[j] != '.',
        },
    decreases s.len(),
{
    if s.len() > 0 && s[0] != '.' {
        let t = s.skip(1);
        lemma_first_dot_props(t);
        assert(forall|j: int| 0 <= j < t.len() ==> #[trigger] t[j] == s[j + 1]);
        match first_dot(t) {
            Some(i) => {
                assert(s[i + 1] == t[i]);
                assert forall|j: int| 0 <= j < i + 1 implies s[j] != '.' by {
                    if j > 0 {
                        assert(t[j - 1] == s[j]);
                    }
                }
            },
            None => {
                assert forall|j: int| 0 <= j < s.len() implies s[j] != '.' by {
                    if j > 0 {
                        assert(t[j - 1] == s[j]);
                    }
                }
            },
        }
    }
}

proof fn lemma_first_dot_is(s: Seq<char>, i: int)
    requires
        0 <= i < s.len(),
        s[i] == '.',
        forall|j: int| 0 <= j < i ==> s[j] != '.',
    ensures
        first_dot(s) == Some(i),
    decreases s.len(),
{
    if i > 0 {
        assert(forall|j: int| 0 <= j < s.len() - 1 ==> #[trigger] s.skip(1)[j] == s[j + 1]);
        lemma_first_dot_is(s.skip(1), i - 1);
    }
}

proof fn lemma_first_dot_none(s: Seq<char>)
    requires
        forall|j: int| 0 <= j < s.len() ==> s[j] != '.',
    ensures
        first_dot(s) == None::<int>,
    decreases s.len(),
{
    if s.len() > 0 {
        assert(forall|j: int| 0 <= j < s.len() - 1 ==> #[trigger] s.skip(1)[j] == s[j + 1]);
        lemma_first_dot_none(s.skip(1));
    }
}

// ---------------------------------------------------------------------------
// The executable representation
// ---------------------------------------------------------------------------

/// A parsed decimal literal: the significand's digit characters and how
/// many of them sit after the decimal point.
pub struct ParsedNumber {
    pub negative: bool,
    pub digits: Vec<char>,
    pub frac_len: usize,
}

impl View for ParsedNumber {
    type V = NumModel;

    open spec fn view(&self) -> NumModel {
        NumModel { negative: self.negative, digits: self.digits@, frac_len: self.frac_len as int }
    }
}

impl ParsedNumber {
    /// The representation invariant: at least one digit, all characters
    /// digits, and the fractional part no longer than the significand.
    pub open spec fn wf(&self) -> bool {
        &&& self.digits@.len() >= 1
        &&& all_digits(self.digits@)
        &&& self.frac_len <= self.digits@.len()
    }
}

/// The relative order of two numbers.
#[derive(Clone, Copy, PartialEq, Eq, Structural, Debug)]
pub enum NumOrder {
    Less,
    Equal,
    Greater,
}

/// Parse a decimal literal: an optional `+` or `-` sign, then digits
/// with at most one embedded decimal point and at least one digit.
#[verifier::rlimit(60)]
pub fn parse_number(s: &str) -> (r: Option<ParsedNumber>)
    ensures
        match r {
            Some(p) => p.wf() && parse_number_spec(s@) == Some(p@),
            None => parse_number_spec(s@) is None,
        },
{
    let len = s.unicode_len();
    let neg = len > 0 && s.get_char(0) == '-';
    let plus = len > 0 && s.get_char(0) == '+';
    let start: usize = if neg || plus {
        1
    } else {
        0
    };
    let ghost body = s@.skip(start as int);
    proof {
        if start == 0 {
            assert(s@.skip(0) =~= s@);
        }
    }
    let mut digits: Vec<char> = Vec::new();
    let mut dot_seen = false;
    let mut dot_idx: usize = 0;
    let mut i: usize = start;
    while i < len
        invariant
            start <= i <= len,
            len == s@.len(),
            body == s@.skip(start as int),
            all_digits(digits@),
            dot_seen ==> start <= dot_idx < i && body[dot_idx - start] == '.' && (forall|k: int|
                0 <= k < i - start && k != dot_idx - start ==> body[k] != '.'),
            dot_seen ==> digits@ =~= body.take(dot_idx - start) + body.subrange(
                dot_idx - start + 1,
                i - start,
            ),
            !dot_seen ==> (forall|k: int| 0 <= k < i - start ==> body[k] != '.'),
            !dot_seen ==> digits@ =~= body.take(i - start),
        decreases len - i,
    {
        let c = s.get_char(i);
        proof {
            assert(body[i - start] == s@[i as int]);
        }
        if c == '.' {
            if dot_seen {
                proof {
                    lemma_first_dot_is(body, dot_idx - start);
                    let d = num_body_digits(body);
                    assert(d[i - start - 1] == '.');
                    assert(!is_digit_char('.'));
                }
                return None;
            }
            dot_seen = true;
            dot_idx = i;
            proof {
                assert(digits@ =~= body.take(dot_idx - start) + body.subrange(
                    dot_idx - start + 1,
                    i + 1 - start,
                ));
            }
        } else {
            let cu = c as u32;
            if cu < 48 || cu > 57 {
                proof {
                    assert(!is_digit_char(c));
                    let ghost j = i - start;
                    if dot_seen {
                        lemma_first_dot_is(body, dot_idx - start);
                        let d = num_body_digits(body);
                        assert(d[j - 1] == c);
                    } else {
                        lemma_first_dot_props(body);
                        match first_dot(body) {
                            None => {
                                assert(num_body_digits(body)[j] == c);
                            },
                            Some(p) => {
                                assert(p > j) by {
                                    assert(body[p] == '.');
                                }
                                assert(num_body_digits(body)[j] == c);
                            },
                        }
                    }
                }
                return None;
            }
            digits.push(c);
            proof {
                if dot_seen {
                    assert(digits@ =~= body.take(dot_idx - start) + body.subrange(
                        dot_idx - start + 1,
                        i + 1 - start,
                    ));
                } else {
                    assert(digits@ =~= body.take(i + 1 - start));
                }
            }
        }
        i += 1;
    }
    proof {
        if dot_seen {
            lemma_first_dot_is(body, dot_idx - start);
            assert(body.subrange(dot_idx - start + 1, len - start) =~= body.skip(
                dot_idx - start + 1,
            ));
        } else {
            lemma_first_dot_none(body);
            assert(body.take(len - start) =~= body);
        }
    }
    if digits.len() == 0 {
        return None;
    }
    let frac_len: usize = if dot_seen {
        len - 1 - dot_idx
    } else {
        0
    };
    proof {
        assert(frac_len as int == num_frac_len(body));
    }
    Some(ParsedNumber { negative: neg, digits, frac_len })
}

// ---------------------------------------------------------------------------
// Comparison
// ---------------------------------------------------------------------------

/// Is the digit sequence all zeros, that is, does it denote zero?
fn is_zero_digits(v: &Vec<char>) -> (r: bool)
    requires
        all_digits(v@),
    ensures
        r == (dec_value(v@) == 0),
{
    proof {
        lemma_dec_value_zero_iff(v@);
    }
    let mut i: usize = 0;
    while i < v.len()
        invariant
            i <= v@.len(),
            forall|j: int| 0 <= j < i ==> v@[j] == '0',
        decreases v@.len() - i,
    {
        let c = v[i];
        if c != '0' {
            proof {
                lemma_dec_value_zero_iff(v@);
            }
            return false;
        }
        i += 1;
    }
    true
}

/// Copy the digits of `src` and append `pad` zero characters.
fn padded_digits(src: &Vec<char>, pad: usize) -> (r: Vec<char>)
    ensures
        r@ == src@ + zero_chars(pad as nat),
{
    let mut out: Vec<char> = Vec::new();
    let mut i: usize = 0;
    while i < src.len()
        invariant
            i <= src@.len(),
            out@ =~= src@.take(i as int),
        decreases src@.len() - i,
    {
        out.push(src[i]);
        proof {
            assert(out@ =~= src@.take(i + 1));
        }
        i += 1;
    }
    proof {
        assert(out@ =~= src@);
    }
    let mut k: usize = 0;
    while k < pad
        invariant
            k <= pad,
            out@ =~= src@ + zero_chars(k as nat),
        decreases pad - k,
    {
        out.push('0');
        proof {
            assert(out@ =~= src@ + zero_chars((k + 1) as nat));
        }
        k += 1;
    }
    out
}

/// Compare two all-digit sequences by the numbers they denote.
fn compare_digit_seqs(x: &Vec<char>, y: &Vec<char>) -> (r: NumOrder)
    requires
        all_digits(x@),
        all_digits(y@),
    ensures
        (r is Less) == (dec_value(x@) < dec_value(y@)),
        (r is Equal) == (dec_value(x@) == dec_value(y@)),
        (r is Greater) == (dec_value(x@) > dec_value(y@)),
{
    // count leading zeros
    let mut zx: usize = 0;
    while zx < x.len() && x[zx] == '0'
        invariant
            zx <= x@.len(),
            forall|j: int| 0 <= j < zx ==> x@[j] == '0',
        decreases x@.len() - zx,
    {
        zx += 1;
    }
    let mut zy: usize = 0;
    while zy < y.len() && y[zy] == '0'
        invariant
            zy <= y@.len(),
            forall|j: int| 0 <= j < zy ==> y@[j] == '0',
        decreases y@.len() - zy,
    {
        zy += 1;
    }
    let ghost xs = x@.skip(zx as int);
    let ghost ys = y@.skip(zy as int);
    proof {
        lemma_dec_value_strip_zeros(x@, zx as int);
        lemma_dec_value_strip_zeros(y@, zy as int);
        assert(all_digits(xs) && all_digits(ys)) by {
            assert(forall|j: int| 0 <= j < xs.len() ==> #[trigger] xs[j] == x@[j + zx]);
            assert(forall|j: int| 0 <= j < ys.len() ==> #[trigger] ys[j] == y@[j + zy]);
        }
        lemma_dec_value_bounds(xs);
        lemma_dec_value_bounds(ys);
    }
    let ex = x.len() - zx;
    let ey = y.len() - zy;
    if ex < ey {
        proof {
            assert(ys[0] == y@[zy as int]);
            lemma_dec_value_leading(ys);
            lemma_pow10_mono(ex as nat, (ey - 1) as nat);
        }
        return NumOrder::Less;
    }
    if ex > ey {
        proof {
            assert(xs[0] == x@[zx as int]);
            lemma_dec_value_leading(xs);
            lemma_pow10_mono(ey as nat, (ex - 1) as nat);
        }
        return NumOrder::Greater;
    }
    // equal effective length: lexicographic comparison decides
    let mut i: usize = 0;
    while i < ex
        invariant
            i <= ex,
            ex == ey,
            zx + ex == x@.len(),
            zy + ey == y@.len(),
            forall|j: int| 0 <= j < i ==> xs[j] == ys[j],
        decreases ex - i,
    {
        let cx = x[zx + i];
        let cy = y[zy + i];
        proof {
            assert(xs[i as int] == x@[zx + i]);
            assert(ys[i as int] == y@[zy + i]);
        }
        if (cx as u32) < (cy as u32) {
            proof {
                lemma_dec_value_lex(xs, ys, i as int);
            }
            return NumOrder::Less;
        }
        if (cx as u32) > (cy as u32) {
            proof {
                lemma_dec_value_lex(ys, xs, i as int);
            }
            return NumOrder::Greater;
        }
        proof {
            lemma_char_eq_iff_u32(cx, cy);
        }
        i += 1;
    }
    proof {
        assert(xs =~= ys);
    }
    NumOrder::Equal
}

/// Exact comparison of two parsed decimal numbers.
pub fn compare_numbers(a: &ParsedNumber, b: &ParsedNumber) -> (r: NumOrder)
    requires
        a.wf(),
        b.wf(),
    ensures
        (r is Less) == num_lt(a@, b@),
        (r is Equal) == num_eq(a@, b@),
        (r is Greater) == num_lt(b@, a@),
{
    // bring both significands to the same scale
    let pad_a: usize = if a.frac_len < b.frac_len {
        b.frac_len - a.frac_len
    } else {
        0
    };
    let pad_b: usize = if a.frac_len < b.frac_len {
        0
    } else {
        a.frac_len - b.frac_len
    };
    let xd = padded_digits(&a.digits, pad_a);
    let yd = padded_digits(&b.digits, pad_b);
    let ghost minf: nat = if a@.frac_len < b@.frac_len {
        a@.frac_len as nat
    } else {
        b@.frac_len as nat
    };
    let ghost pmin = pow10(minf);
    let ghost dx = dec_value(xd@);
    let ghost dy = dec_value(yd@);
    let ghost u: int = if a@.negative {
        -dx
    } else {
        dx
    };
    let ghost v: int = if b@.negative {
        -dy
    } else {
        dy
    };
    proof {
        lemma_scaled_digits(a@, b@, xd@, yd@);
        lemma_padded_all_digits(a.digits@, pad_a as nat);
        lemma_padded_all_digits(b.digits@, pad_b as nat);
        lemma_dec_value_bounds(xd@);
        lemma_dec_value_bounds(yd@);
        lemma_pow10_pos(minf);
        lemma_signed_scale(a@, b@.frac_len as nat, dx, pmin);
        lemma_signed_scale(b@, a@.frac_len as nat, dy, pmin);
        lemma_mul_cancel_cmp(u, v, pmin);
        lemma_mul_cancel_cmp(v, u, pmin);
        assert(num_lt(a@, b@) <==> u < v);
        assert(num_eq(a@, b@) <==> u == v);
        assert(num_lt(b@, a@) <==> v < u);
    }
    let x_zero = is_zero_digits(&xd);
    let y_zero = is_zero_digits(&yd);
    if x_zero && y_zero {
        return NumOrder::Equal;
    }
    if x_zero {
        if b.negative {
            return NumOrder::Greater;
        } else {
            return NumOrder::Less;
        }
    }
    if y_zero {
        if a.negative {
            return NumOrder::Less;
        } else {
            return NumOrder::Greater;
        }
    }
    if a.negative && !b.negative {
        return NumOrder::Less;
    }
    if !a.negative && b.negative {
        return NumOrder::Greater;
    }
    let mag = compare_digit_seqs(&xd, &yd);
    if a.negative {
        match mag {
            NumOrder::Less => NumOrder::Greater,
            NumOrder::Equal => NumOrder::Equal,
            NumOrder::Greater => NumOrder::Less,
        }
    } else {
        mag
    }
}

/// Padding with zero characters keeps every character a digit.
proof fn lemma_padded_all_digits(src: Seq<char>, k: nat)
    requires
        all_digits(src),
    ensures
        all_digits(src + zero_chars(k)),
{
    let padded = src + zero_chars(k);
    assert(forall|j: int| 0 <= j < padded.len() ==> is_digit_char(#[trigger] padded[j])) by {
        assert(forall|j: int|
            0 <= j < padded.len() ==> #[trigger] padded[j] == (if j < src.len() {
                src[j]
            } else {
                '0'
            }));
    }
}

/// Multiplying the significand comparison through by the positive common
/// denominator does not change it.
proof fn lemma_mul_cancel_cmp(u: int, v: int, p: int)
    requires
        p > 0,
    ensures
        (u * p < v * p) <==> (u < v),
        (u * p == v * p) <==> (u == v),
{
    assert((u * p < v * p) <==> (u < v)) by (nonlinear_arith)
        requires
            p > 0,
    ;
    assert((u * p == v * p) <==> (u == v)) by (nonlinear_arith)
        requires
            p > 0,
    ;
}

/// Rewrite one side of the cross-multiplied comparison in terms of the
/// padded significand and the common denominator.
proof fn lemma_signed_scale(m: NumModel, other_frac: nat, d: int, pmin: int)
    requires
        dec_value(m.digits) * pow10(other_frac) == d * pmin,
    ensures
        num_int(m) * pow10(other_frac) == (if m.negative {
            -d
        } else {
            d
        }) * pmin,
{
    if m.negative {
        assert((-dec_value(m.digits)) * pow10(other_frac) == -(dec_value(m.digits) * pow10(
            other_frac,
        ))) by (nonlinear_arith);
        assert(-(d * pmin) == (-d) * pmin) by (nonlinear_arith);
    }
}

/// After padding both significands to a common scale, the cross-multiplied
/// comparison of the models reduces to comparing the padded significands.
proof fn lemma_scaled_digits(am: NumModel, bm: NumModel, xd: Seq<char>, yd: Seq<char>)
    requires
        am.frac_len >= 0,
        bm.frac_len >= 0,
        am.frac_len < bm.frac_len ==> xd == am.digits + zero_chars(
            (bm.frac_len - am.frac_len) as nat,
        ) && yd == bm.digits + zero_chars(0),
        am.frac_len >= bm.frac_len ==> xd == am.digits + zero_chars(0) && yd == bm.digits
            + zero_chars((am.frac_len - bm.frac_len) as nat),
    ensures
        dec_value(am.digits) * pow10(bm.frac_len as nat) == dec_value(xd) * pow10(
            if am.frac_len < bm.frac_len {
                am.frac_len as nat
            } else {
                bm.frac_len as nat
            },
        ),
        dec_value(bm.digits) * pow10(am.frac_len as nat) == dec_value(yd) * pow10(
            if am.frac_len < bm.frac_len {
                am.frac_len as nat
            } else {
                bm.frac_len as nat
            },
        ),
{
    if am.frac_len < bm.frac_len {
        let k = (bm.frac_len - am.frac_len) as nat;
        lemma_dec_value_append_zeros(am.digits, k);
        lemma_dec_value_append_zeros(bm.digits, 0);
        assert(bm.digits + zero_chars(0) =~= bm.digits);
        lemma_pow10_adds(k, am.frac_len as nat);
        assert(dec_value(am.digits) * pow10(bm.frac_len as nat) == (dec_value(am.digits) * pow10(
            k,
        )) * pow10(am.frac_len as nat)) by (nonlinear_arith)
            requires
                pow10(bm.frac_len as nat) == pow10(k) * pow10(am.frac_len as nat),
        ;
    } else {
        let k = (am.frac_len - bm.frac_len) as nat;
        lemma_dec_value_append_zeros(bm.digits, k);
        lemma_dec_value_append_zeros(am.digits, 0);
        assert(am.digits + zero_chars(0) =~= am.digits);
        lemma_pow10_adds(k, bm.frac_len as nat);
        assert(dec_value(bm.digits) * pow10(am.frac_len as nat) == (dec_value(bm.digits) * pow10(
            k,
        )) * pow10(bm.frac_len as nat)) by (nonlinear_arith)
            requires
                pow10(am.frac_len as nat) == pow10(k) * pow10(bm.frac_len as nat),
        ;
    }
}

} // verus!
