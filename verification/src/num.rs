//! Decimal fixed-point values and the unit-scaling rules of the feeds.
//!
//! Every metric the engine stores is an integer number of hundredths of its
//! domain unit (two implied decimal places).  A raw feed value is carried as a
//! non-negative decimal `mantissa * 10^exponent`, read off the numeral text of
//! the feed, and scaled into hundredths with rounding to nearest (ties up).

use vstd::prelude::*;

verus! {

/// A non-negative decimal number `mantissa * 10^exponent`.
#[derive(Clone, Copy, PartialEq, Eq, Structural, Debug)]
pub struct Dec {
    pub mantissa: u64,
    pub exponent: i32,
}

pub open spec fn pow10(k: nat) -> nat
    decreases k,
{
    if k == 0 {
        1
    } else {
        10 * pow10((k - 1) as nat)
    }
}

/// Division rounded to the nearest integer, ties upward.
pub open spec fn round_div(n: nat, d: nat) -> nat
    recommends
        d > 0,
{
    (n + d / 2) / d
}

/// The exact mathematical value of `round(m * 10^e / 10^p * 100)`:
/// the raw value `m * 10^e`, divided by `10^p` to reach the domain unit,
/// expressed in hundredths of that unit and rounded to nearest.
pub open spec fn scaled_hundredths(m: nat, e: int, p: int) -> nat {
    let k = e + 2 - p;
    if k >= 0 {
        m * pow10(k as nat)
    } else {
        round_div(m, pow10((-k) as nat))
    }
}

/// Scaling a raw value into hundredths of the domain unit; `None` when the
/// result does not fit in a `u64` (treated by the engine as a malformed field).
pub open spec fn scale_spec(m: nat, e: int, p: int) -> Option<u64> {
    if scaled_hundredths(m, e, p) <= u64::MAX {
        Some(scaled_hundredths(m, e, p) as u64)
    } else {
        None
    }
}

/// The exact value of `round(100 / (m * 10^e))`: the reciprocal of the raw
/// value `m * 10^e`, in hundredths, rounded to nearest.
pub open spec fn recip_hundredths(m: nat, e: int) -> nat
    recommends
        m > 0,
{
    let a: nat = if 2 - e >= 0 { (2 - e) as nat } else { 0 };
    let b: nat = if e - 2 >= 0 { (e - 2) as nat } else { 0 };
    round_div(pow10(a), m * pow10(b))
}

/// Reciprocal scaling for the price rule; `None` when the raw value is zero
/// (no reciprocal) or the result does not fit in a `u64`.
pub open spec fn recip_spec(m: nat, e: int) -> Option<u64> {
    if m == 0 {
        None
    } else if recip_hundredths(m, e) <= u64::MAX {
        Some(recip_hundredths(m, e) as u64)
    } else {
        None
    }
}

proof fn lemma_pow10_positive(k: nat)
    ensures
        pow10(k) >= 1,
    decreases k,
{
    if k > 0 {
        lemma_pow10_positive((k - 1) as nat);
    }
}

proof fn lemma_pow10_monotonic(a: nat, b: nat)
    requires
        a <= b,
    ensures
        pow10(a) <= pow10(b),
    decreases b,
{
    if a < b {
        lemma_pow10_monotonic(a, (b - 1) as nat);
        lemma_pow10_positive(a);
    }
}

proof fn lemma_pow10_values()
    ensures
        pow10(19) == 10_000_000_000_000_000_000,
        pow10(20) == 100_000_000_000_000_000_000,
        pow10(21) == 1_000_000_000_000_000_000_000,
        pow10(38) == 100_000_000_000_000_000_000_000_000_000_000_000_000,
        pow10(39) == 1_000_000_000_000_000_000_000_000_000_000_000_000_000,
{
    reveal_with_fuel(pow10, 40);
}

/// `10^k`, computed exactly in a `u128`.
fn pow10_u128(k: u32) -> (r: u128)
    requires
        k <= 38,
    ensures
        r == pow10(k as nat),
{
    let mut r: u128 = 1;
    let mut i: u32 = 0;
    while i < k
        invariant
            i <= k,
            k <= 38,
            r == pow10(i as nat),
        decreases k - i,
    {
        proof {
            lemma_pow10_values();
            lemma_pow10_monotonic((i + 1) as nat, 38);
            assert(pow10((i + 1) as nat) == 10 * pow10(i as nat));
        }
        r = r * 10;
        i = i + 1;
    }
    r
}

/// `round_div(n, d)` is zero as soon as `n` is below half of `d`.
proof fn lemma_round_div_zero(n: nat, d: nat)
    requires
        d > 0,
        n + d / 2 < d,
    ensures
        round_div(n, d) == 0,
{
    vstd::arithmetic::div_mod::lemma_basic_div((n + d / 2) as int, d as int);
}

/// `round_div(n, d)` never exceeds `n` for divisors of at least one.
proof fn lemma_round_div_le(n: nat, d: nat)
    requires
        d > 0,
    ensures
        round_div(n, d) <= n,
{
    assert((n + d / 2) / d <= n) by (nonlinear_arith)
        requires
            d > 0,
    ;
}

/// Scale the raw decimal `d` into hundredths of the unit `10^p`, rounding to
/// nearest with ties up: the exact value of `round(d * 100 / 10^p)`.
/// Returns `None` when the result does not fit in a `u64`.
pub fn scale_to_hundredths(d: Dec, p: i32) -> (r: Option<u64>)
    ensures
        r == scale_spec(d.mantissa as nat, d.exponent as int, p as int),
{
    let m = d.mantissa;
    let k: i64 = d.exponent as i64 + 2 - p as i64;
    if m == 0 {
        proof {
            if k < 0 {
                lemma_pow10_positive((-k) as nat);
                lemma_round_div_zero(0, pow10((-k) as nat));
            }
        }
        return Some(0);
    }
    if k >= 0 {
        if k > 19 {
            proof {
                lemma_pow10_values();
                lemma_pow10_monotonic(20, k as nat);
                assert(m as nat * pow10(k as nat) >= 1 * pow10(20)) by (nonlinear_arith)
                    requires
                        m >= 1,
                        pow10(k as nat) >= pow10(20),
                ;
            }
            return None;
        }
        let t = pow10_u128(k as u32);
        proof {
            lemma_pow10_values();
            lemma_pow10_monotonic(k as nat, 19);
            assert(m as nat * pow10(k as nat) <= u64::MAX as nat * pow10(19)) by (nonlinear_arith)
                requires
                    m as nat <= u64::MAX as nat,
                    pow10(k as nat) <= pow10(19),
            ;
        }
        let prod: u128 = (m as u128) * t;
        if prod <= u64::MAX as u128 {
            Some(prod as u64)
        } else {
            None
        }
    } else {
        let j: i64 = -k;
        if j > 20 {
            proof {
                lemma_pow10_values();
                lemma_pow10_monotonic(21, j as nat);
                lemma_round_div_zero(m as nat, pow10(j as nat));
            }
            return Some(0);
        }
        let t = pow10_u128(j as u32);
        proof {
            lemma_pow10_positive(j as nat);
            lemma_round_div_le(m as nat, pow10(j as nat));
            lemma_pow10_values();
            lemma_pow10_monotonic(j as nat, 20);
        }
        let q: u128 = ((m as u128) + t / 2) / t;
        Some(q as u64)
    }
}

/// The integer value of the raw decimal, exactly when its numeral was written
/// as a plain unsigned integer (exponent zero); mirrors how the feeds encode
/// integer fields.
pub open spec fn dec_int_spec(d: Dec) -> Option<u64> {
    if d.exponent == 0 {
        Some(d.mantissa)
    } else {
        None
    }
}

pub fn dec_to_u64(d: Dec) -> (r: Option<u64>)
    ensures
        r == dec_int_spec(d),
{
    if d.exponent == 0 {
        Some(d.mantissa)
    } else {
        None
    }
}

/// The reciprocal of the raw decimal `d`, in hundredths, rounding to nearest
/// with ties up: the exact value of `round(100 / d)`.  `None` when `d` is zero
/// or the result does not fit in a `u64`.
pub fn recip_to_hundredths(d: Dec) -> (r: Option<u64>)
    ensures
        r == recip_spec(d.mantissa as nat, d.exponent as int),
{
    let m = d.mantissa;
    if m == 0 {
        return None;
    }
    let a: i64 = 2 - d.exponent as i64;
    if a >= 39 {
        proof {
            lemma_pow10_values();
            lemma_pow10_monotonic(39, a as nat);
            assert(recip_hundredths(m as nat, d.exponent as int) > u64::MAX) by {
                let num = pow10(a as nat);
                assert(num >= pow10(39));
                assert(num / m as nat >= pow10(39) / m as nat) by {
                    vstd::arithmetic::div_mod::lemma_div_is_ordered(
                        pow10(39) as int,
                        num as int,
                        m as int,
                    );
                }
                assert(pow10(39) / m as nat > u64::MAX) by (nonlinear_arith)
                    requires
                        pow10(39) == 1_000_000_000_000_000_000_000_000_000_000_000_000_000,
                        0 < m as nat <= u64::MAX,
                ;
                assert(round_div(num, m as nat) >= num / m as nat) by {
                    vstd::arithmetic::div_mod::lemma_div_is_ordered(
                        num as int,
                        (num + m as nat / 2) as int,
                        m as int,
                    );
                }
                assert(pow10(0) == 1);
                assert(m as nat * pow10(0) == m as nat);
                assert(recip_hundredths(m as nat, d.exponent as int) == round_div(num, m as nat));
            }
        }
        return None;
    }
    if a >= 0 {
        let t = pow10_u128(a as u32);
        proof {
            lemma_pow10_values();
            lemma_pow10_monotonic(a as nat, 38);
            assert(pow10(0) == 1);
            assert(m as nat * pow10(0) == m as nat);
            assert(recip_hundredths(m as nat, d.exponent as int) == round_div(
                pow10(a as nat),
                m as nat,
            ));
        }
        let md = m as u128;
        let q: u128 = (t + md / 2) / md;
        if q <= u64::MAX as u128 {
            Some(q as u64)
        } else {
            None
        }
    } else {
        // The raw value is at least 10^3, so its reciprocal rounds to zero.
        proof {
            let b = (d.exponent - 2) as nat;
            assert(pow10(b) >= 10) by {
                lemma_pow10_monotonic(1, b);
                assert(pow10(1) == 10);
            }
            assert(m as nat * pow10(b) >= 10) by (nonlinear_arith)
                requires
                    m >= 1,
                    pow10(b) >= 10,
            ;
            lemma_round_div_zero(pow10(0), m as nat * pow10(b));
        }
        Some(0)
    }
}

} // verus!

// === Numeral text ===========================================================
//
// A raw feed number reaches the engine as the text of a JSON numeral.  The
// grammar accepted here is the non-negative JSON number grammar:
//
//     digits ( '.' digits )? ( ('e' | 'E') ('+' | '-')? digits )?
//
// The value is `mantissa * 10^exponent` where `mantissa` is the digit string
// with the point removed and `exponent` is the written exponent minus the
// number of fraction digits.  Texts outside the grammar, negative numbers,
// mantissas beyond `u64::MAX`, exponents beyond `EXP_LIMIT`, and texts longer
// than `NUMERAL_MAX_LEN` all yield "no value" (the engine treats the field as
// absent).

verus! {

/// Longest numeral text the parser accepts.
pub const NUMERAL_MAX_LEN: usize = 4096;

pub const ASCII_ZERO: u8 = 48;

pub const ASCII_NINE: u8 = 57;

pub const ASCII_DOT: u8 = 46;

pub const ASCII_LOWER_E: u8 = 101;

pub const ASCII_UPPER_E: u8 = 69;

pub const ASCII_PLUS: u8 = 43;

pub const ASCII_MINUS: u8 = 45;

/// Largest accepted magnitude for a written exponent.
pub const EXP_LIMIT: u64 = 999_999_999;

pub open spec fn is_digit(c: u8) -> bool {
    ASCII_ZERO <= c <= ASCII_NINE
}

pub open spec fn digit_val(c: u8) -> nat {
    (c - ASCII_ZERO) as nat
}

pub open spec fn all_digits(s: Seq<u8>) -> bool {
    forall|i: int| 0 <= i < s.len() ==> is_digit(#[trigger] s[i])
}

/// The number written by a digit string, most significant digit first.
pub open spec fn digits_val(s: Seq<u8>) -> nat
    decreases s.len(),
{
    if s.len() == 0 {
        0
    } else {
        10 * digits_val(s.drop_last()) + digit_val(s.last())
    }
}

/// Length of the leading run of ASCII digits.
pub open spec fn digit_run_len(s: Seq<u8>) -> int
    decreases s.len(),
{
    if s.len() == 0 || !is_digit(s[0]) {
        0
    } else {
        1 + digit_run_len(s.drop_first())
    }
}

/// The value of a whole numeral text, or `None` if it is not a numeral the
/// parser accepts.
pub open spec fn numeral_val(s: Seq<u8>) -> Option<Dec> {
    if s.len() > NUMERAL_MAX_LEN {
        None
    } else {
        let n1 = digit_run_len(s);
        if n1 == 0 {
            None
        } else {
            let ip = s.take(n1);
            let r1 = s.skip(n1);
            if r1.len() > 0 && r1[0] == ASCII_DOT {
                let n2 = digit_run_len(r1.skip(1));
                if n2 == 0 {
                    None
                } else {
                    numeral_tail(ip + r1.skip(1).take(n2), n2, r1.skip(1).skip(n2))
                }
            } else {
                numeral_tail(ip, 0, r1)
            }
        }
    }
}

/// `digits`: the mantissa digits; `frac_len`: how many of them stand after the
/// point; `rest`: the trailing text, which must be empty or an exponent part.
pub open spec fn numeral_tail(digits: Seq<u8>, frac_len: int, rest: Seq<u8>) -> Option<Dec> {
    if rest.len() == 0 {
        numeral_finish(digits, 0, frac_len)
    } else if rest[0] == ASCII_LOWER_E || rest[0] == ASCII_UPPER_E {
        if rest.len() >= 2 && rest[1] == ASCII_PLUS {
            numeral_exp(digits, frac_len, false, rest.skip(2))
        } else if rest.len() >= 2 && rest[1] == ASCII_MINUS {
            numeral_exp(digits, frac_len, true, rest.skip(2))
        } else {
            numeral_exp(digits, frac_len, false, rest.skip(1))
        }
    } else {
        None
    }
}

pub open spec fn numeral_exp(digits: Seq<u8>, frac_len: int, neg: bool, ds: Seq<u8>) -> Option<
    Dec,
> {
    if ds.len() == 0 || !all_digits(ds) {
        None
    } else if digits_val(ds) > EXP_LIMIT {
        None
    } else {
        let e: int = if neg {
            -(digits_val(ds) as int)
        } else {
            digits_val(ds) as int
        };
        numeral_finish(digits, e, frac_len)
    }
}

pub open spec fn numeral_finish(digits: Seq<u8>, exp: int, frac_len: int) -> Option<Dec> {
    if digits_val(digits) > u64::MAX {
        None
    } else {
        Some(Dec { mantissa: digits_val(digits) as u64, exponent: (exp - frac_len) as i32 })
    }
}

proof fn lemma_digits_val_push(s: Seq<u8>, c: u8)
    ensures
        digits_val(s.push(c)) == 10 * digits_val(s) + digit_val(c),
{
    assert(s.push(c).drop_last() =~= s);
    assert(s.push(c).last() == c);
}

/// A digit string is worth at least any of its prefixes.
proof fn lemma_digits_val_prefix_le(s: Seq<u8>, i: int)
    requires
        0 <= i <= s.len(),
    ensures
        digits_val(s.take(i)) <= digits_val(s),
    decreases s.len() - i,
{
    if i == s.len() {
        assert(s.take(i) =~= s);
    } else {
        assert(s.take(i + 1) =~= s.take(i).push(s[i]));
        lemma_digits_val_push(s.take(i), s[i]);
        lemma_digits_val_prefix_le(s, i + 1);
    }
}

/// `digit_run_len` is exactly the boundary a left-to-right scan finds.
proof fn lemma_digit_run_len_char(s: Seq<u8>, n: int)
    requires
        0 <= n <= s.len(),
        forall|i: int| 0 <= i < n ==> is_digit(#[trigger] s[i]),
        n < s.len() ==> !is_digit(s[n]),
    ensures
        digit_run_len(s) == n,
    decreases s.len(),
{
    if n == 0 {
    } else {
        let s1 = s.drop_first();
        assert forall|i: int| 0 <= i < n - 1 implies is_digit(#[trigger] s1[i]) by {
            assert(s1[i] == s[i + 1]);
        }
        if n - 1 < s1.len() {
            assert(s1[n - 1] == s[n]);
        }
        lemma_digit_run_len_char(s1, n - 1);
    }
}

/// First index at or after `from` in `t` that does not hold an ASCII digit.
fn digit_run_end(t: &Vec<u8>, from: usize) -> (end: usize)
    requires
        from <= t@.len(),
    ensures
        from <= end <= t@.len(),
        digit_run_len(t@.skip(from as int)) == end - from,
        forall|i: int| from <= i < end ==> is_digit(#[trigger] t@[i]),
        end < t@.len() ==> !is_digit(t@[end as int]),
{
    let n = t.len();
    let mut i: usize = from;
    while i < n && ASCII_ZERO <= t[i] && t[i] <= ASCII_NINE
        invariant
            from <= i <= n,
            n == t@.len(),
            forall|k: int| from <= k < i ==> is_digit(#[trigger] t@[k]),
        decreases n - i,
    {
        i = i + 1;
    }
    proof {
        let sub = t@.skip(from as int);
        assert forall|k: int| 0 <= k < i - from implies is_digit(#[trigger] sub[k]) by {
            assert(sub[k] == t@[from + k]);
        }
        if i < n {
            assert(sub[i - from] == t@[i as int]);
        }
        lemma_digit_run_len_char(sub, i - from);
    }
    i
}

/// Appends `src[from..end)` to `dst`.
fn push_range(dst: &mut Vec<u8>, src: &Vec<u8>, from: usize, end: usize)
    requires
        from <= end <= src@.len(),
    ensures
        final(dst)@ == old(dst)@ + src@.subrange(from as int, end as int),
{
    let mut i: usize = from;
    while i < end
        invariant
            from <= i <= end <= src@.len(),
            dst@ == old(dst)@ + src@.subrange(from as int, i as int),
        decreases end - i,
    {
        let ghost prev = dst@;
        dst.push(src[i]);
        proof {
            assert(old(dst)@ + src@.subrange(from as int, i + 1) =~= prev.push(src@[i as int]));
        }
        i = i + 1;
    }
    proof {
        assert(dst@ =~= old(dst)@ + src@.subrange(from as int, end as int));
    }
}

/// The number written by the digit string `ds`, or `None` if it exceeds `cap`.
fn digits_value(ds: &Vec<u8>, cap: u64) -> (r: Option<u64>)
    requires
        forall|i: int| 0 <= i < ds@.len() ==> is_digit(#[trigger] ds@[i]),
    ensures
        digits_val(ds@) <= cap ==> r == Some(digits_val(ds@) as u64),
        digits_val(ds@) > cap ==> r is None,
{
    let n = ds.len();
    let mut acc: u64 = 0;
    let mut i: usize = 0;
    while i < n
        invariant
            0 <= i <= n,
            n == ds@.len(),
            forall|k: int| 0 <= k < ds@.len() ==> is_digit(#[trigger] ds@[k]),
            acc == digits_val(ds@.take(i as int)),
            acc <= cap,
        decreases n - i,
    {
        let c = ds[i];
        proof {
            assert(ds@.take(i + 1) =~= ds@.take(i as int).push(ds@[i as int]));
            lemma_digits_val_push(ds@.take(i as int), ds@[i as int]);
        }
        let next: u128 = (acc as u128) * 10 + ((c - ASCII_ZERO) as u128);
        if next > cap as u128 {
            proof {
                lemma_digits_val_prefix_le(ds@, i + 1);
            }
            return None;
        }
        acc = next as u64;
        i = i + 1;
    }
    proof {
        assert(ds@.take(n as int) =~= ds@);
    }
    Some(acc)
}

/// Parses a numeral text into its decimal value: returns exactly
/// `numeral_val` of the text.
#[verifier::rlimit(100)]
pub fn parse_dec(t: &Vec<u8>) -> (r: Option<Dec>)
    ensures
        r == numeral_val(t@),
{
    let n = t.len();
    if n > NUMERAL_MAX_LEN {
        return None;
    }
    let i1 = digit_run_end(t, 0);
    proof {
        assert(t@.skip(0) =~= t@);
    }
    if i1 == 0 {
        return None;
    }
    let mut digits: Vec<u8> = Vec::new();
    push_range(&mut digits, t, 0, i1);
    proof {
        assert(digits@ =~= t@.take(i1 as int));
    }
    let ghost r1 = t@.skip(i1 as int);
    let mut frac_len: usize = 0;
    let mut rest_start: usize = i1;
    if i1 < n && t[i1] == ASCII_DOT {
        proof {
            assert(r1[0] == t@[i1 as int]);
            assert(r1.skip(1) =~= t@.skip(i1 + 1));
        }
        let f0 = i1 + 1;
        let i2 = digit_run_end(t, f0);
        if i2 == f0 {
            return None;
        }
        push_range(&mut digits, t, f0, i2);
        proof {
            assert(digits@ =~= t@.take(i1 as int) + r1.skip(1).take(i2 - f0));
            assert(r1.skip(1).skip(i2 - f0) =~= t@.skip(i2 as int));
        }
        frac_len = i2 - f0;
        rest_start = i2;
    } else {
        proof {
            if i1 < n {
                assert(r1[0] == t@[i1 as int]);
            }
        }
    }
    let ghost rest = t@.skip(rest_start as int);
    let mut exp_neg: bool = false;
    let mut exp_val: u64 = 0;
    if rest_start < n {
        let c = t[rest_start];
        proof {
            assert(rest[0] == t@[rest_start as int]);
        }
        if c != ASCII_LOWER_E && c != ASCII_UPPER_E {
            return None;
        }
        let mut s0 = rest_start + 1;
        proof {
            if s0 < n {
                assert(rest[1] == t@[s0 as int]);
            }
        }
        if s0 < n && t[s0] == ASCII_PLUS {
            s0 = s0 + 1;
            proof {
                assert(rest.skip(2) =~= t@.skip(s0 as int));
            }
        } else if s0 < n && t[s0] == ASCII_MINUS {
            exp_neg = true;
            s0 = s0 + 1;
            proof {
                assert(rest.skip(2) =~= t@.skip(s0 as int));
            }
        } else {
            proof {
                assert(rest.skip(1) =~= t@.skip(s0 as int));
            }
        }
        let ghost ds = t@.skip(s0 as int);
        if s0 == n {
            assert(ds.len() == 0);
            return None;
        }
        let i3 = digit_run_end(t, s0);
        if i3 < n {
            proof {
                assert(ds[i3 - s0] == t@[i3 as int]);
                assert(!all_digits(ds));
            }
            return None;
        }
        let mut eds: Vec<u8> = Vec::new();
        push_range(&mut eds, t, s0, n);
        proof {
            assert(eds@ =~= ds);
            assert forall|k: int| 0 <= k < eds@.len() implies is_digit(#[trigger] eds@[k]) by {
                assert(eds@[k] == t@[s0 + k]);
            }
            assert(all_digits(ds));
        }
        match digits_value(&eds, EXP_LIMIT) {
            None => {
                return None;
            },
            Some(v) => {
                exp_val = v;
            },
        }
    }
    let m: u64 = match digits_value(&digits, u64::MAX) {
        None => {
            return None;
        },
        Some(v) => v,
    };
    let e_i64: i64 = if exp_neg {
        -(exp_val as i64) - frac_len as i64
    } else {
        exp_val as i64 - frac_len as i64
    };
    Some(Dec { mantissa: m, exponent: e_i64 as i32 })
}

} // verus!
