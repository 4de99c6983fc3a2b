//! Exact decimal numbers used by range constraints and big-number values.
use vstd::prelude::*;

verus! {

/// Ten to the power `n`.
pub open spec fn pow10(n: nat) -> int
    decreases n,
{
    if n == 0 {
        1
    } else {
        10 * pow10((n - 1) as nat)
    }
}

/// A decimal number `unscaled * 10^(-scale)`.
#[derive(Debug, Clone, Copy, PartialEq, Eq, Structural)]
pub struct Decimal {
    pub unscaled: i128,
    pub scale: i64,
}

/// Integer part (rounded toward zero) of a decimal.
pub open spec fn decimal_trunc(d: Decimal) -> int {
    if d.scale <= 0 {
        d.unscaled as int * pow10((-d.scale) as nat)
    } else if d.unscaled >= 0 {
        d.unscaled as int / pow10(d.scale as nat)
    } else {
        -((-(d.unscaled as int)) / pow10(d.scale as nat))
    }
}

} // verus!

verus! {

/// The larger of two integers.
pub open spec fn max_int(a: int, b: int) -> int {
    if a >= b {
        a
    } else {
        b
    }
}

/// `a < b` as decimal numbers: both are brought to the larger scale and compared.
pub open spec fn decimal_lt(a: Decimal, b: Decimal) -> bool {
    let e = max_int(a.scale as int, b.scale as int);
    a.unscaled * pow10((e - a.scale) as nat) < b.unscaled * pow10((e - b.scale) as nat)
}

/// The integer part of `d` when it lies in `[lo, hi]`.
pub open spec fn decimal_in(d: Decimal, lo: int, hi: int) -> Option<int> {
    if lo <= decimal_trunc(d) <= hi {
        Some(decimal_trunc(d))
    } else {
        None
    }
}

/// The text that `bigdecimal` displays for the decimal `unscaled * 10^(-scale)`.
pub uninterp spec fn decimal_display(unscaled: i128, scale: i64) -> Seq<char>;

/// Compares two decimals with `bigdecimal::BigDecimal`'s numeric order (`<`).
#[verifier::external_body]
pub(crate) fn decimal_less(a: &Decimal, b: &Decimal) -> (r: bool)
    ensures
        r == decimal_lt(*a, *b),
{
    bigdecimal::BigDecimal::new(bigdecimal::num_bigint::BigInt::from(a.unscaled), a.scale)
        < bigdecimal::BigDecimal::new(bigdecimal::num_bigint::BigInt::from(b.unscaled), b.scale)
}

proof fn lemma_pow10_pos(n: nat)
    ensures
        pow10(n) >= 1,
    decreases n,
{
    if n > 0 {
        lemma_pow10_pos((n - 1) as nat);
    }
}

proof fn lemma_pow10_mono(a: nat, b: nat)
    requires
        a <= b,
    ensures
        pow10(a) <= pow10(b),
    decreases b,
{
    if a < b {
        lemma_pow10_mono(a, (b - 1) as nat);
        lemma_pow10_pos((b - 1) as nat);
    }
}

/// Scaling a non-zero integer outside `[lo, hi]` (a range holding 0) by a power of ten
/// keeps it outside.
proof fn lemma_scaled_outside(v: int, n: nat, lo: int, hi: int)
    requires
        v != 0,
        lo <= 0 <= hi,
        v < lo || v > hi,
    ensures
        v * pow10(n) < lo || v * pow10(n) > hi,
{
    lemma_pow10_pos(n);
    let p = pow10(n);
    if v > 0 {
        assert(v * p >= v) by (nonlinear_arith)
            requires
                v > 0,
                p >= 1,
        ;
    } else {
        assert(v * p <= v) by (nonlinear_arith)
            requires
                v < 0,
                p >= 1,
        ;
    }
}

/// The integer part (toward zero) of `d`, when it lies in `[lo, hi]`.
pub fn decimal_to_int(d: &Decimal, lo: i64, hi: i64) -> (r: Option<i128>)
    requires
        lo <= 0 <= hi,
    ensures
        match r {
            Some(v) => decimal_in(*d, lo as int, hi as int) == Some(v as int),
            None => decimal_in(*d, lo as int, hi as int) is None,
        },
{
    let lo128: i128 = lo as i128;
    let hi128: i128 = hi as i128;
    if d.unscaled == 0 {
        proof {
            if d.scale > 0 {
                lemma_pow10_pos(d.scale as nat);
                vstd::arithmetic::div_mod::lemma_basic_div(0, pow10(d.scale as nat));
            }
        }
        return Some(0);
    }
    if d.scale <= 0 {
        let k0: i128 = -(d.scale as i128);
        let mut v: i128 = d.unscaled;
        if v < lo128 || v > hi128 {
            proof {
                lemma_scaled_outside(v as int, k0 as nat, lo as int, hi as int);
            }
            return None;
        }
        let mut k: i128 = k0;
        assert(v as int * pow10(k as nat) == decimal_trunc(*d));
        while k > 0
            invariant
                lo128 <= v <= hi128,
                lo128 == lo,
                hi128 == hi,
                lo <= 0 <= hi,
                v != 0,
                0 <= k,
                v as int * pow10(k as nat) == decimal_trunc(*d),
            decreases k,
        {
            let w: i128 = v * 10;
            let ghost p = pow10((k - 1) as nat);
            proof {
                assert(pow10(k as nat) == 10 * p);
                assert(v as int * (10 * p) == (v as int * 10) * p) by (nonlinear_arith);
            }
            if w < lo128 || w > hi128 {
                proof {
                    lemma_scaled_outside(w as int, (k - 1) as nat, lo as int, hi as int);
                }
                return None;
            }
            v = w;
            k = k - 1;
        }
        Some(v)
    } else {
        let s: i64 = d.scale;
        let neg = d.unscaled < 0;
        let x: u128 = if neg {
            ((-(d.unscaled + 1)) as u128) + 1
        } else {
            d.unscaled as u128
        };
        let ghost xi: int = x as int;
        assert(xi == if neg { -(d.unscaled as int) } else { d.unscaled as int });
        let mut m: u128 = x;
        let mut j: i64 = 0;
        assert(pow10(0) == 1);
        while j < s && m != 0
            invariant
                0 <= j <= s,
                xi >= 0,
                m as int == xi / pow10(j as nat),
            decreases s - j,
        {
            proof {
                lemma_pow10_pos(j as nat);
                vstd::arithmetic::div_mod::lemma_div_denominator(xi, pow10(j as nat), 10);
                assert(pow10((j + 1) as nat) == pow10(j as nat) * 10);
            }
            m = m / 10;
            j = j + 1;
        }
        proof {
            if j < s {
                lemma_pow10_pos(j as nat);
                lemma_pow10_pos(s as nat);
                lemma_pow10_mono(j as nat, s as nat);
                vstd::arithmetic::div_mod::lemma_div_is_ordered_by_denominator(
                    xi,
                    pow10(j as nat),
                    pow10(s as nat),
                );
                vstd::arithmetic::div_mod::lemma_div_pos_is_pos(xi, pow10(s as nat));
            }
            lemma_pow10_pos(s as nat);
            vstd::arithmetic::div_mod::lemma_div_is_ordered_by_denominator(xi, 1, 10);
            vstd::arithmetic::div_mod::lemma_div_is_ordered_by_denominator(xi, 10, pow10(s as nat));
            assert(pow10(1) == 10);
            lemma_pow10_mono(1, s as nat);
        }
        assert(m as int == xi / pow10(s as nat));
        let t: i128 = if neg {
            -(m as i128)
        } else {
            m as i128
        };
        if lo128 <= t && t <= hi128 {
            Some(t)
        } else {
            None
        }
    }
}

/// Formats the decimal with `bigdecimal::BigDecimal`'s `Display`.
#[verifier::external_body]
pub(crate) fn decimal_text(d: &Decimal) -> (r: String)
    ensures
        r@ == decimal_display(d.unscaled, d.scale),
{
    bigdecimal::BigDecimal::new(bigdecimal::num_bigint::BigInt::from(d.unscaled), d.scale).to_string()
}

/// A decimal holding the integer `v`.
pub open spec fn decimal_of_int(v: i128) -> Decimal {
    Decimal { unscaled: v, scale: 0 }
}

/// A point in time, as nanoseconds since the Unix epoch.
#[derive(Debug, Clone, Copy, PartialEq, Eq, Structural)]
pub struct Timestamp {
    pub epoch_nanos: i128,
}

/// The character of a decimal digit.
pub open spec fn digit_char(d: int) -> char {
    (48 + d) as char
}

/// Decimal digits of a natural number, most significant first, without leading zeros.
pub open spec fn digits(n: nat) -> Seq<char>
    decreases n,
{
    if n < 10 {
        seq![digit_char(n as int)]
    } else {
        digits(n / 10).push(digit_char((n % 10) as int))
    }
}

/// Decimal text of an integer, as `Display` writes it.
pub open spec fn int_text(v: int) -> Seq<char> {
    if v < 0 {
        seq!['-'] + digits((-v) as nat)
    } else {
        digits(v as nat)
    }
}

fn digit(d: u128) -> (c: char)
    requires
        d < 10,
    ensures
        c == digit_char(d as int),
{
    let b: u8 = 48u8 + (d as u8);
    b as char
}

/// Decimal text of an integer.
pub fn int_to_string(v: i128) -> (r: String)
    ensures
        r@ == int_text(v as int),
{
    let neg = v < 0;
    let mag: u128 = if neg {
        if v == i128::MIN {
            170141183460469231731687303715884105728u128
        } else {
            (-v) as u128
        }
    } else {
        v as u128
    };
    let mut rev: Vec<char> = Vec::new();
    let mut n: u128 = mag;
    let ghost mut low: Seq<char> = Seq::empty();
    loop
        invariant_except_break
            digits(mag as nat) == digits(n as nat) + low,
        invariant
            rev@ == low.reverse(),
        ensures
            digits(mag as nat) == low,
        decreases n,
    {
        let d = digit(n % 10);
        rev.push(d);
        let ghost old_low = low;
        proof {
            low = seq![d] + low;
            assert(rev@ =~= low.reverse());
        }
        if n < 10 {
            proof {
                assert(digits(n as nat) == seq![d]);
                assert(digits(mag as nat) == low) by {
                    assert(seq![d] + old_low =~= low);
                }
            }
            n = 0;
            break;
        }
        proof {
            assert(digits(n as nat) == digits((n / 10) as nat).push(d));
            assert(digits((n / 10) as nat).push(d) + old_low =~= digits((n / 10) as nat) + low);
        }
        n = n / 10;
    }
    assert(digits(mag as nat) == low);
    let mut out = String::new();
    if neg {
        crate::text::push_char(&mut out, '-');
    }
    let ghost start = out@;
    let mut i = rev.len();
    while i > 0
        invariant
            i <= rev@.len(),
            rev@ == low.reverse(),
            out@ == start + low.subrange(0, (rev@.len() - i) as int),
        decreases i,
    {
        i = i - 1;
        crate::text::push_char(&mut out, rev[i]);
        assert(out@ =~= start + low.subrange(0, (rev@.len() - i) as int));
    }
    proof {
        assert(low.subrange(0, low.len() as int) =~= low);
        if neg {
            assert(mag as int == -(v as int));
        }
    }
    out
}

} // verus!
