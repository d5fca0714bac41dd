//! Fixed-point arithmetic in micro-units.
//!
//! Every monetary quantity in this crate (a price, a size, a balance, a
//! configured percentage) is an `i64` holding the quantity scaled by
//! `MICRO`, so one dollar is `1_000_000` micro-units. Products of two
//! micro-unit quantities carry the scale twice and are brought back with
//! a truncating division by `MICRO`.

use vstd::prelude::*;
use vstd::arithmetic::div_mod::lemma_div_is_ordered;
use vstd::math::abs;

verus! {

/// Number of micro-units in one unit (six decimal places).
pub const MICRO: i64 = 1_000_000;

/// Bound on prices, sizes and configured percentages, in micro-units.
/// Wide enough for any market quantity while keeping every intermediate
/// product inside `i128`.
pub const QTY_LIMIT: i64 = 1_000_000_000_000;

/// Bound on account balances and profit-and-loss totals, in micro-units.
pub const BALANCE_LIMIT: i64 = 4_000_000_000_000_000_000;

/// Ten to the power `e`.
pub open spec fn pow10(e: nat) -> int
    decreases e,
{
    if e == 0 {
        1
    } else {
        10 * pow10((e - 1) as nat)
    }
}

pub proof fn lemma_pow10_pos(e: nat)
    ensures
        pow10(e) >= 1,
    decreases e,
{
    if e > 0 {
        lemma_pow10_pos((e - 1) as nat);
    }
}

pub proof fn lemma_pow10_mono(a: nat, b: nat)
    requires
        a <= b,
    ensures
        pow10(a) <= pow10(b),
    decreases b,
{
    if a < b {
        lemma_pow10_mono(a, (b - 1) as nat);
        lemma_pow10_pos((b - 1) as nat);
    }
}

proof fn lemma_pow10_28()
    ensures
        pow10(28) == 10_000_000_000_000_000_000_000_000_000,
{
    reveal_with_fuel(pow10, 29);
}

/// `10^e` as an executable value, for the scales rust_decimal can carry.
pub fn pow10_exec(e: u32) -> (r: u128)
    requires
        e <= 28,
    ensures
        r as int == pow10(e as nat),
{
    let mut r: u128 = 1;
    let mut i: u32 = 0;
    while i < e
        invariant
            i <= e <= 28,
            r as int == pow10(i as nat),
        decreases e - i,
    {
        proof {
            lemma_pow10_mono((i + 1) as nat, 28);
            lemma_pow10_28();
        }
        r = r * 10;
        i = i + 1;
    }
    r
}

/// Division by `MICRO` truncated toward zero, as Rust's `/` would do it
/// on signed integers.
pub open spec fn div_micro_trunc(n: int) -> int {
    if n >= 0 {
        n / (MICRO as int)
    } else {
        -((-n) / (MICRO as int))
    }
}

/// The product of two micro-unit quantities, brought back to micro-units.
pub open spec fn scaled_mul_spec(a: int, b: int) -> int {
    div_micro_trunc(a * b)
}

/// Multiplies two micro-unit quantities and rescales, truncating toward
/// zero. The bounds keep the product inside `i128` and the result inside
/// `i64`.
pub fn scaled_mul(a: i64, b: i64) -> (r: i64)
    requires
        -4 * QTY_LIMIT <= a <= 4 * QTY_LIMIT,
        -QTY_LIMIT <= b <= QTY_LIMIT,
    ensures
        r == scaled_mul_spec(a as int, b as int),
        -4 * QTY_LIMIT * MICRO <= r <= 4 * QTY_LIMIT * MICRO,
{
    proof {
        assert((a as int) * (b as int) <= 4_000_000_000_000_000_000_000_000
            && (a as int) * (b as int) >= -4_000_000_000_000_000_000_000_000) by (nonlinear_arith)
            requires
                -4_000_000_000_000 <= a <= 4_000_000_000_000,
                -1_000_000_000_000 <= b <= 1_000_000_000_000,
        ;
    }
    let p: i128 = (a as i128) * (b as i128);
    let mag: u128 = if p < 0 {
        (-p) as u128
    } else {
        p as u128
    };
    let q: u128 = mag / 1_000_000u128;
    proof {
        lemma_div_is_ordered(mag as int, 4_000_000_000_000_000_000_000_000, 1_000_000);
    }
    let qi: i64 = q as i64;
    if p < 0 {
        -qi
    } else {
        qi
    }
}

/// A bound on the factors gives a bound on the rescaled product.
pub proof fn lemma_scaled_mul_bound(a: int, b: int, ba: int, bb: int)
    requires
        -ba <= a <= ba,
        -bb <= b <= bb,
        0 <= ba,
        0 <= bb,
    ensures
        -(ba * bb) <= a * b <= ba * bb,
        -((ba * bb) / (MICRO as int)) <= scaled_mul_spec(a, b) <= (ba * bb) / (MICRO as int),
{
    assert(-(ba * bb) <= a * b <= ba * bb) by (nonlinear_arith)
        requires
            -ba <= a <= ba,
            -bb <= b <= bb,
            0 <= ba,
            0 <= bb,
    ;
    let p = a * b;
    let m = MICRO as int;
    if p >= 0 {
        lemma_div_is_ordered(p, ba * bb, m);
        assert(p / m >= 0) by (nonlinear_arith)
            requires
                p >= 0,
                m == 1_000_000,
        ;
    } else {
        lemma_div_is_ordered(-p, ba * bb, m);
        assert((-p) / m >= 0) by (nonlinear_arith)
            requires
                -p >= 0,
                m == 1_000_000,
        ;
    }
}

/// The micro-unit value of a decimal number given as mantissa and scale
/// (the value is `m / 10^scale`): `None` when the value has more than six
/// decimal places or lies outside `[-QTY_LIMIT, QTY_LIMIT]`.
pub open spec fn micro_of_parts(m: int, scale: nat) -> Option<int> {
    let v = if scale <= 6 {
        Some(m * pow10((6 - scale) as nat))
    } else {
        let d = pow10((scale - 6) as nat);
        if abs(m) % (d as nat) == 0 {
            Some(if m >= 0 {
                abs(m) as int / d
            } else {
                -(abs(m) as int / d)
            })
        } else {
            None
        }
    };
    match v {
        Some(x) => if -QTY_LIMIT <= x <= QTY_LIMIT {
            Some(x)
        } else {
            None
        },
        None => None,
    }
}

/// Rescales a decimal mantissa and scale, as rust_decimal reports them,
/// to a micro-unit quantity. Returns `None` for a value that does not fit
/// micro-units exactly or lies outside `[-QTY_LIMIT, QTY_LIMIT]`.
pub fn micro_from_parts(m: i128, scale: u32) -> (r: Option<i64>)
    requires
        -0x1000000000000000000000000 < m < 0x1000000000000000000000000,
        scale <= 28,
    ensures
        match r {
            Some(v) => micro_of_parts(m as int, scale as nat) == Some(v as int),
            None => micro_of_parts(m as int, scale as nat) is None,
        },
        r matches Some(v) ==> -QTY_LIMIT <= v <= QTY_LIMIT,
{
    let neg = m < 0;
    let mag: u128 = if neg {
        (-m) as u128
    } else {
        m as u128
    };
    let v: u128 = if scale <= 6 {
        let f = pow10_exec(6 - scale);
        proof {
            lemma_pow10_mono((6 - scale) as nat, 6);
            lemma_pow10_pos((6 - scale) as nat);
            reveal_with_fuel(pow10, 7);
            assert(pow10(6) == 1_000_000);
            assert(mag * f <= 0x1000000000000000000000000u128 * 1_000_000) by (nonlinear_arith)
                requires
                    mag <= 0x1000000000000000000000000u128,
                    0 <= f <= 1_000_000,
            ;
            assert((m as int) * (f as int) == if m >= 0 {
                (mag * f) as int
            } else {
                -((mag * f) as int)
            }) by (nonlinear_arith)
                requires
                    mag == abs(m as int),
                    m < 0 ==> mag == -(m as int),
                    m >= 0 ==> mag == m as int,
            ;
        }
        mag * f
    } else {
        let d = pow10_exec(scale - 6);
        proof {
            lemma_pow10_pos((scale - 6) as nat);
        }
        if mag % d != 0 {
            return None;
        }
        mag / d
    };
    if v > 1_000_000_000_000u128 {
        proof {
            if scale <= 6 {
                assert(abs((m as int) * (pow10((6 - scale) as nat))) == v as int);
            }
        }
        return None;
    }
    let small: i64 = v as i64;
    if neg {
        Some(-small)
    } else {
        Some(small)
    }
}

} // verus!
