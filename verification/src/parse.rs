//! Parsing of the numeric strings that the market feed delivers:
//! decimal prices and sizes, and integer timestamps.

use vstd::prelude::*;
use vstd::string::StringSliceAdditionalSpecFns;
use vstd::assert_by_contradiction;
use crate::fixed::{micro_of_parts, micro_from_parts, QTY_LIMIT};

verus! {

/// The mantissa and scale that rust_decimal's string parser assigns to a
/// decimal string (the parsed value is `mantissa / 10^scale`), or `None`
/// where the string does not parse. The outcome depends on the string
/// alone.
pub uninterp spec fn decimal_parts_of(s: Seq<char>) -> Option<(int, nat)>;

/// Relies on rust_decimal's `Decimal::from_str` to parse a decimal
/// string, and on its `mantissa` and `scale` accessors to report the
/// parsed value exactly; a decimal carries a 96-bit mantissa and a scale
/// of at most 28.
#[verifier::external_body]
fn parse_decimal_parts(s: &str) -> (r: Option<(i128, u32)>)
    ensures
        match r {
            Some(p) => decimal_parts_of(s@) == Some((p.0 as int, p.1 as nat))
                && -0x1000000000000000000000000 < p.0 < 0x1000000000000000000000000
                && p.1 <= 28,
            None => decimal_parts_of(s@) is None,
        },
{
    match <rust_decimal::Decimal as core::str::FromStr>::from_str(s) {
        Ok(d) => Some((d.mantissa(), d.scale())),
        Err(_) => None,
    }
}

/// The micro-unit value of a decimal string: the parsed decimal rescaled
/// to six decimal places, or `None` where the string does not parse, has
/// more than six decimal places, or lies outside `[-QTY_LIMIT, QTY_LIMIT]`.
pub open spec fn micro_of_str(s: Seq<char>) -> Option<int> {
    match decimal_parts_of(s) {
        Some(p) => micro_of_parts(p.0, p.1),
        None => None,
    }
}

/// Parses a decimal string to a micro-unit quantity.
pub fn parse_micro(s: &str) -> (r: Option<i64>)
    ensures
        match r {
            Some(v) => micro_of_str(s@) == Some(v as int) && -QTY_LIMIT <= v <= QTY_LIMIT,
            None => micro_of_str(s@) is None,
        },
{
    match parse_decimal_parts(s) {
        Some((m, scale)) => micro_from_parts(m, scale),
        None => None,
    }
}

/// The value of a string of ASCII digits read in base ten.
pub open spec fn digits_val(bs: Seq<u8>) -> int
    decreases bs.len(),
{
    if bs.len() == 0 {
        0
    } else {
        digits_val(bs.drop_last()) * 10 + (bs.last() - 0x30)
    }
}

/// Every byte is an ASCII digit.
pub open spec fn all_digits(bs: Seq<u8>) -> bool {
    forall|i: int| 0 <= i < bs.len() ==> 0x30 <= #[trigger] bs[i] <= 0x39
}

/// The signed 64-bit integer denoted by a byte string: an optional sign
/// followed by at least one digit, with the value in `i64` range.
pub open spec fn i64_of_bytes(bs: Seq<u8>) -> Option<int> {
    let neg = bs.len() > 0 && bs[0] == 0x2d;
    let signed = bs.len() > 0 && (bs[0] == 0x2d || bs[0] == 0x2b);
    let ds = if signed {
        bs.drop_first()
    } else {
        bs
    };
    if ds.len() == 0 || !all_digits(ds) {
        None
    } else {
        let v = if neg {
            -digits_val(ds)
        } else {
            digits_val(ds)
        };
        if i64::MIN <= v <= i64::MAX {
            Some(v)
        } else {
            None
        }
    }
}

proof fn lemma_digits_val_nonneg(bs: Seq<u8>)
    requires
        all_digits(bs),
    ensures
        digits_val(bs) >= 0,
    decreases bs.len(),
{
    if bs.len() > 0 {
        assert(all_digits(bs.drop_last()));
        lemma_digits_val_nonneg(bs.drop_last());
    }
}

proof fn lemma_digits_val_take_succ(bs: Seq<u8>, i: int)
    requires
        0 <= i < bs.len(),
    ensures
        digits_val(bs.take(i + 1)) == digits_val(bs.take(i)) * 10 + (bs[i] - 0x30),
{
    assert(bs.take(i + 1).drop_last() =~= bs.take(i));
    assert(bs.take(i + 1).last() == bs[i]);
}

proof fn lemma_digits_val_grows(bs: Seq<u8>, i: int)
    requires
        all_digits(bs),
        0 <= i <= bs.len(),
    ensures
        digits_val(bs) >= digits_val(bs.take(i)),
        digits_val(bs.take(i)) >= 0,
    decreases bs.len() - i,
{
    assert(all_digits(bs.take(i)));
    lemma_digits_val_nonneg(bs.take(i));
    if i < bs.len() {
        lemma_digits_val_take_succ(bs, i);
        lemma_digits_val_grows(bs, i + 1);
        assert(digits_val(bs.take(i)) * 10 >= digits_val(bs.take(i))) by (nonlinear_arith)
            requires
                digits_val(bs.take(i)) >= 0,
        ;
    } else {
        assert(bs.take(i) =~= bs);
    }
}

/// Parses an optionally signed decimal integer, as the feed writes
/// timestamps. Returns `None` for an empty or non-numeric string and for
/// a value outside `i64` range.
#[verifier::loop_isolation(false)]
pub fn parse_i64_dec(s: &str) -> (r: Option<i64>)
    ensures
        match r {
            Some(v) => i64_of_bytes(s.spec_bytes()) == Some(v as int),
            None => i64_of_bytes(s.spec_bytes()) is None,
        },
{
    let bs = s.as_bytes();
    let n = bs.len();
    let ghost whole = s.spec_bytes();
    let (neg, start): (bool, usize) = if n > 0 && (bs[0] == 0x2d || bs[0] == 0x2b) {
        (bs[0] == 0x2d, 1)
    } else {
        (false, 0)
    };
    let ghost ds = if start == 1 {
        whole.drop_first()
    } else {
        whole
    };
    proof {
        if start == 1 {
            assert(ds =~= whole.subrange(1, n as int));
        } else {
            assert(ds =~= whole.subrange(0, n as int));
        }
    }
    if n == start {
        return None;
    }
    let mut acc: u128 = 0;
    let mut i: usize = start;
    while i < n
        invariant
            start <= i <= n,
            n == whole.len(),
            bs@ == whole,
            ds == whole.subrange(start as int, n as int),
            all_digits(ds.take(i - start)),
            acc == digits_val(ds.take(i - start)),
            acc <= 0x8000000000000000u128,
        decreases n - i,
    {
        let b = bs[i];
        proof {
            assert(ds[i - start] == whole[i as int]);
        }
        if b < 0x30 || b > 0x39 {
            proof {
                assert_by_contradiction!(!all_digits(ds), {
                    assert(0x30 <= ds[i - start] <= 0x39);
                });
            }
            return None;
        }
        proof {
            lemma_digits_val_take_succ(ds, i - start);
            assert(ds.take(i - start).push(ds[i - start]) =~= ds.take(i - start + 1));
        }
        let next: u128 = acc * 10 + ((b - 0x30) as u128);
        if next > 0x8000000000000000u128 {
            proof {
                assert(next as int == digits_val(ds.take(i - start + 1)));
                if all_digits(ds) {
                    lemma_digits_val_grows(ds, i - start + 1);
                    assert(digits_val(ds) > 0x8000000000000000);
                }
            }
            return None;
        }
        acc = next;
        i = i + 1;
    }
    proof {
        assert(ds.take(i - start) =~= ds);
    }
    if neg {
        if acc > 0x8000000000000000u128 {
            return None;
        }
        if acc == 0x8000000000000000u128 {
            return Some(i64::MIN);
        }
        Some(-(acc as i64))
    } else {
        if acc > 0x7fffffffffffffffu128 {
            return None;
        }
        Some(acc as i64)
    }
}

} // verus!
