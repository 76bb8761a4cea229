//! Human-readable byte sizes, as a binary-floating-point computation
//! would print them, computed exactly with integers.

use vstd::prelude::*;
use crate::text::{decimal, digit, digit_char, push_decimal};

verus! {

/// One mebibyte.
pub const MIB: u64 = 1048576;

/// One kibibyte.
pub const KIB: u64 = 1024;

/// The smallest integer that a double cannot hold for every neighbour:
/// below it every integer is exactly representable.
pub const EXACT_LIMIT: u128 = 0x20_0000_0000_0000;

/// `num / den` rounded to the nearest integer, ties to the even one.
pub open spec fn round_half_even(num: nat, den: nat) -> nat
    recommends
        den > 0,
{
    let q = num / den;
    let r = num % den;
    if 2 * r > den || (2 * r == den && q % 2 == 1) {
        q + 1
    } else {
        q
    }
}

/// The spacing of doubles around `n`: 1 below 2^53, doubling with every
/// further binary digit.
pub open spec fn double_spacing(n: nat) -> nat
    decreases n,
{
    if n < EXACT_LIMIT {
        1
    } else {
        2 * double_spacing(n / 2)
    }
}

/// The double nearest to `n` (ties to even), which is what converting an
/// unsigned integer to a double yields.
pub open spec fn nearest_double(n: nat) -> nat {
    let p = double_spacing(n);
    round_half_even(n, p) * p
}

/// The size string: mebibytes with one decimal, kibibytes with none,
/// otherwise bytes.
pub open spec fn size_text(bytes: nat) -> Seq<char> {
    if bytes >= MIB {
        let tenths = round_half_even(nearest_double(bytes) * 10, MIB as nat);
        decimal(tenths / 10) + "."@ + seq![digit_char(tenths % 10)] + "M"@
    } else if bytes >= KIB {
        decimal(round_half_even(bytes, KIB as nat)) + "K"@
    } else {
        decimal(bytes) + "B"@
    }
}

/// Rounded division, ties to even.
pub fn div_round_half_even(num: u128, den: u128) -> (q: u128)
    requires
        den > 0,
        num < u128::MAX,
    ensures
        q == round_half_even(num as nat, den as nat),
        q <= num / den + 1,
{
    let q = num / den;
    let r = num % den;
    if r > den - r || (r == den - r && q % 2 == 1) {
        q + 1
    } else {
        q
    }
}

/// The value of `n` converted to a double, as an exact integer.
pub fn nearest_double_value(n: u64) -> (v: u128)
    ensures
        v == nearest_double(n as nat),
        v <= 2 * (n as nat),
{
    let mut m: u128 = n as u128;
    let mut p: u128 = 1;
    while m >= EXACT_LIMIT
        invariant
            1 <= p,
            m <= n,
            m >= 1 || n == 0,
            p * m <= n,
            double_spacing(n as nat) == p * double_spacing(m as nat),
        decreases m,
    {
        let ghost old_m = m;
        let ghost old_p = p;
        assert(double_spacing(old_m as nat) == 2 * double_spacing((old_m / 2) as nat));
        proof {
            assert(old_p <= old_p * old_m) by (nonlinear_arith)
                requires
                    old_m >= 1,
                    old_p >= 1,
            ;
        }
        m = m / 2;
        p = p * 2;
        proof {
            let s = double_spacing(m as nat);
            assert(old_p * (2 * s) == p * s) by (nonlinear_arith)
                requires
                    p == old_p * 2,
            ;
            assert(p * m <= old_p * old_m) by (nonlinear_arith)
                requires
                    p == old_p * 2,
                    m == old_m / 2,
                    old_p >= 1,
            ;
        }
    }
    assert(double_spacing(m as nat) == 1);
    proof {
        let s = double_spacing(m as nat);
        assert(p * s == p) by (nonlinear_arith)
            requires
                s == 1,
        ;
        assert(p <= p * m || m == 0) by (nonlinear_arith)
            requires
                p >= 1,
        ;
    }
    assert(double_spacing(n as nat) == p);
    let q = div_round_half_even(n as u128, p);
    proof {
        assert(q * p <= (n as nat) + p) by (nonlinear_arith)
            requires
                q <= (n as u128) / p + 1,
                p >= 1,
        ;
        if n == 0 {
            assert(q == 0);
        }
    }
    q * p
}

/// Format a byte count as a human-readable size.
pub fn format_size(bytes: u64) -> (s: String)
    ensures
        s@ == size_text(bytes as nat),
{
    let mut out = String::new();
    if bytes >= MIB {
        let v = nearest_double_value(bytes);
        let tenths = div_round_half_even(v * 10, MIB as u128);
        push_decimal(&mut out, tenths / 10);
        out.append(".");
        out.push(digit(tenths % 10));
        out.append("M");
    } else if bytes >= KIB {
        let k = div_round_half_even(bytes as u128, KIB as u128);
        push_decimal(&mut out, k);
        out.append("K");
    } else {
        push_decimal(&mut out, bytes as u128);
        out.append("B");
    }
    proof {
        assert(Seq::<char>::empty() + out@ =~= out@);
    }
    out
}

} // verus!
