//! Large numbers in a few characters.

use crate::scan;
use crate::text;
use vstd::prelude::*;

verus! {

/// `a / b` rounded to the nearest whole number, and to the even one of two that are
/// equally near.
pub open spec fn nearest(a: nat, b: nat) -> nat {
    let q = a / b;
    let r = a % b;
    if 2 * r < b || (2 * r == b && q % 2 == 0) {
        q
    } else {
        q + 1
    }
}

/// How many whole numbers a number with 53 binary digits can tell apart.
pub open spec fn float_steps() -> nat {
    0x20_0000_0000_0000
}

/// The power of two, from `unit` on, that a whole number is a multiple of once it is
/// rounded to 53 binary digits.
pub open spec fn float_unit(v: nat, unit: nat) -> nat
    decreases v - unit,
{
    if unit == 0 || v < float_steps() * unit {
        unit
    } else {
        float_unit(v, 2 * unit)
    }
}

/// A whole number rounded to 53 binary digits.
pub open spec fn as_float(v: nat) -> nat {
    let unit = float_unit(v, 1);
    nearest(v, unit) * unit
}

/// The power of two, from `scale` down, in whose parts `n / d` is told once it is rounded to
/// 53 binary digits.
pub open spec fn float_scale(n: nat, d: nat, scale: nat) -> nat
    decreases scale,
{
    if scale <= 1 || n * scale < d * float_steps() {
        scale
    } else {
        float_scale(n, d, scale / 2)
    }
}

/// The tenths of `v / d`, both numbers and their quotient rounded to 53 binary digits.
pub open spec fn tenths(v: nat, d: nat) -> nat {
    let n = as_float(v);
    let scale = float_scale(n, d, 0x10_0000_0000_0000);
    nearest(10 * nearest(n * scale, d), scale)
}

/// A number of tenths with a decimal point.
pub open spec fn with_point(t: nat) -> Seq<char> {
    scan::decimal(t / 10) + "."@ + scan::decimal(t % 10)
}

/// A number in a few characters: thousands and millions with one decimal.
pub open spec fn compacted_number(value: u64) -> Seq<char> {
    if value < 1_000 {
        scan::decimal(value as nat)
    } else if value < 1_000_000 {
        with_point(tenths(value as nat, 1_000)) + "k"@
    } else {
        with_point(tenths(value as nat, 1_000_000)) + "M"@
    }
}

fn round_quotient(a: u128, b: u128) -> (r: u128)
    requires
        0 < b < 0x1_0000_0000_0000_0000_0000,
        a < 0x1_0000_0000_0000_0000_0000_0000_0000_0000 - 1,
    ensures
        r == nearest(a as nat, b as nat),
{
    let q: u128 = a / b;
    let rest: u128 = a % b;
    proof {
        assert(a as nat / b as nat <= a) by (nonlinear_arith)
            requires
                b > 0,
        ;
    }
    if 2 * rest < b || (2 * rest == b && q % 2 == 0) {
        q
    } else {
        q + 1
    }
}

proof fn nearest_bound(a: nat, b: nat, m: nat)
    requires
        b > 0,
        a < b * m,
    ensures
        nearest(a, b) <= m,
{
    assert(a / b < m) by (nonlinear_arith)
        requires
            b > 0,
            a < b * m,
    ;
}

/// A rounded quotient is off by at most one half.
pub proof fn rounding_is_close(a: nat, b: nat)
    requires
        b > 0,
    ensures
        2 * (nearest(a, b) * b) <= 2 * a + b,
        2 * a <= 2 * (nearest(a, b) * b) + b,
{
    assert(a == (a / b) * b + a % b && a % b < b) by (nonlinear_arith)
        requires
            b > 0,
    ;
    assert((a / b + 1) * b == (a / b) * b + b) by (nonlinear_arith);
}

fn float_of(v: u64) -> (r: u128)
    ensures
        r == as_float(v as nat),
        r <= 0x1_0000_0000_0000_1000,
{
    let n: u128 = v as u128;
    let mut unit: u128 = 1;
    while n >= 0x20_0000_0000_0000 * unit
        invariant
            n == v,
            1 <= unit,
            unit == 1 || 0x10_0000_0000_0000 * unit <= n,
            float_unit(n as nat, 1) == float_unit(n as nat, unit as nat),
        decreases n - unit,
    {
        unit = 2 * unit;
    }
    proof {
        rounding_is_close(n as nat, unit as nat);
    }
    round_quotient(n, unit) * unit
}

proof fn tenths_bound(n: nat, d: nat, scale: nat, parts: nat, r: nat)
    requires
        d >= 1_000,
        scale >= 1,
        n <= 0x1_0000_0000_0000_1000,
        parts == nearest(n * scale, d),
        r == nearest(10 * parts, scale),
    ensures
        r <= 0x0fff_ffff_ffff_ffff,
{
    rounding_is_close(n * scale, d);
    rounding_is_close(10 * parts, scale);
    assert(r * d <= 10 * n + 11 * d) by (nonlinear_arith)
        requires
            d >= 1,
            scale >= 1,
            parts * d <= n * scale + d,
            r * scale <= 10 * parts + scale,
    {
        assert(r * scale * d <= (10 * parts + scale) * d);
        assert((10 * parts + scale) * d == 10 * (parts * d) + scale * d);
        assert(10 * (parts * d) + scale * d <= 10 * (n * scale + d) + scale * d);
        assert(10 * d <= 10 * d * scale);
        assert(r * d * scale <= (10 * n + 11 * d) * scale);
    }
    assert(r <= 0x0fff_ffff_ffff_ffff) by (nonlinear_arith)
        requires
            r * d <= 10 * n + 11 * d,
            d >= 1_000,
            n <= 0x1_0000_0000_0000_1000,
    ;
}

fn count_tenths(v: u64, d: u64) -> (r: u64)
    requires
        1_000 <= d <= 1_000_000,
    ensures
        r == tenths(v as nat, d as nat),
{
    let n: u128 = float_of(v);
    let d: u128 = d as u128;
    let mut scale: u128 = 0x10_0000_0000_0000;
    let ghost full: nat = 0x10_0000_0000_0000;
    assert(n * scale <= 0x1_0000_0000_0000_1000 * 0x10_0000_0000_0000) by (nonlinear_arith)
        requires
            n <= 0x1_0000_0000_0000_1000,
            scale <= 0x10_0000_0000_0000,
    ;
    while scale > 1 && n * scale >= d * 0x20_0000_0000_0000
        invariant
            n <= 0x1_0000_0000_0000_1000,
            1_000 <= d <= 1_000_000,
            1 <= scale <= 0x10_0000_0000_0000,
            n * scale <= 0x1_0000_0000_0000_1000 * 0x10_0000_0000_0000,
            full == 0x10_0000_0000_0000,
            float_scale(n as nat, d as nat, full) == float_scale(n as nat, d as nat, scale as nat),
        decreases scale,
    {
        scale = scale / 2;
        assert(n * scale <= 0x1_0000_0000_0000_1000 * 0x10_0000_0000_0000) by (nonlinear_arith)
            requires
                n <= 0x1_0000_0000_0000_1000,
                scale <= 0x10_0000_0000_0000,
        ;
    }
    let parts: u128 = round_quotient(n * scale, d);
    proof {
        let a = (n * scale) as nat;
        let m: nat = 0x10_0000_0000_0001_0000_0000_0000_0001;
        assert(a < d as nat * m) by (nonlinear_arith)
            requires
                a < m,
                d >= 1,
        ;
        nearest_bound(a, d as nat, m);
    }
    let r: u128 = round_quotient(10 * parts, scale);
    proof {
        tenths_bound(n as nat, d as nat, scale as nat, parts as nat, r as nat);
    }
    r as u64
}

fn point_text(t: u64, unit: &str) -> (r: String)
    ensures
        r@ == with_point(t as nat) + unit@,
{
    let whole = scan::decimal_text(t / 10);
    let part = scan::decimal_text(t % 10);
    text::cat4(whole.as_str(), ".", part.as_str(), unit)
}

/// A number in a few characters.
pub fn compact_number(value: u64) -> (r: String)
    ensures
        r@ == compacted_number(value),
{
    if value < 1_000 {
        scan::decimal_text(value)
    } else if value < 1_000_000 {
        point_text(count_tenths(value, 1_000), "k")
    } else {
        point_text(count_tenths(value, 1_000_000), "M")
    }
}

} // verus!
