//! Sizes in bytes written for people: `1536` becomes `1.5 KB`.
//!
//! A size is carried with 53 significant bits, the precision of a
//! double-precision number, so that the text agrees with what a host that
//! computes in doubles would print. It is then scaled by 1024 to the largest
//! unit that leaves at least 1 (`TB` at most) and written with one decimal.
//! Both roundings go to the nearest value, and a tie goes to the even one.

use vstd::prelude::*;
use vstd::arithmetic::div_mod::{lemma_div_denominator, lemma_fundamental_div_mod};
use vstd::arithmetic::power2::{
    lemma2_to64, lemma_pow2_pos, lemma_pow2_strictly_increases, lemma_pow2_unfold, pow2,
};
use vstd::string::StringExecFns;
use crate::decimal::{decimal, push_decimal};

verus! {

/// 2^53: up to here every whole number has no more than 53 bits.
pub const FULL_PRECISION: u64 = 0x20_0000_0000_0000;

/// `n / d` rounded to the nearest whole number, a tie to the even one.
pub open spec fn rounded_quotient(n: nat, d: nat) -> nat
    recommends
        d > 0,
{
    let q = n / d;
    let r = n % d;
    if 2 * r < d || (2 * r == d && q % 2 == 0) {
        q
    } else {
        q + 1
    }
}

/// The distance between neighbouring numbers of 53 significant bits at `size`:
/// 1 below 2^53, and twice as much each time the size doubles.
pub open spec fn spacing(size: nat) -> nat
    decreases size,
{
    if size < FULL_PRECISION {
        1
    } else {
        2 * spacing(size / 2)
    }
}

/// `size` rounded to 53 significant bits.
pub open spec fn carried(size: nat) -> nat {
    rounded_quotient(size, spacing(size)) * spacing(size)
}

/// The unit that a value is written in: 0 for `B` up to 4 for `TB`.
pub open spec fn unit_index(value: nat) -> nat {
    if value < 1024 {
        0
    } else if value < 1024 * 1024 {
        1
    } else if value < 1024 * 1024 * 1024 {
        2
    } else if value < 1024 * 1024 * 1024 * 1024 {
        3
    } else {
        4
    }
}

/// The number of bytes in one of a unit.
pub open spec fn unit_size(unit: nat) -> nat {
    if unit == 0 {
        1
    } else if unit == 1 {
        1024
    } else if unit == 2 {
        1024 * 1024
    } else if unit == 3 {
        1024 * 1024 * 1024
    } else {
        1024 * 1024 * 1024 * 1024
    }
}

/// The name of a unit.
pub open spec fn unit_name(unit: nat) -> Seq<char> {
    if unit == 0 {
        "B"@
    } else if unit == 1 {
        "KB"@
    } else if unit == 2 {
        "MB"@
    } else if unit == 3 {
        "GB"@
    } else {
        "TB"@
    }
}

/// A size as text: in bytes as a whole number, in any larger unit with one
/// decimal.
pub open spec fn formatted_size(size: nat) -> Seq<char> {
    let value = carried(size);
    let unit = unit_index(value);
    if unit == 0 {
        decimal(value).push(' ') + unit_name(unit)
    } else {
        let tenths = rounded_quotient(10 * value, unit_size(unit));
        decimal(tenths / 10).push('.') + decimal(tenths % 10).push(' ') + unit_name(unit)
    }
}

/// The rounded quotient is the whole number nearest to `n / d`, and the even
/// one of the two where `n / d` lies halfway between them.
pub proof fn lemma_rounded_quotient(n: nat, d: nat)
    requires
        d > 0,
    ensures
        ({
            let q = rounded_quotient(n, d);
            &&& 2 * (q * d - n) <= d
            &&& 2 * (n - q * d) <= d
            &&& (2 * (q * d - n) == d || 2 * (n - q * d) == d) ==> q % 2 == 0
        }),
{
    let q0 = n / d;
    let r = n % d;
    lemma_fundamental_div_mod(n as int, d as int);
    assert(n == d * q0 + r);
    assert(d * q0 == q0 * d) by (nonlinear_arith);
    assert((q0 + 1) * d == q0 * d + d) by (nonlinear_arith);
}

/// Measured in its spacing, a size has no more than 53 bits, and exactly 53
/// where the spacing is more than 1.
pub proof fn lemma_spacing(size: nat)
    ensures
        spacing(size) >= 1,
        size / spacing(size) < FULL_PRECISION,
        spacing(size) > 1 ==> 2 * (size / spacing(size)) >= FULL_PRECISION,
    decreases size,
{
    if size < FULL_PRECISION {
        assert(size / 1 == size);
    } else {
        let half = size / 2;
        lemma_spacing(half);
        lemma_div_denominator(size as int, 2, spacing(half) as int);
        if spacing(half) == 1 {
            assert(half / 1 == half);
        }
    }
}

/// Below 2^53 a size is carried as it is.
pub proof fn lemma_carried_small(size: nat)
    requires
        size < FULL_PRECISION,
    ensures
        carried(size) == size,
{
    assert(spacing(size) == 1);
    assert(size / 1 == size && size % 1 == 0);
}

/// Sizes below 1024 are written in bytes, as they are.
pub proof fn lemma_formatted_bytes(size: nat)
    requires
        size < 1024,
    ensures
        formatted_size(size) == decimal(size).push(' ') + "B"@,
{
    lemma_carried_small(size);
}

/// `n / d`, rounded to the nearest whole number, a tie to the even one.
pub fn divide_rounding(n: u128, d: u128) -> (q: u128)
    requires
        d > 0,
    ensures
        q == rounded_quotient(n as nat, d as nat),
{
    let q = n / d;
    let r = n % d;
    proof {
        lemma_fundamental_div_mod(n as int, d as int);
    }
    if r < d - r || (r == d - r && q % 2 == 0) {
        q
    } else {
        assert(d >= 2);
        assert(q < u128::MAX) by (nonlinear_arith)
            requires
                n == d * q + r,
                d >= 2,
                r >= 0,
                q >= 0,
                n <= u128::MAX,
        ;
        q + 1
    }
}

/// `size` rounded to 53 significant bits.
pub fn carry(size: u64) -> (value: u128)
    ensures
        value == carried(size as nat),
        value <= 0x1_0000_0000_0000_0000,
{
    let mut step: u64 = 1;
    let mut high: u64 = size;
    let ghost mut bits: nat = 0;
    proof {
        lemma2_to64();
    }
    while high >= FULL_PRECISION
        invariant
            step == pow2(bits),
            bits <= 11,
            high == size / step,
            spacing(size as nat) == step * spacing(high as nat),
        decreases high,
    {
        proof {
            lemma2_to64();
            lemma_pow2_pos(bits);
            lemma_fundamental_div_mod(size as int, step as int);
            assert(step < 0x800) by (nonlinear_arith)
                requires
                    size == step * high + size % step,
                    size % step >= 0,
                    high >= 0x20_0000_0000_0000,
                    size <= u64::MAX,
                    step >= 1,
            ;
            if bits == 11 {
                assert(false);
            }
            lemma_pow2_unfold(bits + 1);
            lemma_pow2_strictly_increases(bits + 1, 12);
            lemma_div_denominator(size as int, step as int, 2);
            assert(step * (2 * spacing((high / 2) as nat)) == (step * 2) * spacing(
                (high / 2) as nat,
            )) by (nonlinear_arith);
            bits = bits + 1;
        }
        high = high / 2;
        step = step * 2;
    }
    proof {
        lemma2_to64();
        lemma_pow2_pos(bits);
        if bits < 11 {
            lemma_pow2_strictly_increases(bits, 11);
        }
        assert(spacing(high as nat) == 1);
        assert(spacing(size as nat) == step) by (nonlinear_arith)
            requires
                spacing(size as nat) == step * 1,
        ;
    }
    let q = divide_rounding(size as u128, step as u128);
    assert(q <= 0x20_0000_0000_0000) by {
        lemma_fundamental_div_mod(size as int, step as int);
        if step == 1 {
            assert(size / 1 == size && size % 1 == 0);
        }
    }
    assert(q * step <= 0x1_0000_0000_0000_0000) by (nonlinear_arith)
        requires
            q <= 0x20_0000_0000_0000,
            step <= 0x800,
            size <= u64::MAX,
            step == 1 ==> q == size,
    ;
    q * (step as u128)
}

/// The name of the unit that `value` is written in, with the number of bytes
/// in one of it.
pub fn unit_for(value: u128) -> (unit: (&'static str, u128))
    ensures
        unit.0@ == unit_name(unit_index(value as nat)),
        unit.1 == unit_size(unit_index(value as nat)),
{
    if value < 1024 {
        ("B", 1)
    } else if value < 1024 * 1024 {
        ("KB", 1024)
    } else if value < 1024 * 1024 * 1024 {
        ("MB", 1024 * 1024)
    } else if value < 1024 * 1024 * 1024 * 1024 {
        ("GB", 1024 * 1024 * 1024)
    } else {
        ("TB", 1024 * 1024 * 1024 * 1024)
    }
}

/// Writes `size`, a number of bytes, for people to read: a whole number of
/// `B` below 1024, else one decimal of `KB`, `MB`, `GB` or `TB`.
pub fn format_size(size: u64) -> (text: String)
    ensures
        text@ == formatted_size(size as nat),
{
    let value = carry(size);
    let (name, bytes) = unit_for(value);
    let mut text = String::new();
    if bytes == 1 {
        push_decimal(&mut text, value as u64);
        text.push(' ');
        text.append(name);
        proof {
            assert(text@ =~= formatted_size(size as nat));
        }
    } else {
        let tenths = divide_rounding(10 * value, bytes);
        proof {
            lemma_fundamental_div_mod(10 * value, bytes as int);
            assert(tenths <= value) by (nonlinear_arith)
                requires
                    10 * value == bytes * ((10 * value) / (bytes as int)) + (10 * value) % (
                    bytes as int),
                    (10 * value) % (bytes as int) >= 0,
                    (10 * value) / (bytes as int) >= 0,
                    bytes >= 1024,
                    tenths <= (10 * value) / (bytes as int) + 1,
                    value >= 1024,
            ;
        }
        push_decimal(&mut text, (tenths / 10) as u64);
        text.push('.');
        push_decimal(&mut text, (tenths % 10) as u64);
        text.push(' ');
        text.append(name);
        proof {
            assert(text@ =~= formatted_size(size as nat));
        }
    }
    text
}

} // verus!
