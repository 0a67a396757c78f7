//! Sizes in bytes as text in binary units.

use vstd::prelude::*;
use crate::digits::{dec, dec_text, push_digits};
use crate::text::concat2;

verus! {

/// One kibibyte, mebibyte and gibibyte.
pub const KB: u64 = 0x400;

pub const MB: u64 = 0x10_0000;

pub const GB: u64 = 0x4000_0000;

/// `n / d` rounded to the nearest integer, and to the even one of two that are as near.
pub open spec fn rounded(n: nat, d: nat) -> nat {
    if 2 * (n % d) < d || (2 * (n % d) == d && (n / d) % 2 == 0) {
        n / d
    } else {
        n / d + 1
    }
}

/// The step between the double-precision numbers around an integer, where it is
/// not below one.
pub open spec fn double_step(b: nat) -> nat
    decreases b,
{
    if b < 0x20_0000_0000_0000 {
        1
    } else {
        2 * double_step(b / 2)
    }
}

/// The double-precision number nearest to an integer.
pub open spec fn as_double(b: nat) -> nat {
    rounded(b, double_step(b)) * double_step(b)
}

/// A number of hundredths with two decimals.
pub open spec fn two_decimals(h: nat) -> Seq<char> {
    dec(h / 100) + "."@ + dec((h / 10) % 10) + dec(h % 10)
}

/// A number of tenths with one decimal.
pub open spec fn one_decimal(t: nat) -> Seq<char> {
    dec(t / 10) + "."@ + dec(t % 10)
}

/// A size in the largest unit that it reaches, with two decimals from a
/// mebibyte on and one for kibibytes.
pub open spec fn size_text(b: nat) -> Seq<char> {
    if b >= GB {
        two_decimals(rounded(as_double(b) * 100, GB as nat)) + " GB"@
    } else if b >= MB {
        two_decimals(rounded(b * 100, MB as nat)) + " MB"@
    } else if b >= KB {
        one_decimal(rounded(b * 10, KB as nat)) + " KB"@
    } else {
        dec(b) + " B"@
    }
}

fn round_div(n: u128, d: u128) -> (r: u128)
    requires
        0 < d <= 0x1_0000_0000_0000_0000,
        n <= 0xFFFF_FFFF_FFFF_FFFF_FFFF_FFFF,
    ensures
        r == rounded(n as nat, d as nat),
{
    let q: u128 = n / d;
    let m: u128 = n % d;
    assert(q <= n) by (nonlinear_arith)
        requires
            q == n / d,
            d >= 1,
            n >= 0,
    ;
    if 2 * m < d || (2 * m == d && q % 2 == 0) {
        q
    } else {
        q + 1
    }
}

proof fn lemma_double_step(b: nat, k: nat)
    requires
        b < 0x20_0000_0000_0000 * vstd::arithmetic::power2::pow2(k),
    ensures
        1 <= double_step(b) <= vstd::arithmetic::power2::pow2(k),
    decreases k,
{
    vstd::arithmetic::power2::lemma_pow2_pos(k);
    if b >= 0x20_0000_0000_0000 {
        if k == 0 {
            vstd::arithmetic::power2::lemma2_to64();
        } else {
            vstd::arithmetic::power2::lemma_pow2_unfold(k);
            lemma_double_step(b / 2, (k - 1) as nat);
        }
    }
}

fn step_of(b: u64) -> (r: u64)
    ensures
        r == double_step(b as nat),
        1 <= r <= 0x800,
{
    proof {
        vstd::arithmetic::power2::lemma2_to64();
        lemma_double_step(b as nat, 11);
    }
    step_upto(b)
}

fn step_upto(b: u64) -> (r: u64)
    requires
        double_step(b as nat) <= 0x800,
    ensures
        r == double_step(b as nat),
    decreases b,
{
    if b < 0x20_0000_0000_0000 {
        1
    } else {
        2 * step_upto(b / 2)
    }
}

fn nearest_double(b: u64) -> (r: u128)
    ensures
        r == as_double(b as nat),
        r <= 0x1_0000_0000_0000_0800,
{
    let step = step_of(b);
    let q: u128 = round_div(b as u128, step as u128);
    assert(q * step <= b + step) by (nonlinear_arith)
        requires
            step >= 1,
            q <= b / step + 1,
            q >= 0,
            b >= 0,
    ;
    assert(q * step >= 0) by (nonlinear_arith)
        requires
            q >= 0,
            step >= 0,
    ;
    q * step as u128
}

fn with_two_decimals(h: u64) -> (r: String)
    ensures
        r@ == two_decimals(h as nat),
{
    let mut s = dec_text(h / 100);
    s.push_str(".");
    push_digits(&mut s, (h / 10) % 10, 10, false);
    push_digits(&mut s, h % 10, 10, false);
    s
}

/// A size in the largest unit that it reaches.
pub fn format_size(b: u64) -> (r: String)
    ensures
        r@ == size_text(b as nat),
{
    if b >= GB {
        let h: u128 = round_div(nearest_double(b) * 100, GB as u128);
        assert(h <= 0xFFFF_FFFF_FFFF) by (nonlinear_arith)
            requires
                h <= (0x1_0000_0000_0000_0800 * 100) / 0x4000_0000 + 1,
        ;
        concat2(with_two_decimals(h as u64).as_str(), " GB")
    } else if b >= MB {
        let h: u128 = round_div(b as u128 * 100, MB as u128);
        concat2(with_two_decimals(h as u64).as_str(), " MB")
    } else if b >= KB {
        let t: u128 = round_div(b as u128 * 10, KB as u128);
        let u: u64 = t as u64;
        let mut s = dec_text(u / 10);
        s.push_str(".");
        push_digits(&mut s, u % 10, 10, false);
        s.push_str(" KB");
        s
    } else {
        concat2(dec_text(b).as_str(), " B")
    }
}

/// An integer that a double holds is its own nearest double.
pub proof fn law_small_sizes_exact(b: nat)
    requires
        b < 0x20_0000_0000_0000,
    ensures
        as_double(b) == b,
{
    assert(b % 1 == 0 && b / 1 == b);
    assert(double_step(b) == 1);
    assert(rounded(b, 1) == b);
    assert(b * 1 == b) by (nonlinear_arith);
}

} // verus!
