//! Human-readable byte counts.
//!
//! A count is shown in the largest of the units B, KB, MB, GB and TB that leaves it at one or
//! more, rounded to two decimals. The count passes through double precision first: above 2^53 it
//! is rounded to 53 significant bits before the unit is taken out. Both roundings take ties to
//! the even neighbour.
use crate::text::{decimal, to_decimal};
use vstd::prelude::*;

verus! {

/// The integer nearest to `num / den`; of two that are equally near, the even one.
pub open spec fn round_half_even(num: nat, den: nat) -> nat {
    let q = num / den;
    let r = num % den;
    if 2 * r < den || (2 * r == den && q % 2 == 0) {
        q
    } else {
        q + 1
    }
}

/// The distance between neighbouring double-precision numbers around `n`, where that is at
/// least one.
pub open spec fn grain(n: nat) -> nat
    decreases n,
{
    if n < 0x20_0000_0000_0000 {
        1
    } else {
        2 * grain(n / 2)
    }
}

/// The double-precision number nearest to `n`.
pub open spec fn nearest_double(n: nat) -> nat {
    round_half_even(n, grain(n)) * grain(n)
}

/// The size of the unit in which `bytes` is shown.
pub open spec fn unit_size(bytes: nat) -> nat {
    if bytes < 0x400 {
        1
    } else if bytes < 0x10_0000 {
        0x400
    } else if bytes < 0x4000_0000 {
        0x10_0000
    } else if bytes < 0x100_0000_0000 {
        0x4000_0000
    } else {
        0x100_0000_0000
    }
}

/// The name of the unit in which `bytes` is shown.
pub open spec fn unit_name(bytes: nat) -> Seq<char> {
    if bytes < 0x400 {
        "B"@
    } else if bytes < 0x10_0000 {
        "KB"@
    } else if bytes < 0x4000_0000 {
        "MB"@
    } else if bytes < 0x100_0000_0000 {
        "GB"@
    } else {
        "TB"@
    }
}

/// How many hundredths of its unit are shown for `bytes`.
pub open spec fn hundredths(bytes: nat) -> nat {
    round_half_even(100 * nearest_double(bytes), unit_size(bytes))
}

/// A number of hundredths, written with two decimals.
pub open spec fn two_decimals(h: nat) -> Seq<char> {
    decimal(h / 100) + "."@ + decimal(h / 10 % 10) + decimal(h % 10)
}

/// The text shown for `bytes`.
pub open spec fn size_text(bytes: nat) -> Seq<char> {
    two_decimals(hundredths(bytes)) + " "@ + unit_name(bytes)
}

fn grain_of(n: u64) -> (g: u64)
    ensures
        g == grain(n as nat),
        g > 0,
        n < 0x20_0000_0000_0000 ==> g == 1,
        n >= 0x20_0000_0000_0000 ==> g * 0x10_0000_0000_0000 <= n,
    decreases n,
{
    if n < 0x20_0000_0000_0000 {
        1
    } else {
        2 * grain_of(n / 2)
    }
}

fn rounded(num: u128, den: u128) -> (q: u128)
    requires
        0 < den < 0x1_0000_0000_0000_0000,
        num < 0x100_0000_0000_0000_0000,
    ensures
        q == round_half_even(num as nat, den as nat),
        q <= num + 1,
{
    let q: u128 = num / den;
    let r: u128 = num % den;
    proof {
        assert(num / den <= num) by (nonlinear_arith)
            requires
                den > 0,
        ;
    }
    if 2 * r < den || (2 * r == den && q % 2 == 0) {
        q
    } else {
        q + 1
    }
}

/// The error of rounding to the nearest integer is at most one half.
pub proof fn rounding_error(num: nat, den: nat)
    requires
        den > 0,
    ensures
        2 * (round_half_even(num, den) * den) <= 2 * num + den,
        2 * num <= 2 * (round_half_even(num, den) * den) + den,
{
    let q = num / den;
    let r = num % den;
    vstd::arithmetic::div_mod::lemma_fundamental_div_mod(num as int, den as int);
    assert(q * den == den * q) by (nonlinear_arith);
    assert((q + 1) * den == q * den + den) by (nonlinear_arith);
}

/// Shows a byte count in the unit that suits it.
pub fn format_size(bytes: u64) -> (s: String)
    ensures
        s@ == size_text(bytes as nat),
{
    let g: u64 = grain_of(bytes);
    let steps: u128 = rounded(bytes as u128, g as u128);
    proof {
        rounding_error(bytes as nat, g as nat);
        assert(steps * g == nearest_double(bytes as nat));
    }
    let whole: u128 = steps * (g as u128);
    let (unit, name): (u128, &str) = if bytes < 0x400 {
        (1, "B")
    } else if bytes < 0x10_0000 {
        (0x400, "KB")
    } else if bytes < 0x4000_0000 {
        (0x10_0000, "MB")
    } else if bytes < 0x100_0000_0000 {
        (0x4000_0000, "GB")
    } else {
        (0x100_0000_0000, "TB")
    };
    let h: u128 = rounded(100 * whole, unit);
    proof {
        rounding_error((100 * whole) as nat, unit as nat);
        if bytes < 0x400 {
            assert(h <= 0x2_0000) by (nonlinear_arith)
                requires
                    2 * (h * unit) <= 200 * whole + unit,
                    unit == 1,
                    whole < 0x400;
        }
    }
    let mut s = to_decimal((h / 100) as u64);
    s.append(".");
    s.append(to_decimal((h / 10 % 10) as u64).as_str());
    s.append(to_decimal((h % 10) as u64).as_str());
    s.append(" ");
    s.append(name);
    s
}

proof fn double_is_exact(n: nat)
    requires
        n < 0x20_0000_0000_0000,
    ensures
        nearest_double(n) == n,
{
    assert(grain(n) == 1);
    assert(round_half_even(n, 1) == n);
}

/// Up to 2^53 the number shown is the true one, rounded to the nearest hundredth: it is off by at
/// most half a hundredth of the unit.
pub proof fn shown_size_is_nearest(bytes: nat)
    requires
        bytes <= 0x20_0000_0000_0000,
    ensures
        nearest_double(bytes) == bytes,
        2 * (hundredths(bytes) * unit_size(bytes)) <= 200 * bytes + unit_size(bytes),
        200 * bytes <= 2 * (hundredths(bytes) * unit_size(bytes)) + unit_size(bytes),
{
    if bytes == 0x20_0000_0000_0000 {
        assert(grain(bytes / 2) == 1);
        assert(round_half_even(bytes, 2) == 0x10_0000_0000_0000);
        assert(grain(bytes) == 2);
    } else {
        double_is_exact(bytes);
    }
    rounding_error(100 * nearest_double(bytes), unit_size(bytes));
}

/// A count below one kilobyte is shown exactly.
pub proof fn small_size_is_exact(bytes: nat)
    requires
        bytes < 0x400,
    ensures
        size_text(bytes) == decimal(bytes) + ".00 B"@,
{
    double_is_exact(bytes);
    assert(round_half_even(100 * bytes, 1) == 100 * bytes);
    reveal_strlit(".");
    reveal_strlit(" ");
    reveal_strlit("B");
    reveal_strlit(".00 B");
    assert(size_text(bytes) =~= decimal(bytes) + ".00 B"@);
}

proof fn rounding_keeps_the_order(a: nat, b: nat, den: nat)
    requires
        a <= b,
        den > 0,
    ensures
        round_half_even(a, den) <= round_half_even(b, den),
{
    vstd::arithmetic::div_mod::lemma_fundamental_div_mod(a as int, den as int);
    vstd::arithmetic::div_mod::lemma_fundamental_div_mod(b as int, den as int);
    vstd::arithmetic::div_mod::lemma_div_is_ordered(a as int, b as int, den as int);
}

proof fn grain_bounds(n: nat)
    ensures
        grain(n) > 0,
        n < grain(n) * 0x20_0000_0000_0000,
        n >= 0x20_0000_0000_0000 ==> grain(n) >= 2 && n >= grain(n) * 0x10_0000_0000_0000,
    decreases n,
{
    if n >= 0x20_0000_0000_0000 {
        grain_bounds(n / 2);
    }
}

proof fn grain_grows_by_doubling(a: nat, b: nat)
    requires
        a <= b,
    ensures
        grain(a) == grain(b) || 2 * grain(a) <= grain(b),
    decreases b,
{
    if b >= 0x20_0000_0000_0000 {
        if a >= 0x20_0000_0000_0000 {
            grain_grows_by_doubling(a / 2, b / 2);
        } else {
            grain_bounds(b);
        }
    }
}

proof fn doubles_keep_the_order(a: nat, b: nat)
    requires
        a <= b,
    ensures
        nearest_double(a) <= nearest_double(b),
{
    let (g, h) = (grain(a), grain(b));
    let (p, q) = (round_half_even(a, g), round_half_even(b, h));
    grain_bounds(a);
    grain_bounds(b);
    grain_grows_by_doubling(a, b);
    if g == h {
        rounding_keeps_the_order(a, b, g);
        assert(p * g <= q * h) by (nonlinear_arith)
            requires
                p <= q,
                g == h,
        ;
    } else {
        // Rounding takes neither of the two past the power of two between them.
        let (low, high) = (0x20_0000_0000_0000nat, 0x10_0000_0000_0000nat);
        rounding_keeps_the_order(a, g * low, g);
        exact_quotient(low, g);
        rounding_keeps_the_order(h * high, b, h);
        exact_quotient(high, h);
        assert(p * g <= low * g) by (nonlinear_arith)
            requires
                p <= low,
        ;
        assert(high * h <= q * h) by (nonlinear_arith)
            requires
                high <= q,
        ;
    }
}

proof fn exact_quotient(n: nat, den: nat)
    requires
        den > 0,
    ensures
        round_half_even(den * n, den) == n,
{
    vstd::arithmetic::div_mod::lemma_div_multiples_vanish(n as int, den as int);
    vstd::arithmetic::div_mod::lemma_mod_multiples_basic(n as int, den as int);
    assert(den * n == n * den) by (nonlinear_arith);
}

/// A larger count is never shown in a smaller unit, nor as a smaller number of the same unit.
pub proof fn sizes_keep_their_order(a: nat, b: nat)
    requires
        a <= b,
    ensures
        unit_size(a) <= unit_size(b),
        unit_size(a) == unit_size(b) ==> hundredths(a) <= hundredths(b) && unit_name(a) == unit_name(
            b,
        ),
{
    doubles_keep_the_order(a, b);
    rounding_keeps_the_order(100 * nearest_double(a), 100 * nearest_double(b), unit_size(a));
}

/// The unit is the largest that leaves at least one of it: a byte, or a power of 1024 up to the
/// fourth, and it is named accordingly.
pub proof fn unit_is_the_largest_that_fits(bytes: nat)
    ensures
        unit_size(bytes) <= bytes || unit_size(bytes) == 1,
        bytes < 1024 * unit_size(bytes) || unit_size(bytes) == 1024 * 1024 * 1024 * 1024,
        ({
            let (u, name) = (unit_size(bytes), unit_name(bytes));
            ||| u == 1 && name == "B"@
            ||| u == 1024 && name == "KB"@
            ||| u == 1024 * 1024 && name == "MB"@
            ||| u == 1024 * 1024 * 1024 && name == "GB"@
            ||| u == 1024 * 1024 * 1024 * 1024 && name == "TB"@
        }),
{
}

/// Rounding gives the nearest integer, and of two that are equally near the even one.
pub proof fn rounding_takes_the_nearest(num: nat, den: nat, q: nat)
    requires
        den > 0,
        2 * num <= 2 * (q * den) + den,
        2 * (q * den) <= 2 * num + den,
        2 * num == 2 * (q * den) + den || 2 * (q * den) == 2 * num + den ==> q % 2 == 0,
    ensures
        round_half_even(num, den) == q,
{
    let r = round_half_even(num, den);
    rounding_error(num, den);
    tie_goes_to_the_even(num, den);
    if r < q {
        assert(q * den >= (r + 1) * den) by (nonlinear_arith)
            requires
                q >= r + 1,
        ;
        assert((r + 1) * den == r * den + den) by (nonlinear_arith);
        if q > r + 1 {
            assert(q * den >= (r + 2) * den) by (nonlinear_arith)
                requires
                    q >= r + 2,
            ;
            assert((r + 2) * den == r * den + 2 * den) by (nonlinear_arith);
        }
    } else if q < r {
        assert(r * den >= (q + 1) * den) by (nonlinear_arith)
            requires
                r >= q + 1,
        ;
        assert((q + 1) * den == q * den + den) by (nonlinear_arith);
        if r > q + 1 {
            assert(r * den >= (q + 2) * den) by (nonlinear_arith)
                requires
                    r >= q + 2,
            ;
            assert((q + 2) * den == q * den + 2 * den) by (nonlinear_arith);
        }
    }
}

proof fn tie_goes_to_the_even(num: nat, den: nat)
    requires
        den > 0,
    ensures
        ({
            let r = round_half_even(num, den);
            2 * num == 2 * (r * den) + den || 2 * (r * den) == 2 * num + den ==> r % 2 == 0
        }),
{
    let q = num / den;
    vstd::arithmetic::div_mod::lemma_fundamental_div_mod(num as int, den as int);
    assert(q * den == den * q) by (nonlinear_arith);
    assert((q + 1) * den == q * den + den) by (nonlinear_arith);
}

/// Whether `m` times two to the power of `e` is the double-precision number nearest to `n`: the power
/// is such that `n` holds less than 2^53 of it, and at least 2^52 where it is not one; no multiple
/// of it is nearer; and of two that are equally near it is the even one.
pub open spec fn is_nearest_double(n: nat, e: nat, m: nat) -> bool {
    let g = vstd::arithmetic::power2::pow2(e);
    &&& n < g * 0x20_0000_0000_0000
    &&& g == 1 || n >= g * 0x10_0000_0000_0000
    &&& 2 * n <= 2 * (m * g) + g
    &&& 2 * (m * g) <= 2 * n + g
    &&& 2 * n == 2 * (m * g) + g || 2 * (m * g) == 2 * n + g ==> m % 2 == 0
}

/// Every count has a nearest double-precision number, and that is the one it is taken for.
pub proof fn double_is_the_nearest(n: nat)
    ensures
        exists|e: nat, m: nat| #[trigger]
            is_nearest_double(n, e, m) && nearest_double(n) == m
                * vstd::arithmetic::power2::pow2(e),
{
    let g = grain(n);
    let m = round_half_even(n, g);
    grain_bounds(n);
    rounding_error(n, g);
    tie_goes_to_the_even(n, g);
    let e = grain_is_a_power_of_two(n);
    assert(is_nearest_double(n, e, m));
}

proof fn grain_is_a_power_of_two(n: nat) -> (e: nat)
    ensures
        grain(n) == vstd::arithmetic::power2::pow2(e),
    decreases n,
{
    if n < 0x20_0000_0000_0000 {
        vstd::arithmetic::power2::lemma2_to64();
        0
    } else {
        let e = grain_is_a_power_of_two(n / 2);
        vstd::arithmetic::power2::lemma_pow2_unfold(e + 1);
        e + 1
    }
}

/// What is shown is a number with two decimals and the unit. The number is that of units in the
/// count, taken in double precision and rounded to hundredths; of two hundredths that are equally
/// near the even one.
pub proof fn shown_text_gives_hundredths_of_the_unit(bytes: nat, h: nat)
    requires
        200 * nearest_double(bytes) <= 2 * (h * unit_size(bytes)) + unit_size(bytes),
        2 * (h * unit_size(bytes)) <= 200 * nearest_double(bytes) + unit_size(bytes),
        200 * nearest_double(bytes) == 2 * (h * unit_size(bytes)) + unit_size(bytes) || 2 * (h
            * unit_size(bytes)) == 200 * nearest_double(bytes) + unit_size(bytes) ==> h % 2 == 0,
    ensures
        size_text(bytes) == decimal(h / 100) + "."@ + decimal((h % 100) / 10) + decimal(h % 10) + " "@
            + unit_name(bytes),
{
    rounding_takes_the_nearest(100 * nearest_double(bytes), unit_size(bytes), h);
    assert(h / 10 % 10 == (h % 100) / 10);
}

} // verus!
