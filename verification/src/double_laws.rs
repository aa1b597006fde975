//! What holds of numbers that come off the wire and go back onto it.
use vstd::arithmetic::div_mod::{
    lemma_fundamental_div_mod, lemma_mod_multiples_basic, lemma_mul_mod_noop_left,
};
use vstd::arithmetic::power2::{
    lemma2_to64, lemma2_to64_rest, lemma_pow2_adds, lemma_pow2_pos, lemma_pow2_strictly_increases,
    lemma_pow2_unfold, pow2,
};
use vstd::prelude::*;

use crate::double::{
    excess, lemma_quotient_digits, nearest, rounded, shift, Double, HIDDEN, SIGN, SPECIAL,
};

verus! {

/// Rounding is off by half a unit at most, and not at all on a multiple.
pub proof fn lemma_nearest(n: nat, unit: nat)
    requires
        unit > 0,
    ensures
        2 * (nearest(n, unit) * unit) <= 2 * n + unit,
        2 * n <= 2 * (nearest(n, unit) * unit) + unit,
        n % unit == 0 ==> nearest(n, unit) * unit == n,
{
    let below = n / unit;
    let rest = n % unit;
    assert(n == below * unit + rest && rest < unit && (below + 1) * unit == below * unit + unit)
        by (nonlinear_arith)
        requires
            unit > 0,
            below == n / unit,
            rest == n % unit,
    ;
}

/// What is left over is a small part of the number.
pub proof fn lemma_excess(n: nat)
    ensures
        pow2(excess(n)) == 1 || pow2(excess(n)) * HIDDEN <= n,
    decreases n,
{
    lemma2_to64();
    if n >= 2 * HIDDEN {
        lemma_excess(n / 2);
        lemma_pow2_unfold(excess(n));
        assert((2 * pow2(excess(n / 2))) * HIDDEN == 2 * (pow2(excess(n / 2)) * HIDDEN))
            by (nonlinear_arith);
    }
}

/// After the doublings there are 53 digits in front of the point.
pub proof fn lemma_shift(n: nat, unit: nat)
    requires
        n > 0,
        unit > 0,
        n < 2 * (HIDDEN * unit),
    ensures
        HIDDEN * unit <= n * pow2(shift(n, unit)) < 2 * (HIDDEN * unit),
    decreases
            if n < HIDDEN * unit {
                HIDDEN * unit - n
            } else {
                0
            },
{
    lemma2_to64();
    if n < HIDDEN * unit {
        let k = shift(2 * n, unit);
        lemma_shift(2 * n, unit);
        lemma_pow2_unfold(k + 1);
        assert(n * (2 * pow2(k)) == (2 * n) * pow2(k)) by (nonlinear_arith);
    } else {
        assert(n * 1 == n) by (nonlinear_arith);
    }
}

/// The parts of the number nearest to a quotient of wire numbers.
pub proof fn lemma_quotient_parts(n: nat, unit: nat)
    requires
        0 < n < 0x1_0000_0000,
        0 < unit <= 1_000_000,
    ensures
        ({
            let k = shift(n, unit);
            let number = Double::quotient(n, unit);
            let digits = nearest(n * pow2(k), unit);
            &&& 20 < k < 86
            &&& 0x10_0000 * unit < pow2(k)
            &&& HIDDEN <= digits < 2 * HIDDEN
            &&& number.bits == (1074 - k) * HIDDEN + digits
            &&& number.bits < SPECIAL * HIDDEN
            &&& number.exponent() == 1075 - k
            &&& number.fraction() == digits - HIDDEN
        }),
{
    reveal(Double::quotient);
    let k = shift(n, unit);
    let weight = pow2(k);
    let scaled = n * weight;
    let digits = nearest(scaled, unit);
    assert(HIDDEN * unit >= HIDDEN) by (nonlinear_arith)
        requires
            unit >= 1,
    ;
    lemma_shift(n, unit);
    lemma_pow2_pos(k);
    assert(n * weight <= 0xffff_ffff * weight) by (nonlinear_arith)
        requires
            n <= 0xffff_ffff,
    ;
    assert(HIDDEN * unit == 0x10_0000_0000_0000 * unit) by (nonlinear_arith)
        requires
            HIDDEN == 0x10_0000_0000_0000,
    ;
    assert(weight <= scaled) by (nonlinear_arith)
        requires
            scaled == n * weight,
            n >= 1,
    ;
    assert(scaled < 0x40_0000_0000_0000_0000_0000) by (nonlinear_arith)
        requires
            HIDDEN == 0x10_0000_0000_0000,
            scaled < 2 * (HIDDEN * unit),
            unit <= 1_000_000,
    ;
    lemma_power_between(k);
    lemma_quotient_digits(scaled, unit);
    lemma_nearest(scaled, unit);
    assert(digits < 2 * HIDDEN) by {
        if digits == 2 * HIDDEN {
            let top = 2 * HIDDEN * unit;
            assert(2 * top <= 2 * scaled + unit) by (nonlinear_arith)
                requires
                    2 * (digits * unit) <= 2 * scaled + unit,
                    digits == 2 * HIDDEN,
                    top == 2 * HIDDEN * unit,
            ;
            lemma_gap(n, unit, k);
        }
    }
}

/// A power of two between two to the 20 and two to the 86 has an exponent between 20 and 86.
proof fn lemma_power_between(k: nat)
    requires
        0x10_0000 < pow2(k) < 0x40_0000_0000_0000_0000_0000,
    ensures
        20 < k < 86,
{
    lemma2_to64();
    lemma2_to64_rest();
    lemma_pow2_adds(64, 22);
    if k > 86 {
        lemma_pow2_strictly_increases(86, k);
    }
    if k < 20 {
        lemma_pow2_strictly_increases(k, 20);
    }
}

/// A multiple of a large power of two keeps its distance from a limit that is one, too.
proof fn lemma_gap(n: nat, unit: nat, k: nat)
    requires
        k > 20,
        n * pow2(k) < 2 * HIDDEN * unit,
    ensures
        n * pow2(k) + 0x20_0000 <= 2 * HIDDEN * unit,
{
    lemma2_to64();
    lemma_pow2_adds(21, (k - 21) as nat);
    let rest = pow2((k - 21) as nat);
    assert(n * (0x20_0000 * rest) == 0x20_0000 * (n * rest)) by (nonlinear_arith);
    assert(2 * HIDDEN * unit == 0x20_0000 * (0x1_0000_0000 * unit)) by (nonlinear_arith)
        requires
            HIDDEN == 0x10_0000_0000_0000,
    ;
}

/// Rounding to 53 digits changes nothing on a multiple of a power of two that covers what is
/// left over.
proof fn lemma_rounded_multiple(n: nat, k: nat)
    requires
        excess(n * pow2(k)) <= k,
    ensures
        rounded(n * pow2(k)) == n * pow2(k),
{
    let e = excess(n * pow2(k));
    let unit = pow2(e);
    let rest = pow2((k - e) as nat);
    lemma_pow2_adds(e, (k - e) as nat);
    lemma_pow2_pos(e);
    assert(n * (unit * rest) == (n * rest) * unit) by (nonlinear_arith);
    assert(((n * rest) * unit) % unit == 0) by (nonlinear_arith)
        requires
            unit > 0,
    ;
    lemma_nearest(n * pow2(k), unit);
}

/// The magnitude of a number that came off the wire as `n / unit`, times `unit` again, is `n` or
/// one less, and is `n` if the quotient has no more than six binary places.
proof fn lemma_magnitude_comes_back(n: nat, unit: nat)
    requires
        0 < n < 0x1_0000_0000,
        0 < unit <= 1_000_000,
    ensures
        Double::quotient(n, unit).magnitude(unit) <= n <= Double::quotient(n, unit).magnitude(unit)
            + 1,
        (64 * n) % unit == 0 ==> Double::quotient(n, unit).magnitude(unit) == n,
{
    lemma_quotient_parts(n, unit);
    let k = shift(n, unit);
    let weight = pow2(k);
    let scaled = n * weight;
    let digits = nearest(scaled, unit);
    let product = digits * unit;
    let e = excess(product);
    let number = Double::quotient(n, unit);
    assert(number.significand() == digits);
    assert(number.power() == -k);
    lemma_pow2_pos(e);
    lemma_pow2_pos(k);
    lemma_nearest(scaled, unit);
    lemma_excess(product);
    lemma_nearest(product, pow2(e));
    assert(pow2(e) <= 2 * unit) by (nonlinear_arith)
        requires
            pow2(e) == 1 || pow2(e) * HIDDEN <= product,
            product == digits * unit,
            digits < 2 * HIDDEN,
            HIDDEN > 0,
            unit > 0,
    ;
    let back = rounded(product);
    assert(number.magnitude(unit) == back / weight);
    assert(scaled <= back + 2 * unit && back <= scaled + 2 * unit);
    assert(back / weight <= n && n <= back / weight + 1) by (nonlinear_arith)
        requires
            scaled == n * weight,
            scaled <= back + 2 * unit,
            back <= scaled + 2 * unit,
            2 * unit < weight,
            n > 0,
    ;
    if (64 * n) % unit == 0 {
        lemma2_to64();
        lemma_pow2_adds(6, (k - 6) as nat);
        let rest = pow2((k - 6) as nat);
        assert(n * (64 * rest) == (64 * n) * rest) by (nonlinear_arith);
        assert(((64 * n) * rest) % unit == 0) by {
            lemma_mul_mod_noop_left((64 * n) as int, rest as int, unit as int);
        }
        assert(product == scaled);
        lemma_exponents(e, k);
        lemma_rounded_multiple(n, k);
        assert(scaled / weight == n) by (nonlinear_arith)
            requires
                scaled == n * weight,
                weight > 0,
        ;
    }
}

/// Of two powers of two the smaller one has the smaller exponent.
proof fn lemma_exponents(e: nat, k: nat)
    requires
        pow2(e) < pow2(k),
    ensures
        e < k,
{
    if k < e {
        lemma_pow2_strictly_increases(k, e);
    }
}

/// An unsigned wire number that counts `unit`-ths comes back from the double-precision number
/// that stands for it as it was, or one less; it comes back as it was if the number has no more
/// than six binary places.
pub proof fn law_unsigned_comes_back(n: u32, unit: nat)
    requires
        0 < unit <= 1_000_000,
    ensures
        ({
            let back = Double::quotient(n as nat, unit).as_unsigned(unit);
            &&& back <= n <= back + 1
            &&& (64 * n) as nat % unit == 0 ==> back == n
        }),
{
    reveal(Double::as_unsigned);
    if n == 0 {
        lemma_zero(unit, unit);
    } else {
        lemma_quotient_parts(n as nat, unit);
        lemma_magnitude_comes_back(n as nat, unit);
        assert(Double::quotient(n as nat, unit).bits < SIGN);
    }
}

/// Zero stays zero.
proof fn lemma_zero(unit: nat, scale: nat)
    ensures
        Double::quotient(0, unit).as_unsigned(scale) == 0,
        Double::signed_quotient(0, unit).as_signed(scale) == 0,
{
    reveal(Double::quotient);
    reveal(Double::signed_quotient);
    reveal(Double::as_unsigned);
    reveal(Double::as_signed);
    let number = Double::quotient(0, unit);
    lemma2_to64();
    lemma_pow2_pos(1074);
    assert(number.significand() == 0);
    assert(number.significand() * scale == 0) by (nonlinear_arith)
        requires
            number.significand() == 0,
    ;
    assert(rounded(0) == 0) by {
        assert(excess(0) == 0);
        lemma_nearest(0, pow2(0));
    }
    assert(0nat / pow2(1074) == 0) by (nonlinear_arith)
        requires
            pow2(1074) > 0,
    ;
}

/// A signed wire number that counts `unit`-ths comes back from the double-precision number that
/// stands for it as it was, or one nearer to zero; it comes back as it was if the number has no
/// more than six binary places.
pub proof fn law_signed_comes_back(n: i32, unit: nat)
    requires
        0 < unit <= 1_000_000,
    ensures
        ({
            let back = Double::signed_quotient(n as int, unit).as_signed(unit);
            &&& n >= 0 ==> 0 <= back <= n <= back + 1
            &&& n <= 0 ==> back - 1 <= n <= back <= 0
            &&& (64 * n) % unit as int == 0 ==> back == n
        }),
{
    reveal(Double::signed_quotient);
    reveal(Double::as_signed);
    let size = if n < 0 {
        (-n) as nat
    } else {
        n as nat
    };
    if n == 0 {
        lemma_zero(unit, unit);
    } else {
        lemma_quotient_parts(size, unit);
        lemma_magnitude_comes_back(size, unit);
        let plain = Double::quotient(size, unit);
        let signed = Double::signed_quotient(n as int, unit);
        assert(SIGN == 2048 * HIDDEN);
        assert(signed.exponent() == plain.exponent());
        assert(signed.fraction() == plain.fraction());
        assert(signed.magnitude(unit) == plain.magnitude(unit));
        if n < 0 && (64 * n) % unit as int == 0 {
            let count = (64 * n) / unit as int;
            lemma_fundamental_div_mod(64 * n, unit as int);
            assert(64 * size == (-count) * unit) by (nonlinear_arith)
                requires
                    64 * n == unit * count,
                    size == -n,
            ;
            lemma_mod_multiples_basic(-count, unit as int);
        }
    }
}

/// A whole number is scaled exactly, as far as the scaled number can travel.
pub proof fn law_whole_number_is_scaled(n: u32, scale: nat)
    requires
        0 < scale <= 10_000,
    ensures
        Double::quotient(n as nat, 1).as_unsigned(scale) == if n * scale > u32::MAX {
            u32::MAX as int
        } else {
            n * scale
        },
{
    reveal(Double::as_unsigned);
    if n == 0 {
        lemma_zero(1, scale);
        assert(0 * scale == 0) by (nonlinear_arith);
    } else {
        lemma_quotient_parts(n as nat, 1);
        let number = Double::quotient(n as nat, 1);
        let k = shift(n as nat, 1);
        let weight = pow2(k);
        let digits = nearest(n as nat * weight, 1);
        assert(digits == n * weight);
        assert(number.significand() == digits);
        assert(number.power() == -k);
        let product = digits * scale;
        assert(product == (n * scale) * weight) by (nonlinear_arith)
            requires
                product == (n * weight) * scale,
        ;
        let e = excess(product);
        lemma_pow2_pos(e);
        lemma_pow2_pos(k);
        lemma_excess(product);
        assert(pow2(e) <= 2 * scale) by (nonlinear_arith)
            requires
                pow2(e) == 1 || pow2(e) * HIDDEN <= product,
                product == digits * scale,
                digits < 2 * HIDDEN,
                HIDDEN > 0,
                scale > 0,
        ;
        lemma_exponents(e, k);
        lemma_rounded_multiple((n * scale) as nat, k);
        assert(((n * scale) * weight) / weight as int == n * scale) by (nonlinear_arith)
            requires
                weight > 0,
        ;
        assert(number.magnitude(scale) == n * scale);
    }
}

} // verus!
