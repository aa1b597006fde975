//! What double-precision numbers stand for: that quotients come as near as such numbers can, and
//! that products are rounded to the nearest one before their fractional part is dropped.
use vstd::arithmetic::power2::{
    lemma2_to64, lemma_pow2_adds, lemma_pow2_pos, lemma_pow2_strictly_increases,
    lemma_pow2_unfold, pow2,
};
use vstd::prelude::*;

use crate::double::{excess, nearest, rounded, shift, Double, HIDDEN};
use crate::double_laws::{lemma_excess, lemma_nearest, lemma_quotient_parts, lemma_shift};

verus! {

/// The size of the finite number that the bits encode, its sign aside, counted in the smallest
/// size that there is: two to the -1074.
pub open spec fn size(bits: u64) -> nat {
    let fraction = bits as nat % 0x10_0000_0000_0000;
    let exponent = (bits as nat / 0x10_0000_0000_0000) % 2048;
    if exponent == 0 {
        fraction
    } else {
        (0x10_0000_0000_0000 + fraction) * pow2((exponent - 1) as nat)
    }
}

/// Whether the bits encode a finite number without the sign.
pub open spec fn is_plain(bits: u64) -> bool {
    bits < 0x7ff0_0000_0000_0000
}

/// How far apart two numbers are.
pub open spec fn distance(a: int, b: int) -> int {
    if a <= b {
        b - a
    } else {
        a - b
    }
}

/// Rounding to the nearest is rounding to the nearest: nothing else is nearer, and what is as near
/// only if the nearest is even.
proof fn lemma_nothing_nearer(n: nat, unit: nat, other: nat)
    requires
        unit > 0,
    ensures
        distance(nearest(n, unit) * unit as int, n as int) <= distance(
            other * unit as int,
            n as int,
        ),
        other != nearest(n, unit) && distance(nearest(n, unit) * unit as int, n as int)
            == distance(other * unit as int, n as int) ==> nearest(n, unit) % 2 == 0,
{
    let below = n / unit;
    let rest = n % unit;
    assert(n == below * unit + rest && rest < unit) by (nonlinear_arith)
        requires
            unit > 0,
            below == n / unit,
            rest == n % unit,
    ;
    assert((below + 1) * unit == below * unit + unit) by (nonlinear_arith);
    if other < below {
        assert(other * unit + unit <= below * unit) by (nonlinear_arith)
            requires
                other + 1 <= below,
        ;
    } else if other > below + 1 {
        assert(other * unit >= (below + 1) * unit + unit) by (nonlinear_arith)
            requires
                other >= below + 2,
        ;
    }
}

/// The size of a quotient of wire numbers.
proof fn lemma_quotient_size(n: nat, unit: nat)
    requires
        0 < n < 0x1_0000_0000,
        0 < unit <= 1_000_000,
    ensures
        ({
            let k = shift(n, unit);
            let number = Double::quotient(n, unit);
            &&& 20 < k < 86
            &&& is_plain(number.bits)
            &&& size(number.bits) == nearest(n * pow2(k), unit) * pow2((1074 - k) as nat)
            &&& number.bits % 2 == nearest(n * pow2(k), unit) % 2
        }),
{
    lemma_quotient_parts(n, unit);
}

/// A number with 53 digits at most that is no smaller than 2^52 units is a multiple of the unit.
proof fn lemma_is_multiple(bits: u64, b: nat) -> (count: nat)
    requires
        is_plain(bits),
        size(bits) >= 0x10_0000_0000_0000 * pow2(b),
    ensures
        size(bits) == count * pow2(b),
{
    let fraction = bits as nat % 0x10_0000_0000_0000;
    let exponent = (bits as nat / 0x10_0000_0000_0000) % 2048;
    lemma_pow2_pos(b);
    if exponent == 0 {
        assert(0x10_0000_0000_0000 * pow2(b) >= 0x10_0000_0000_0000) by (nonlinear_arith)
            requires
                pow2(b) >= 1,
        ;
        0
    } else {
        let digits = (0x10_0000_0000_0000 + fraction) as nat;
        let p = (exponent - 1) as nat;
        if p < b {
            lemma_pow2_unfold(b);
            lemma_pow2_pos(p);
            if p < b - 1 {
                lemma_pow2_strictly_increases(p, (b - 1) as nat);
            }
            let half = pow2((b - 1) as nat);
            assert(digits * pow2(p) < 0x20_0000_0000_0000 * half) by (nonlinear_arith)
                requires
                    digits < 0x20_0000_0000_0000,
                    0 < pow2(p) <= half,
            ;
            0
        } else {
            lemma_pow2_adds(b, (p - b) as nat);
            let rest = pow2((p - b) as nat);
            assert(digits * (pow2(b) * rest) == (digits * rest) * pow2(b)) by (nonlinear_arith);
            digits * rest
        }
    }
}

/// The number that stands for `n / unit` is the nearest one that there is: no other finite number
/// is nearer to the quotient, and if another one is as near, the last bit of this one is zero.
pub proof fn law_quotient_is_nearest(n: nat, unit: nat, other: u64)
    requires
        n < 0x1_0000_0000,
        0 < unit <= 1_000_000,
        is_plain(other),
    ensures
        ({
            let bits = Double::quotient(n, unit).bits;
            let exact = n * pow2(1074);
            &&& is_plain(bits)
            &&& distance(size(bits) * unit as int, exact as int) <= distance(
                size(other) * unit as int,
                exact as int,
            )
            &&& size(other) != size(bits) && distance(size(bits) * unit as int, exact as int)
                == distance(size(other) * unit as int, exact as int) ==> bits % 2 == 0
        }),
{
    let bits = Double::quotient(n, unit).bits;
    let exact = n * pow2(1074);
    if n == 0 {
        reveal(Double::quotient);
        assert(exact == 0) by (nonlinear_arith)
            requires
                exact == n * pow2(1074),
                n == 0,
        ;
        assert(size(bits) == 0);
        assert(size(bits) * unit == 0) by (nonlinear_arith)
            requires
                size(bits) == 0,
        ;
        assert(size(other) * unit >= size(other)) by (nonlinear_arith)
            requires
                unit >= 1,
        ;
    } else {
        lemma_quotient_parts(n, unit);
        lemma_quotient_size(n, unit);
        let k = shift(n, unit);
        let b = (1074 - k) as nat;
        let step = pow2(b);
        let scaled = n * pow2(k);
        let digits = nearest(scaled, unit);
        lemma_pow2_adds(k, b);
        lemma_pow2_pos(b);
        assert(n * (pow2(k) * step) == scaled * step) by (nonlinear_arith)
            requires
                scaled == n * pow2(k),
        ;
        assert((digits * step) * unit == (digits * unit) * step) by (nonlinear_arith);
        let gap = distance(digits * unit as int, scaled as int);
        lemma_scaled_distance((digits * unit) as int, scaled as int, step);
        assert(k + b == 1074);
        assert(exact == scaled * step);
        assert(size(bits) * unit == (digits * unit) * step);
        assert(distance(size(bits) * unit as int, exact as int) == gap * step);
        if size(other) >= 0x10_0000_0000_0000 * step {
            let count = lemma_is_multiple(other, b);
            lemma_nothing_nearer(scaled, unit, count);
            assert((count * step) * unit == (count * unit) * step) by (nonlinear_arith);
            lemma_scaled_distance((count * unit) as int, scaled as int, step);
            let away = distance(count * unit as int, scaled as int);
            assert(size(other) * unit == (count * unit) * step);
            assert(distance(size(other) * unit as int, exact as int) == away * step);
            assert(gap * step <= away * step) by (nonlinear_arith)
                requires
                    gap <= away,
            ;
            if gap < away {
                assert(gap * step < away * step) by (nonlinear_arith)
                    requires
                        gap < away,
                        step > 0,
                ;
            }
        } else {
            lemma_shift(n, unit);
            lemma_nothing_nearer(scaled, unit, 0x10_0000_0000_0000);
            let near = 0x10_0000_0000_0000 * unit;
            assert(near <= scaled);
            assert(size(other) * unit + unit <= (0x10_0000_0000_0000 * step) * unit)
                by (nonlinear_arith)
                requires
                    size(other) + 1 <= 0x10_0000_0000_0000 * step,
            ;
            assert((0x10_0000_0000_0000 * step) * unit == near * step) by (nonlinear_arith)
                requires
                    near == 0x10_0000_0000_0000 * unit,
            ;
            lemma_scaled_distance(near as int, scaled as int, step);
            let away = distance(near as int, scaled as int);
            assert(near * step <= scaled * step) by (nonlinear_arith)
                requires
                    near <= scaled,
            ;
            assert(gap * step <= away * step) by (nonlinear_arith)
                requires
                    gap <= away,
            ;
        }
    }
}

proof fn lemma_scaled_distance(a: int, b: int, step: nat)
    ensures
        distance(a * step, b * step) == distance(a, b) * step,
{
    if a <= b {
        assert((b - a) * step == b * step - a * step) by (nonlinear_arith);
        assert(a * step <= b * step) by (nonlinear_arith)
            requires
                a <= b,
        ;
    } else {
        assert((a - b) * step == a * step - b * step) by (nonlinear_arith);
        assert(b * step <= a * step) by (nonlinear_arith)
            requires
                b <= a,
        ;
    }
}

/// A negative quotient is the positive one with the sign.
pub proof fn law_negative_quotient_has_the_sign(n: int, unit: nat)
    requires
        -0x8000_0000 <= n < 0x8000_0000,
        0 < unit <= 1_000_000,
    ensures
        n >= 0 ==> Double::signed_quotient(n, unit) == Double::quotient(n as nat, unit),
        n < 0 ==> Double::signed_quotient(n, unit).bits == 0x8000_0000_0000_0000
            + Double::quotient((-n) as nat, unit).bits,
{
    reveal(Double::signed_quotient);
    if n < 0 {
        lemma_quotient_size((-n) as nat, unit);
    }
}

/// A number rounds to an even count of units or more exactly if it is no further below that count
/// than half a unit.
proof fn lemma_nearest_reaches(n: nat, unit: nat, count: nat)
    requires
        unit > 0,
        count > 0,
        count % 2 == 0,
    ensures
        nearest(n, unit) >= count <==> 2 * n >= (2 * count - 1) * unit,
{
    let below = n / unit;
    let rest = n % unit;
    assert(n == below * unit + rest && rest < unit) by (nonlinear_arith)
        requires
            unit > 0,
            below == n / unit,
            rest == n % unit,
    ;
    assert((2 * count - 1) * unit == 2 * (count * unit) - unit) by (nonlinear_arith);
    if below >= count {
        assert(below * unit >= count * unit) by (nonlinear_arith)
            requires
                below >= count,
        ;
    } else if below == count - 1 {
        assert(below * unit == count * unit - unit) by (nonlinear_arith)
            requires
                below == count - 1,
        ;
    } else {
        assert(below * unit + 2 * unit <= count * unit) by (nonlinear_arith)
            requires
                below + 2 <= count,
        ;
    }
}

/// What is left over leaves 53 digits.
proof fn lemma_excess_above(n: nat)
    ensures
        n < 0x20_0000_0000_0000 * pow2(excess(n)),
        excess(n) > 0 ==> 0x10_0000_0000_0000 * pow2(excess(n)) <= n,
    decreases n,
{
    lemma2_to64();
    if n >= 2 * HIDDEN {
        lemma_excess_above(n / 2);
        lemma_pow2_unfold(excess(n));
        lemma_excess(n / 2);
        assert(0x10_0000_0000_0000 * pow2(excess(n / 2)) == pow2(excess(n / 2)) * HIDDEN)
            by (nonlinear_arith)
            requires
                HIDDEN == 0x10_0000_0000_0000,
        ;
    }
}

/// A product in units of `pow2(a)` rounds to `count` times `pow2(b)` or more exactly if it is no
/// further below than half of `pow2(b)`, where `count` has 53 digits and is even, or is the
/// smallest with 54.
proof fn lemma_rounded_reaches(product: nat, a: nat, b: nat, count: nat)
    requires
        0x10_0000_0000_0000 < count <= 0x20_0000_0000_0000,
        count % 2 == 0,
    ensures
        rounded(product) * pow2(a) >= count * pow2(b) <==> 2 * (product * pow2(a)) >= (2 * count
            - 1) * pow2(b),
{
    let e = excess(product);
    let unit = pow2(e);
    let w = pow2(a);
    let g = pow2(b);
    let digits = nearest(product, unit);
    lemma_pow2_pos(e);
    lemma_pow2_pos(a);
    lemma_pow2_pos(b);
    lemma_excess_above(product);
    lemma_nearest(product, unit);
    lemma_pow2_adds(e, a);
    let v = pow2(e + a);
    assert((digits * unit) * w == digits * (unit * w)) by (nonlinear_arith);
    assert(rounded(product) * w == digits * v);
    assert((2 * count - 1) * g == 2 * (count * g) - g) by (nonlinear_arith);
    // The rounded digits stay within 53, or are the smallest number with 54.
    lemma_nearest_reaches(product, unit, 0x10_0000_0000_0000);
    lemma_nearest_reaches(product, unit, 0x20_0000_0000_0002);
    if e + a < b {
        lemma_pow2_unfold(b);
        if e + a < b - 1 {
            lemma_pow2_strictly_increases(e + a, (b - 1) as nat);
        }
        assert(2 * v <= g);
        assert(2 * product < (2 * 0x20_0000_0000_0002 - 1) * unit) by (nonlinear_arith)
            requires
                product < 0x20_0000_0000_0000 * unit,
                unit > 0,
        ;
        assert(digits <= 0x20_0000_0000_0001);
        assert(product * w < (0x20_0000_0000_0000 * unit) * w) by (nonlinear_arith)
            requires
                product < 0x20_0000_0000_0000 * unit,
                w > 0,
        ;
        assert((0x20_0000_0000_0000 * unit) * w == 0x20_0000_0000_0000 * v) by (nonlinear_arith)
            requires
                v == unit * w,
        ;
        assert(count * g >= 0x10_0000_0000_0001 * g) by (nonlinear_arith)
            requires
                count >= 0x10_0000_0000_0001,
        ;
        assert(digits * v <= 0x20_0000_0000_0001 * v) by (nonlinear_arith)
            requires
                digits <= 0x20_0000_0000_0001,
        ;
    } else if e + a == b {
        lemma_nearest_reaches(product, unit, count);
        assert(digits * v >= count * v <==> digits >= count) by (nonlinear_arith)
            requires
                v > 0,
        ;
        assert(2 * product >= (2 * count - 1) * unit <==> (2 * product) * w >= ((2 * count - 1)
            * unit) * w) by (nonlinear_arith)
            requires
                w > 0,
        ;
        assert(((2 * count - 1) * unit) * w == (2 * count - 1) * v) by (nonlinear_arith)
            requires
                v == unit * w,
        ;
        assert((2 * product) * w == 2 * (product * w)) by (nonlinear_arith);
    } else {
        lemma_pow2_adds(b, (e + a - b) as nat);
        let ratio = pow2((e + a - b) as nat);
        lemma_pow2_unfold((e + a - b) as nat);
        lemma_pow2_pos((e + a - b - 1) as nat);
        assert(ratio >= 2);
        assert(v == g * ratio);
        if e > 0 {
            assert(product * w >= (0x10_0000_0000_0000 * unit) * w) by (nonlinear_arith)
                requires
                    product >= 0x10_0000_0000_0000 * unit,
            ;
            assert((0x10_0000_0000_0000 * unit) * w == 0x10_0000_0000_0000 * v)
                by (nonlinear_arith)
                requires
                    v == unit * w,
            ;
            assert(v >= 2 * g) by (nonlinear_arith)
                requires
                    v == g * ratio,
                    ratio >= 2,
            ;
            assert(count * g <= 0x20_0000_0000_0000 * g) by (nonlinear_arith)
                requires
                    count <= 0x20_0000_0000_0000,
            ;
            assert(2 * product >= (2 * 0x10_0000_0000_0000 - 1) * unit) by (nonlinear_arith)
                requires
                    product >= 0x10_0000_0000_0000 * unit,
            ;
            assert(digits >= 0x10_0000_0000_0000);
            assert(digits * v >= 0x10_0000_0000_0000 * v) by (nonlinear_arith)
                requires
                    digits >= 0x10_0000_0000_0000,
            ;
        } else {
            lemma2_to64();
            assert(unit == 1);
            assert(product % unit == 0 && digits * unit == digits) by (nonlinear_arith)
                requires
                    unit == 1,
            ;
            assert(digits == product);
            let times = product * ratio;
            assert(product * v == times * g) by (nonlinear_arith)
                requires
                    v == g * ratio,
                    times == product * ratio,
            ;
            assert(v == w);
            assert(times * g >= count * g <==> 2 * (times * g) >= 2 * (count * g) - g)
                by (nonlinear_arith)
                requires
                    g > 0,
            ;
        }
    }
}

/// The sizes of a whole number and of the number right below it.
proof fn lemma_whole_number_sizes(j: nat) -> (parts: (nat, nat))
    requires
        0 < j < 0x1_0000_0000,
    ensures
        ({
            let (count, b) = parts;
            let bits = Double::quotient(j, 1).bits;
            &&& 0x10_0000_0000_0000 < count <= 0x20_0000_0000_0000
            &&& count % 2 == 0
            &&& bits > 0
            &&& j * pow2(1074) == count * pow2(b)
            &&& size(bits) == count * pow2(b)
            &&& size((bits - 1) as u64) == (count - 1) * pow2(b)
        }),
{
    lemma_quotient_parts(j, 1);
    lemma_quotient_size(j, 1);
    let k = shift(j, 1);
    let b = (1074 - k) as nat;
    let bits = Double::quotient(j, 1).bits;
    let digits = j * pow2(k);
    lemma_nearest(digits, 1);
    assert(nearest(digits, 1) == digits);
    lemma_pow2_adds(k, b);
    assert(k + b == 1074);
    assert(j * (pow2(k) * pow2(b)) == digits * pow2(b)) by (nonlinear_arith)
        requires
            digits == j * pow2(k),
    ;
    lemma_pow2_unfold(k);
    let half = pow2((k - 1) as nat);
    assert(digits % 2 == 0) by {
        assert(digits == 2 * (j * half)) by (nonlinear_arith)
            requires
                digits == j * (2 * half),
        ;
    }
    let below = (bits - 1) as u64;
    if digits > 0x10_0000_0000_0000 {
        assert(below as nat % 0x10_0000_0000_0000 == digits - 1 - 0x10_0000_0000_0000);
        assert((below as nat / 0x10_0000_0000_0000) % 2048 == 1075 - k);
        (digits, b)
    } else {
        lemma_pow2_unfold(b);
        let c = (b - 1) as nat;
        assert(below as nat % 0x10_0000_0000_0000 == 0xf_ffff_ffff_ffff);
        assert((below as nat / 0x10_0000_0000_0000) % 2048 == 1074 - k);
        assert(digits * pow2(b) == 0x20_0000_0000_0000 * pow2(c)) by (nonlinear_arith)
            requires
                digits == 0x10_0000_0000_0000,
                pow2(b) == 2 * pow2(c),
        ;
        (0x20_0000_0000_0000, c)
    }
}

/// The magnitude of a product reaches a whole number exactly if the product is nearer to it than to
/// the double-precision number right below it, or as near.
proof fn lemma_magnitude_reaches(number: Double, scale: nat, j: nat)
    requires
        number.exponent() < 2047,
        0 < j < 0x1_0000_0000,
    ensures
        ({
            let bits = Double::quotient(j, 1).bits;
            let own = number.significand() * pow2((number.power() + 1074) as nat);
            number.magnitude(scale) >= j <==> 2 * (own * scale) >= size(bits) + size(
                (bits - 1) as u64,
            )
        }),
{
    let (count, b) = lemma_whole_number_sizes(j);
    let power = number.power();
    let a = (power + 1074) as nat;
    let product = number.significand() * scale;
    let digits = rounded(product);
    lemma_rounded_reaches(product, a, b, count);
    assert(count * pow2(b) + (count - 1) * pow2(b) == (2 * count - 1) * pow2(b))
        by (nonlinear_arith);
    assert((number.significand() * pow2(a)) * scale == product * pow2(a)) by (nonlinear_arith)
        requires
            product == number.significand() * scale,
    ;
    // Dropping the fractional part does not cross a whole number.
    lemma_pow2_pos(1074);
    if power >= 0 {
        lemma_pow2_adds(power as nat, 1074);
        let w = pow2(power as nat);
        let one = pow2(1074);
        assert(digits * (w * one) >= j * one <==> digits * w >= j) by (nonlinear_arith)
            requires
                one > 0,
        ;
    } else {
        let m = (-power) as nat;
        lemma_pow2_adds(m, a);
        assert(m + a == 1074);
        let w = pow2(a);
        let part = pow2(m);
        lemma_pow2_pos(a);
        lemma_pow2_pos(m);
        assert(digits * w >= j * (part * w) <==> digits >= j * part) by (nonlinear_arith)
            requires
                w > 0,
        ;
        assert(digits / part >= j <==> digits >= j * part) by (nonlinear_arith)
            requires
                part > 0,
        ;
    }
}

/// A finite number has its size in its digits and its power.
proof fn lemma_size(number: Double)
    requires
        number.exponent() < 2047,
    ensures
        size(number.bits) == number.significand() * pow2((number.power() + 1074) as nat),
{
    lemma2_to64();
    if number.exponent() == 0 {
        assert(number.fraction() * 1 == number.fraction()) by (nonlinear_arith);
    }
}

/// The unsigned wire number for a finite number without the sign, times `scale`, is the whole part
/// of the double-precision number nearest to the product: it reaches `j` exactly if the product is
/// nearer to `j` than to the number right below `j`, or as near.
pub proof fn law_product_is_rounded_and_cut(number: Double, scale: nat, j: u32)
    requires
        is_plain(number.bits),
        j > 0,
    ensures
        ({
            let whole_bits = Double::quotient(j as nat, 1).bits;
            &&& size(whole_bits) == j * pow2(1074)
            &&& number.as_unsigned(scale) >= j <==> 2 * (size(number.bits) * scale) >= size(
                whole_bits,
            ) + size((whole_bits - 1) as u64)
        }),
{
    reveal(Double::as_unsigned);
    assert(number.exponent() < 2047);
    let (count, b) = lemma_whole_number_sizes(j as nat);
    lemma_size(number);
    lemma_magnitude_reaches(number, scale, j as nat);
}

/// The signed wire number for a finite number is the same, with the sign of the number.
pub proof fn law_signed_product_is_rounded_and_cut(number: Double, scale: nat, j: u32)
    requires
        is_plain((number.bits % 0x8000_0000_0000_0000) as u64),
        0 < j <= 0x8000_0000,
    ensures
        ({
            let whole_bits = Double::quotient(j as nat, 1).bits;
            let reached = 2 * (size((number.bits % 0x8000_0000_0000_0000) as u64) * scale) >= size(
                whole_bits,
            ) + size((whole_bits - 1) as u64);
            &&& number.bits < 0x8000_0000_0000_0000 ==> number.as_signed(scale) >= 0 && (j
                < 0x8000_0000 ==> (number.as_signed(scale) >= j <==> reached))
            &&& number.bits >= 0x8000_0000_0000_0000 ==> number.as_signed(scale) <= 0 && (
            number.as_signed(scale) <= -j <==> reached)
        }),
{
    reveal(Double::as_signed);
    let plain = (number.bits % 0x8000_0000_0000_0000) as u64;
    assert(number.exponent() == (Double { bits: plain }).exponent());
    assert(number.fraction() == (Double { bits: plain }).fraction());
    assert(number.exponent() < 2047);
    lemma_size(Double { bits: plain });
    lemma_magnitude_reaches(number, scale, j as nat);
}

/// What is no number goes out as zero, an infinite number as the last number on its side, and a
/// negative number as zero where there is no sign.
pub proof fn law_odd_numbers_go_out_at_the_ends(number: Double, scale: nat)
    ensures
        0x7ff0_0000_0000_0000 < number.bits % 0x8000_0000_0000_0000 ==> number.as_unsigned(scale)
            == 0 && number.as_signed(scale) == 0,
        number.bits == 0x7ff0_0000_0000_0000 ==> number.as_unsigned(scale) == 0xffff_ffff
            && number.as_signed(scale) == 0x7fff_ffff,
        number.bits == 0xfff0_0000_0000_0000 ==> number.as_signed(scale) == -0x8000_0000,
        number.bits >= 0x8000_0000_0000_0000 ==> number.as_unsigned(scale) == 0,
{
    reveal(Double::as_unsigned);
    reveal(Double::as_signed);
}

} // verus!
