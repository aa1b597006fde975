//! Double-precision numbers as bit patterns, and the whole numbers that travel in their place.
use vstd::arithmetic::div_mod::lemma_div_denominator;
use vstd::arithmetic::power2::{
    lemma2_to64, lemma2_to64_rest, lemma_pow2_adds, lemma_pow2_pos, lemma_pow2_strictly_increases,
    lemma_pow2_unfold, pow2,
};
use vstd::prelude::*;

verus! {

/// The weight of the digit that a normal number does not store: two to the 52.
pub const HIDDEN: u64 = 0x10_0000_0000_0000;

/// The bit of the sign.
pub const SIGN: u64 = 0x8000_0000_0000_0000;

/// What the exponent field holds for infinities and for what is not a number.
pub const SPECIAL: u64 = 2047;

/// A double-precision number, as the 64 bits that encode it.
#[derive(Clone, Copy, Debug, PartialEq, Eq)]
pub struct Double {
    pub bits: u64,
}

/// `n / unit`, rounded to the nearest whole number, and halfway to the even one.
pub open spec fn nearest(n: nat, unit: nat) -> nat {
    let below = n / unit;
    let rest = n % unit;
    if 2 * rest < unit || (2 * rest == unit && below % 2 == 0) {
        below
    } else {
        below + 1
    }
}

/// How many binary digits `n` has beyond 53.
pub open spec fn excess(n: nat) -> nat
    decreases n,
{
    if n < 2 * HIDDEN {
        0
    } else {
        1 + excess(n / 2)
    }
}

/// `n`, rounded to 53 binary digits.
pub open spec fn rounded(n: nat) -> nat {
    let unit = pow2(excess(n));
    nearest(n, unit) * unit
}

/// How often `n` has to be doubled until `n / unit` has 53 binary digits in front of the point.
pub open spec fn shift(n: nat, unit: nat) -> nat
    decreases
            if n < HIDDEN * unit {
                HIDDEN * unit - n
            } else {
                0
            },
{
    if n == 0 || n >= HIDDEN * unit {
        0
    } else {
        1 + shift(2 * n, unit)
    }
}

/// The whole part of `n` times two to the `power`.
pub open spec fn whole(n: nat, power: int) -> nat {
    if power >= 0 {
        n * pow2(power as nat)
    } else {
        n / pow2((-power) as nat)
    }
}

impl Double {
    /// The number nearest to `n / unit`.
    #[verifier::opaque]
    pub open spec fn quotient(n: nat, unit: nat) -> Self {
        if n == 0 {
            Double { bits: 0 }
        } else {
            let digits = nearest(n * pow2(shift(n, unit)), unit);
            Double { bits: ((1074 - shift(n, unit)) * HIDDEN + digits) as u64 }
        }
    }

    /// The number nearest to `n / unit`, where `n` has a sign.
    #[verifier::opaque]
    pub open spec fn signed_quotient(n: int, unit: nat) -> Self {
        if n < 0 {
            Double { bits: (SIGN + Double::quotient((-n) as nat, unit).bits) as u64 }
        } else {
            Double::quotient(n as nat, unit)
        }
    }

    /// The exponent field.
    pub open spec fn exponent(self) -> nat {
        (self.bits as nat / HIDDEN as nat) % 2048
    }

    /// The digits that are stored.
    pub open spec fn fraction(self) -> nat {
        self.bits as nat % HIDDEN as nat
    }

    /// Whether the bit of the sign is set.
    pub open spec fn is_negative(self) -> bool {
        self.bits >= SIGN
    }

    /// Whether the bits encode no number.
    pub open spec fn is_nan(self) -> bool {
        self.exponent() == SPECIAL && self.fraction() > 0
    }

    /// Whether the number is infinite.
    pub open spec fn is_infinite(self) -> bool {
        self.exponent() == SPECIAL && self.fraction() == 0
    }

    /// The digits of a finite number, as a whole number.
    pub open spec fn significand(self) -> nat {
        if self.exponent() == 0 {
            self.fraction()
        } else {
            HIDDEN as nat + self.fraction()
        }
    }

    /// The power of two that the digits of a finite number count.
    pub open spec fn power(self) -> int {
        if self.exponent() == 0 {
            -1074
        } else {
            self.exponent() - 1075
        }
    }

    /// The whole part of a finite number that is multiplied by `scale`, without its sign. The
    /// product is rounded to 53 digits before its whole part is taken. (A product too small or
    /// too large for the exponent field has no whole part, or one that no wire number can hold.)
    pub open spec fn magnitude(self, scale: nat) -> nat {
        whole(rounded(self.significand() * scale), self.power())
    }

    /// The number times `scale`, without its fractional part, as near as an unsigned wire number
    /// comes to it.
    #[verifier::opaque]
    pub open spec fn as_unsigned(self, scale: nat) -> u32 {
        if self.is_nan() || self.is_negative() {
            0
        } else if self.is_infinite() || self.magnitude(scale) > u32::MAX {
            u32::MAX
        } else {
            self.magnitude(scale) as u32
        }
    }

    /// The number times `scale`, without its fractional part, as near as a signed wire number
    /// comes to it.
    #[verifier::opaque]
    pub open spec fn as_signed(self, scale: nat) -> i32 {
        if self.is_nan() {
            0
        } else if self.is_negative() {
            if self.is_infinite() || self.magnitude(scale) > i32::MAX {
                i32::MIN
            } else {
                (-self.magnitude(scale)) as i32
            }
        } else if self.is_infinite() || self.magnitude(scale) > i32::MAX {
            i32::MAX
        } else {
            self.magnitude(scale) as i32
        }
    }
}

/// Divides and rounds to the nearest whole number.
fn round_quotient(n: u128, unit: u128) -> (rounded: u128)
    requires
        unit > 0,
        n < 0x1_0000_0000_0000_0000_0000_0000,
        unit < 0x1_0000_0000_0000_0000_0000_0000,
    ensures
        rounded == nearest(n as nat, unit as nat),
{
    let below = n / unit;
    let rest = n % unit;
    assert(below <= n) by (nonlinear_arith)
        requires
            below == n / unit,
            unit > 0,
    ;
    if 2 * rest < unit || (2 * rest == unit && below % 2 == 0) {
        below
    } else {
        below + 1
    }
}

/// Doubling once more.
proof fn lemma_doubled(n: nat, k: nat)
    ensures
        n * pow2(k + 1) == 2 * (n * pow2(k)),
{
    lemma_pow2_unfold(k + 1);
    assert(n * (2 * pow2(k)) == 2 * (n * pow2(k))) by (nonlinear_arith);
}

/// Without a power of two there is nothing to multiply.
proof fn lemma_whole_itself(n: nat)
    ensures
        whole(n, 0) == n,
{
    lemma2_to64();
    assert(n * 1 == n) by (nonlinear_arith);
}

/// A negative power takes a half.
proof fn lemma_whole_halved(n: nat, power: int)
    requires
        power < 0,
    ensures
        whole(n, power) == whole(n / 2, power + 1),
{
    let k = (-power - 1) as nat;
    lemma_pow2_unfold(k + 1);
    lemma_pow2_pos(k);
    lemma_div_denominator(n as int, 2, pow2(k) as int);
    if k == 0 {
        lemma2_to64();
        lemma_whole_itself(n / 2);
    }
}

/// A positive power doubles.
proof fn lemma_whole_doubled(n: nat, power: int)
    requires
        power > 0,
    ensures
        whole(n, power) == whole(2 * n, power - 1),
{
    let k = (power - 1) as nat;
    lemma_doubled(n, k);
    assert((2 * n) * pow2(k) == 2 * (n * pow2(k))) by (nonlinear_arith);
}

/// Rounds to 53 binary digits.
fn round_digits(n: u128) -> (digits: u128)
    requires
        n < 0x40_0000_0000_0000_0000_0000,
    ensures
        digits == rounded(n as nat),
        digits < 0x1_0000_0000_0000_0000_0000_0000,
{
    let mut rest: u128 = n;
    let mut unit: u128 = 1;
    let ghost mut places: nat = 0;
    proof {
        lemma2_to64();
    }
    while rest >= 2 * HIDDEN as u128
        invariant
            n < 0x40_0000_0000_0000_0000_0000,
            unit == pow2(places),
            unit > 0,
            unit * rest <= n,
            rest >= HIDDEN || unit == 1,
            excess(n as nat) == places + excess(rest as nat),
        decreases rest,
    {
        assert(unit * 2 <= 0x40_0000_0000_0000_0000_0000) by (nonlinear_arith)
            requires
                unit * rest <= n,
                n < 0x40_0000_0000_0000_0000_0000,
                rest >= 2,
        ;
        assert((unit * 2) * (rest / 2) <= unit * rest) by (nonlinear_arith);
        proof {
            lemma_pow2_unfold(places + 1);
            places = places + 1;
        }
        rest = rest / 2;
        unit = unit * 2;
    }
    assert(unit <= n || unit == 1) by (nonlinear_arith)
        requires
            unit * rest <= n,
            rest >= 1 || unit == 1,
    ;
    let count = round_quotient(n, unit);
    assert(count * unit <= n + unit) by (nonlinear_arith)
        requires
            count <= n / unit + 1,
            unit > 0,
    ;
    count * unit
}

/// The whole part of `digits` times two to the `power`, but no more than `limit`.
fn whole_part(digits: u128, power: i32, limit: u32) -> (part: u32)
    requires
        -2000 <= power <= 2000,
        digits < 0x1_0000_0000_0000_0000_0000_0000,
    ensures
        part == if whole(digits as nat, power as int) > limit {
            limit as nat
        } else {
            whole(digits as nat, power as int)
        },
{
    let mut rest: u128 = digits;
    let mut places: i32 = power;
    while places < 0
        invariant
            -2000 <= places <= 2000,
            rest < 0x1_0000_0000_0000_0000_0000_0000,
            whole(rest as nat, places as int) == whole(digits as nat, power as int),
        decreases -places,
    {
        proof {
            lemma_whole_halved(rest as nat, places as int);
        }
        rest = rest / 2;
        places = places + 1;
    }
    while places > 0 && rest <= limit as u128
        invariant
            0 <= places <= 2000,
            rest < 0x1_0000_0000_0000_0000_0000_0000,
            whole(rest as nat, places as int) == whole(digits as nat, power as int),
        decreases places,
    {
        proof {
            lemma_whole_doubled(rest as nat, places as int);
        }
        rest = rest * 2;
        places = places - 1;
    }
    proof {
        let weight = pow2(places as nat);
        lemma_pow2_pos(places as nat);
        lemma_whole_itself(rest as nat);
        assert(rest * weight >= rest) by (nonlinear_arith)
            requires
                weight >= 1,
        ;
    }
    if rest > limit as u128 {
        limit
    } else {
        rest as u32
    }
}

/// A power of two below two to the 86 has an exponent below 86.
proof fn lemma_small_power(k: nat)
    requires
        pow2(k) < 0x40_0000_0000_0000_0000_0000,
    ensures
        k < 86,
{
    lemma2_to64();
    lemma2_to64_rest();
    lemma_pow2_adds(64, 22);
    if k > 86 {
        lemma_pow2_strictly_increases(86, k);
    }
}

/// A quotient with 53 digits in front of the point keeps 53 digits when it is rounded, or
/// becomes the smallest number with 54.
pub proof fn lemma_quotient_digits(n: nat, unit: nat)
    requires
        unit > 0,
        HIDDEN * unit <= n < 2 * (HIDDEN * unit),
    ensures
        HIDDEN <= nearest(n, unit) <= 2 * HIDDEN,
{
    let below = n / unit;
    assert(HIDDEN <= below < 2 * HIDDEN) by (nonlinear_arith)
        requires
            unit > 0,
            HIDDEN * unit <= n < 2 * (HIDDEN * unit),
            below == n / unit,
    ;
}

impl Double {
    /// The number nearest to `n / unit`.
    pub fn from_unsigned(n: u32, unit: u32) -> (number: Double)
        requires
            unit > 0,
        ensures
            number == Double::quotient(n as nat, unit as nat),
            number.bits < SIGN,
    {
        reveal(Double::quotient);
        if n == 0 {
            return Double { bits: 0 };
        }
        assert(0 < HIDDEN * unit < 0x10_0000_0000_0000_0000_0000) by (nonlinear_arith)
            requires
                HIDDEN == 0x10_0000_0000_0000,
                0 < unit <= 0xffff_ffff,
        ;
        let least: u128 = HIDDEN as u128 * unit as u128;
        assert(least >= HIDDEN) by (nonlinear_arith)
            requires
                least == HIDDEN * unit,
                unit >= 1,
        ;
        let mut scaled: u128 = n as u128;
        let mut places: u64 = 0;
        proof {
            lemma2_to64();
        }
        while scaled < least
            invariant
                unit > 0,
                least == HIDDEN * unit,
                least < 0x10_0000_0000_0000_0000_0000,
                n > 0,
                0 < scaled < 2 * least,
                scaled == n * pow2(places as nat),
                pow2(places as nat) <= scaled,
                shift(n as nat, unit as nat) == places + shift(scaled as nat, unit as nat),
            decreases 2 * least - scaled,
        {
            proof {
                lemma_doubled(n as nat, places as nat);
                lemma_doubled(1, places as nat);
                lemma_small_power(places as nat);
            }
            scaled = scaled * 2;
            places = places + 1;
        }
        let digits = round_quotient(scaled, unit as u128);
        proof {
            lemma_small_power(places as nat);
            lemma_quotient_digits(scaled as nat, unit as nat);
        }
        Double { bits: (1074 - places) * HIDDEN + digits as u64 }
    }

    /// The number nearest to `n / unit`.
    pub fn from_signed(n: i32, unit: u32) -> (number: Double)
        requires
            unit > 0,
        ensures
            number == Double::signed_quotient(n as int, unit as nat),
    {
        reveal(Double::signed_quotient);
        if n < 0 {
            let opposite = (-(n as i64)) as u32;
            Double { bits: SIGN + Double::from_unsigned(opposite, unit).bits }
        } else {
            Double::from_unsigned(n as u32, unit)
        }
    }

    /// The whole part of a finite number that is multiplied by `scale`, without its sign, but no
    /// more than `limit`.
    fn capped_magnitude(&self, scale: u32, limit: u32) -> (part: u32)
        requires
            self.exponent() != SPECIAL,
        ensures
            part == if self.magnitude(scale as nat) > limit {
                limit as nat
            } else {
                self.magnitude(scale as nat)
            },
    {
        let exponent = (self.bits / HIDDEN) % 2048;
        let fraction = self.bits % HIDDEN;
        let (significand, power): (u64, i32) = if exponent == 0 {
            (fraction, -1074)
        } else {
            (HIDDEN + fraction, exponent as i32 - 1075)
        };
        assert(significand * scale < 0x20_0000_0000_0000_0000_0000) by (nonlinear_arith)
            requires
                significand < 0x20_0000_0000_0000,
                scale <= 0xffff_ffff,
        ;
        let digits = round_digits(significand as u128 * scale as u128);
        whole_part(digits, power, limit)
    }

    /// The number times `scale`, without its fractional part, as near as an unsigned wire number
    /// comes to it.
    pub fn to_unsigned(&self, scale: u32) -> (n: u32)
        ensures
            n == self.as_unsigned(scale as nat),
    {
        reveal(Double::as_unsigned);
        let special = (self.bits / HIDDEN) % 2048 == SPECIAL;
        if (special && self.bits % HIDDEN > 0) || self.bits >= SIGN {
            0
        } else if special {
            u32::MAX
        } else {
            self.capped_magnitude(scale, u32::MAX)
        }
    }

    /// The number times `scale`, without its fractional part, as near as a signed wire number
    /// comes to it.
    pub fn to_signed(&self, scale: u32) -> (n: i32)
        ensures
            n == self.as_signed(scale as nat),
    {
        reveal(Double::as_signed);
        let special = (self.bits / HIDDEN) % 2048 == SPECIAL;
        if special && self.bits % HIDDEN > 0 {
            return 0;
        }
        let negative = self.bits >= SIGN;
        if special {
            return if negative {
                i32::MIN
            } else {
                i32::MAX
            };
        }
        let part = self.capped_magnitude(scale, 0x8000_0000);
        if negative {
            (-(part as i64)) as i32
        } else if part == 0x8000_0000 {
            i32::MAX
        } else {
            part as i32
        }
    }
}

} // verus!
