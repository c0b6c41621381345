//! Binary64 numbers held as bit patterns, with the few exact operations that configuration
//! checks and collective votes need. No floating-point instruction is involved: every value is
//! an integer multiple of `2^-1074`, and rounding is stated on that integer.
use vstd::arithmetic::div_mod::{
    lemma_div_by_multiple, lemma_div_denominator, lemma_div_is_ordered, lemma_div_multiples_vanish,
    lemma_fundamental_div_mod,
    lemma_fundamental_div_mod_converse,
};
use vstd::arithmetic::mul::{
    lemma_mul_basics, lemma_mul_inequality, lemma_mul_is_associative, lemma_mul_is_commutative,
    lemma_mul_strict_inequality, lemma_mul_strictly_positive,
};
use vstd::arithmetic::power2::{
    lemma2_to64, lemma_pow2_adds, lemma_pow2_pos, lemma_pow2_strictly_increases,
    lemma_pow2_unfold, pow2,
};
use vstd::prelude::*;

verus! {

/// An IEEE 754 binary64 number, by its bit pattern.
#[derive(Debug, Clone, Copy, PartialEq, Eq, Structural)]
pub struct Real64 {
    pub bits: u64,
}

/// The bit pattern of positive infinity: every smaller pattern without a sign is finite.
pub const INFINITY_BITS: u64 = 0x7FF0_0000_0000_0000;

/// The bit that holds the sign.
pub const SIGN_BIT: u64 = 0x8000_0000_0000_0000;

/// The bit pattern of `1.0`.
pub const ONE_BITS: u64 = 0x3FF0_0000_0000_0000;

/// `2^52`: the weight of the implicit leading bit of a normal number.
pub const LEADING_BIT: u64 = 0x10_0000_0000_0000;

/// `2^53`: one more than the largest significand.
pub const SIGNIFICAND_END: u64 = 0x20_0000_0000_0000;

/// The significand of the double nearest to `1e-9`, which is that integer times `2^-82`.
pub const NANO_SIGNIFICAND: u64 = 0x11_2E0B_E826_D695;

impl Real64 {
    /// The pattern without its sign bit.
    pub open spec fn magnitude(self) -> nat {
        (self.bits % SIGN_BIT) as nat
    }

    /// Whether the sign bit is set.
    pub open spec fn negative(self) -> bool {
        self.bits >= SIGN_BIT
    }

    /// Whether the value is neither infinite nor a NaN.
    pub open spec fn finite(self) -> bool {
        self.magnitude() < INFINITY_BITS
    }

    /// Whether the value is a NaN.
    pub open spec fn nan(self) -> bool {
        self.magnitude() > INFINITY_BITS
    }

    /// The exponent of a finite value's last significand bit, counted from `2^-1074`.
    pub open spec fn scale(self) -> nat {
        magnitude_scale(self.magnitude())
    }

    /// The integer significand of a finite value.
    pub open spec fn significand(self) -> nat {
        magnitude_significand(self.magnitude())
    }

    /// The absolute value of a finite number in units of `2^-1074`.
    pub open spec fn units(self) -> nat {
        self.significand() * pow2(self.scale())
    }

    /// Whether the number is finite and greater than zero.
    pub open spec fn positive_finite(self) -> bool {
        self.finite() && !self.negative() && self.units() > 0
    }

    /// Whether the number is greater than zero (infinity is, a NaN is not).
    pub open spec fn exceeds_zero(self) -> bool {
        !self.nan() && !self.negative() && (self.finite() ==> self.units() > 0)
    }

    /// Whether the number is greater than zero and at most one.
    pub open spec fn in_unit_interval(self) -> bool {
        self.positive_finite() && self.units() <= pow2(1074)
    }

    /// Whether the number equals zero, of either sign.
    pub open spec fn zero(self) -> bool {
        self.finite() && self.units() == 0
    }

    /// Whether the number equals the double nearest to the whole number `n`.
    pub open spec fn equals_whole(self, n: nat) -> bool {
        &&& self.finite()
        &&& self.units() == round_to_double(n) * pow2(1074)
        &&& self.negative() ==> self.units() == 0
    }
}

/// The scale of a finite magnitude: subnormal numbers share the scale of the smallest normal.
pub open spec fn magnitude_scale(magnitude: nat) -> nat {
    if magnitude < LEADING_BIT {
        0
    } else {
        (magnitude / (LEADING_BIT as nat) - 1) as nat
    }
}

/// The significand of a finite magnitude: normal numbers carry the implicit leading bit.
pub open spec fn magnitude_significand(magnitude: nat) -> nat {
    if magnitude < LEADING_BIT {
        magnitude
    } else {
        magnitude % (LEADING_BIT as nat) + LEADING_BIT as nat
    }
}

/// How many low bits of `n` do not fit a 53-bit significand.
pub open spec fn excess_bits(n: nat) -> nat
    decreases n,
{
    if n < SIGNIFICAND_END {
        0
    } else {
        1 + excess_bits(n / 2)
    }
}

/// `n` divided by `2^excess`, to the nearest integer, ties to the even one.
pub open spec fn nearest_even_quotient(n: nat, excess: nat) -> nat {
    let unit = pow2(excess);
    let quotient = n / unit;
    let rest = n % unit;
    if 2 * rest > unit || (2 * rest == unit && quotient % 2 == 1) {
        quotient + 1
    } else {
        quotient
    }
}

/// The whole number `n` rounded to 53 significant bits, to nearest, ties to even: the value
/// of `n` as a double.
pub open spec fn round_to_double(n: nat) -> nat {
    nearest_even_quotient(n, excess_bits(n)) * pow2(excess_bits(n))
}

/// The product of a whole number and a finite number without a sign, rounded as binary64
/// rounds a product, in units of `2^-1074`.
pub open spec fn rounded_product(whole: nat, factor: Real64) -> nat {
    round_to_double(round_to_double(whole) * factor.significand()) * pow2(factor.scale())
}

/// The double nearest to `1e-9`, in units of `2^-1074`.
pub open spec fn nano_units() -> nat {
    (NANO_SIGNIFICAND * pow2(992)) as nat
}

/// The product of a whole number and a double, truncated to a `usize` and saturated at the ends
/// of its range. A NaN and a negative product truncate to zero.
pub open spec fn truncated_product(whole: nat, factor: Real64) -> nat {
    let limit = usize::MAX as nat;
    if factor.nan() || factor.negative() {
        0
    } else if !factor.finite() {
        if whole == 0 {
            0
        } else {
            limit
        }
    } else {
        let floor = rounded_product(whole, factor) / pow2(1074);
        if floor <= limit {
            floor
        } else {
            limit
        }
    }
}

/// The even number of rotated components that `factor` selects out of `whole`: the product of
/// both, when it is within `1e-9` of that number from above and the number is not zero.
pub open spec fn rotated_width(whole: nat, factor: Real64) -> Option<nat> {
    let width = truncated_product(whole, factor);
    if rounded_product(whole, factor) % pow2(1074) > nano_units() || width == 0 || width % 2 == 1 {
        None
    } else {
        Some(width)
    }
}

proof fn lemma_pow2_constants()
    ensures
        pow2(0) == 1,
        pow2(52) == LEADING_BIT,
        pow2(53) == SIGNIFICAND_END,
        pow2(63) == SIGN_BIT,
        pow2(64) == 0x1_0000_0000_0000_0000,
        pow2(118) == 0x40_0000_0000_0000_0000_0000_0000_0000,
        pow2(127) == 0x8000_0000_0000_0000_0000_0000_0000_0000,
{
    lemma2_to64();
    lemma_pow2_adds(20, 32);
    lemma_pow2_adds(21, 32);
    lemma_pow2_adds(31, 32);
    lemma_pow2_adds(64, 32);
    lemma_pow2_adds(96, 22);
    lemma_pow2_adds(96, 31);
}

proof fn lemma_pow2_ordered(low: nat, high: nat)
    requires
        low <= high,
    ensures
        pow2(low) <= pow2(high),
{
    if low < high {
        lemma_pow2_strictly_increases(low, high);
    }
}

/// A normal magnitude lies between two neighbouring powers of two.
proof fn lemma_normal_range(magnitude: nat)
    requires
        LEADING_BIT <= magnitude < INFINITY_BITS,
    ensures
        pow2(magnitude_scale(magnitude) + 52) <= magnitude_significand(magnitude) * pow2(
            magnitude_scale(magnitude),
        ) < pow2(magnitude_scale(magnitude) + 53),
{
    let scale = magnitude_scale(magnitude);
    let significand = magnitude_significand(magnitude);
    lemma_pow2_constants();
    lemma_pow2_pos(scale);
    lemma_pow2_adds(52, scale);
    lemma_pow2_adds(53, scale);
    lemma_mul_inequality(LEADING_BIT as int, significand as int, pow2(scale) as int);
    lemma_mul_strict_inequality(significand as int, SIGNIFICAND_END as int, pow2(scale) as int);
}

/// A finite number is zero exactly when its magnitude is.
proof fn lemma_units_zero(number: Real64)
    requires
        number.finite(),
    ensures
        number.units() == 0 <==> number.magnitude() == 0,
{
    lemma_pow2_pos(number.scale());
    if number.magnitude() == 0 {
        assert(number.significand() == 0);
        lemma_mul_basics(pow2(number.scale()) as int);
    } else {
        lemma_mul_strictly_positive(number.significand() as int, pow2(number.scale()) as int);
    }
}

/// A finite magnitude is at most that of `1.0` exactly when the number is at most one.
proof fn lemma_at_most_one(number: Real64)
    requires
        number.finite(),
    ensures
        number.magnitude() <= ONE_BITS <==> number.units() <= pow2(1074),
{
    let magnitude = number.magnitude();
    let scale = number.scale();
    lemma_pow2_constants();
    if magnitude < LEADING_BIT {
        lemma_pow2_ordered(53, 1074);
        assert(number.units() == magnitude) by {
            lemma2_to64();
        }
    } else {
        lemma_normal_range(magnitude);
        if magnitude < ONE_BITS {
            lemma_pow2_ordered(scale + 53, 1074);
        } else if magnitude == ONE_BITS {
            lemma_pow2_adds(52, 1022);
        } else if magnitude < ONE_BITS + LEADING_BIT {
            lemma_pow2_adds(52, 1022);
            lemma_pow2_pos(1022);
            lemma_mul_strict_inequality(
                LEADING_BIT as int,
                number.significand() as int,
                pow2(1022) as int,
            );
        } else {
            lemma_pow2_strictly_increases(1074, 1075);
            lemma_pow2_ordered(1075, scale + 52);
        }
    }
}

impl Real64 {
    /// Whether the number is neither infinite nor a NaN.
    pub fn is_finite(self) -> (answer: bool)
        ensures
            answer == self.finite(),
    {
        self.bits % SIGN_BIT < INFINITY_BITS
    }

    /// Whether the number is finite and greater than zero.
    pub fn is_positive_finite(self) -> (answer: bool)
        ensures
            answer == self.positive_finite(),
    {
        proof {
            if self.finite() {
                lemma_units_zero(self);
            }
        }
        0 < self.bits && self.bits < INFINITY_BITS
    }

    /// Whether the value is a NaN.
    pub fn is_nan(self) -> (answer: bool)
        ensures
            answer == self.nan(),
    {
        self.bits % SIGN_BIT > INFINITY_BITS
    }

    /// Whether the number is greater than zero.
    pub fn is_above_zero(self) -> (answer: bool)
        ensures
            answer == self.exceeds_zero(),
    {
        proof {
            if self.finite() {
                lemma_units_zero(self);
            }
        }
        0 < self.bits && self.bits <= INFINITY_BITS
    }

    /// Whether the number equals zero, of either sign.
    pub fn is_zero(self) -> (answer: bool)
        ensures
            answer == self.zero(),
    {
        proof {
            if self.finite() {
                lemma_units_zero(self);
            }
        }
        self.bits % SIGN_BIT == 0
    }

    /// Whether the number is greater than zero and at most one.
    pub fn is_in_unit_interval(self) -> (answer: bool)
        ensures
            answer == self.in_unit_interval(),
    {
        proof {
            if self.finite() {
                lemma_units_zero(self);
                lemma_at_most_one(self);
            }
        }
        0 < self.bits && self.bits <= ONE_BITS
    }
}

/// Computes `2^exponent`.
fn power_of_two(exponent: u32) -> (power: u128)
    requires
        exponent < 128,
    ensures
        power == pow2(exponent as nat),
{
    proof {
        lemma_pow2_constants();
    }
    let mut power: u128 = 1;
    let mut done: u32 = 0;
    while done < exponent
        invariant
            done <= exponent < 128,
            power == pow2(done as nat),
        decreases exponent - done,
    {
        proof {
            lemma_pow2_unfold((done + 1) as nat);
            lemma_pow2_constants();
            lemma_pow2_ordered((done + 1) as nat, 127);
        }
        power = power * 2;
        done = done + 1;
    }
    power
}

/// Halving `n` after dropping `shift` bits drops one bit more.
proof fn lemma_drop_one_more(n: nat, shift: nat)
    ensures
        (n / pow2(shift)) / 2 == n / pow2(shift + 1),
{
    lemma_pow2_pos(shift);
    lemma_pow2_unfold(shift + 1);
    lemma_div_denominator(n as int, pow2(shift) as int, 2);
    assert(pow2(shift) * 2 == pow2(shift + 1));
}

/// Rounds a whole number to 53 significant bits, to nearest, ties to even.
pub fn round_whole(n: u128) -> (rounded: u128)
    requires
        n <= 0x40_0000_0000_0000_0000_0000_0000_0000,
    ensures
        rounded == round_to_double(n as nat),
        rounded <= 2 * n,
{
    let mut quotient: u128 = n;
    let mut shift: u32 = 0;
    proof {
        lemma_pow2_constants();
        assert(n as nat / 1 == n);
    }
    while quotient >= SIGNIFICAND_END as u128
        invariant
            n <= 0x40_0000_0000_0000_0000_0000_0000_0000,
            quotient == n as nat / pow2(shift as nat),
            excess_bits(n as nat) == shift + excess_bits(quotient as nat),
            shift > 0 ==> quotient >= LEADING_BIT,
            quotient <= n,
            shift <= 118,
            shift > 0 ==> pow2(shift as nat) <= n,
        decreases quotient,
    {
        proof {
            lemma_drop_one_more(n as nat, shift as nat);
            lemma_pow2_pos(shift as nat);
            lemma_fundamental_div_mod(n as int, pow2(shift as nat) as int);
            lemma_pow2_unfold((shift + 1) as nat);
            assert(pow2(shift as nat) * 2 <= pow2(shift as nat) * quotient) by (nonlinear_arith)
                requires
                    quotient >= 2,
                    pow2(shift as nat) > 0,
            ;
            if shift >= 118 {
                lemma_pow2_constants();
                lemma_pow2_ordered(118, shift as nat);
            }
        }
        quotient = quotient / 2;
        shift = shift + 1;
    }
    let unit: u128 = power_of_two(shift);
    proof {
        lemma_pow2_pos(shift as nat);
    }
    let rest: u128 = n % unit;
    proof {
        lemma_fundamental_div_mod(n as int, unit as int);
        lemma_mul_is_commutative(quotient as int, unit as int);
        assert((quotient + 1) * unit == quotient * unit + unit) by (nonlinear_arith);
        assert(shift == 0 ==> rest == 0);
    }
    if 2 * rest > unit || (2 * rest == unit && quotient % 2 == 1) {
        (quotient + 1) * unit
    } else {
        quotient * unit
    }
}

/// Dividing by `2^1074` a multiple of `2^scale` is dropping `1074 - scale` bits of the multiple.
proof fn lemma_scaled_division(multiple: nat, scale: nat, drop: nat)
    requires
        scale + drop == 1074,
    ensures
        multiple * pow2(scale) / pow2(1074) == multiple / pow2(drop),
        multiple * pow2(scale) % pow2(1074) == (multiple % pow2(drop)) * pow2(scale),
{
    let unit = pow2(drop);
    let quotient = multiple / unit;
    let rest = multiple % unit;
    lemma_pow2_adds(drop, scale);
    lemma_pow2_pos(drop);
    lemma_pow2_pos(scale);
    lemma_fundamental_div_mod(multiple as int, unit as int);
    assert(multiple * pow2(scale) == quotient * (unit * pow2(scale)) + rest * pow2(scale))
        by (nonlinear_arith)
        requires
            multiple == unit * quotient + rest,
    ;
    assert(rest * pow2(scale) < unit * pow2(scale)) by {
        lemma_mul_strict_inequality(rest as int, unit as int, pow2(scale) as int);
    }
    lemma_fundamental_div_mod_converse(
        (multiple * pow2(scale)) as int,
        pow2(1074) as int,
        quotient as int,
        (rest * pow2(scale)) as int,
    );
}

/// Dividing by `2^1074` a multiple of a larger power of two leaves no remainder.
proof fn lemma_scaled_multiple(multiple: nat, scale: nat, raise: nat)
    requires
        scale == raise + 1074,
    ensures
        multiple * pow2(scale) == multiple * pow2(raise) * pow2(1074),
        multiple * pow2(scale) / pow2(1074) == multiple * pow2(raise),
{
    lemma_pow2_adds(raise, 1074);
    lemma_pow2_pos(1074);
    lemma_mul_is_associative(multiple as int, pow2(raise) as int, pow2(1074) as int);
    lemma_div_multiples_vanish((multiple * pow2(raise)) as int, pow2(1074) as int);
    lemma_mul_is_commutative((multiple * pow2(raise)) as int, pow2(1074) as int);
}

impl Real64 {
    /// The scale of a finite number.
    fn scale_of(self) -> (scale: u64)
        requires
            self.finite(),
        ensures
            scale == self.scale(),
            scale <= 2045,
    {
        let magnitude: u64 = self.bits % SIGN_BIT;
        if magnitude < LEADING_BIT {
            0
        } else {
            magnitude / LEADING_BIT - 1
        }
    }

    /// The significand of a finite number.
    fn significand_of(self) -> (significand: u64)
        requires
            self.finite(),
        ensures
            significand == self.significand(),
            significand < SIGNIFICAND_END,
            self.scale() > 0 ==> significand >= LEADING_BIT,
    {
        let magnitude: u64 = self.bits % SIGN_BIT;
        if magnitude < LEADING_BIT {
            magnitude
        } else {
            magnitude % LEADING_BIT + LEADING_BIT
        }
    }
}

/// The rounded product of a whole number and a finite number, in units of the latter's scale.
fn product_significand(whole: usize, factor: Real64) -> (product: u128)
    requires
        factor.finite(),
    ensures
        product * pow2(factor.scale()) == rounded_product(whole as nat, factor),
        product <= 0x80_0000_0000_0000_0000_0000_0000_0000,
{
    let rounded: u128 = round_whole(whole as u128);
    let significand: u64 = factor.significand_of();
    assert(rounded * significand <= 0x2_0000_0000_0000_0000 * 0x20_0000_0000_0000)
        by (nonlinear_arith)
        requires
            rounded <= 0x2_0000_0000_0000_0000,
            significand <= 0x20_0000_0000_0000,
    ;
    round_whole(rounded * significand as u128)
}

/// Multiplies a whole number by a double and truncates the product to a `usize`, saturating.
pub fn truncate_product(whole: usize, factor: Real64) -> (width: usize)
    ensures
        width == truncated_product(whole as nat, factor),
{
    if factor.bits > INFINITY_BITS {
        return 0;
    }
    if factor.bits == INFINITY_BITS {
        return if whole == 0 { 0 } else { usize::MAX };
    }
    let product: u128 = product_significand(whole, factor);
    let scale: u64 = factor.scale_of();
    if scale >= 1074 {
        let raise: u64 = scale - 1074;
        proof {
            lemma_scaled_multiple(product as nat, scale as nat, raise as nat);
            lemma_pow2_pos(raise as nat);
        }
        if product == 0 {
            assert(0 * pow2(raise as nat) == 0);
            return 0;
        }
        if raise >= 64 {
            proof {
                lemma_pow2_constants();
                lemma_pow2_ordered(64, raise as nat);
                lemma_mul_inequality(1, product as int, pow2(raise as nat) as int);
            }
            return usize::MAX;
        }
        let unit: u128 = power_of_two(raise as u32);
        let most: u128 = usize::MAX as u128 / unit;
        proof {
            lemma_fundamental_div_mod(usize::MAX as int, unit as int);
        }
        if product > most {
            assert(product * unit > usize::MAX) by (nonlinear_arith)
                requires
                    product >= most + 1,
                    usize::MAX < unit * most + unit,
                    unit > 0,
            ;
            usize::MAX
        } else {
            assert(product * unit <= usize::MAX) by (nonlinear_arith)
                requires
                    product <= most,
                    usize::MAX >= unit * most,
                    unit > 0,
            ;
            (product * unit) as usize
        }
    } else {
        let drop: u64 = 1074 - scale;
        proof {
            lemma_scaled_division(product as nat, scale as nat, drop as nat);
        }
        if drop >= 127 {
            proof {
                lemma_pow2_constants();
                lemma_pow2_ordered(127, drop as nat);
                lemma_fundamental_div_mod_converse(
                    product as int,
                    pow2(drop as nat) as int,
                    0,
                    product as int,
                );
            }
            return 0;
        }
        let unit: u128 = power_of_two(drop as u32);
        proof {
            lemma_pow2_pos(drop as nat);
        }
        let floor: u128 = product / unit;
        if floor > usize::MAX as u128 {
            usize::MAX
        } else {
            floor as usize
        }
    }
}

/// Whether `rest`, out of `2^drop`, is a larger fraction than `1e-9`.
fn exceeds_nano(rest: u128, drop: u32) -> (answer: bool)
    requires
        52 <= drop < 127,
        rest < pow2(drop as nat),
    ensures
        answer == (rest * pow2((1074 - drop) as nat) > nano_units()),
{
    let ghost scale: nat = (1074 - drop) as nat;
    if drop <= 82 {
        let unit: u128 = power_of_two(82 - drop);
        proof {
            lemma_pow2_constants();
            lemma_pow2_adds((82 - drop) as nat, 992);
            lemma_pow2_adds(drop as nat, (82 - drop) as nat);
            lemma_pow2_ordered(82, 118);
            lemma_pow2_pos(992);
            lemma_pow2_pos((82 - drop) as nat);
            lemma_mul_strict_inequality(rest as int, pow2(drop as nat) as int, unit as int);
            lemma_mul_is_associative(rest as int, unit as int, pow2(992) as int);
            if rest * unit > NANO_SIGNIFICAND {
                lemma_mul_strict_inequality(NANO_SIGNIFICAND as int, rest * unit, pow2(992) as int);
            } else {
                lemma_mul_inequality(rest * unit, NANO_SIGNIFICAND as int, pow2(992) as int);
            }
        }
        rest * unit > NANO_SIGNIFICAND as u128
    } else {
        let unit: u128 = power_of_two(drop - 82);
        proof {
            lemma_pow2_constants();
            lemma_pow2_ordered((drop - 82) as nat, 53);
            lemma_pow2_adds((drop - 82) as nat, scale);
            lemma_pow2_pos(scale);
            lemma_mul_is_associative(NANO_SIGNIFICAND as int, unit as int, pow2(scale) as int);
            assert(NANO_SIGNIFICAND * unit <= 0x20_0000_0000_0000 * 0x20_0000_0000_0000)
                by (nonlinear_arith)
                requires
                    NANO_SIGNIFICAND <= 0x20_0000_0000_0000,
                    unit <= 0x20_0000_0000_0000,
            ;
            if rest > NANO_SIGNIFICAND * unit {
                lemma_mul_strict_inequality(NANO_SIGNIFICAND * unit, rest as int, pow2(scale) as int);
            } else {
                lemma_mul_inequality(rest as int, NANO_SIGNIFICAND * unit, pow2(scale) as int);
            }
        }
        rest > NANO_SIGNIFICAND as u128 * unit
    }
}

/// Multiplies a whole number by a fraction of at most one and gives the product when it is a
/// positive even whole number, up to `1e-9`.
pub fn checked_rotated_width(whole: usize, factor: Real64) -> (width: Option<usize>)
    requires
        factor.in_unit_interval(),
    ensures
        match width {
            Some(found) => rotated_width(whole as nat, factor) == Some(found as nat),
            None => rotated_width(whole as nat, factor) is None,
        },
{
    proof {
        lemma_at_most_one(factor);
    }
    let width: usize = truncate_product(whole, factor);
    if width == 0 || width % 2 == 1 {
        return None;
    }
    let product: u128 = product_significand(whole, factor);
    let scale: u64 = factor.scale_of();
    let drop: u64 = 1074 - scale;
    proof {
        lemma_scaled_division(product as nat, scale as nat, drop as nat);
        if drop >= 127 {
            lemma_pow2_constants();
            lemma_pow2_ordered(127, drop as nat);
            lemma_fundamental_div_mod_converse(
                product as int,
                pow2(drop as nat) as int,
                0,
                product as int,
            );
        }
        lemma_pow2_pos(drop as nat);
    }
    let unit: u128 = power_of_two(drop as u32);
    let rest: u128 = product % unit;
    if exceeds_nano(rest, drop as u32) {
        None
    } else {
        Some(width)
    }
}

impl Real64 {
    /// Whether the number equals the double nearest to the whole number `n`.
    pub fn is_whole(self, n: u128) -> (answer: bool)
        requires
            n <= 0x40_0000_0000_0000_0000_0000_0000_0000,
        ensures
            answer == self.equals_whole(n as nat),
    {
        if !self.is_finite() {
            return false;
        }
        let rounded: u128 = round_whole(n);
        let scale: u64 = self.scale_of();
        let significand: u64 = self.significand_of();
        proof {
            lemma_units_zero(self);
            lemma_pow2_pos(1074);
            lemma_mul_basics(pow2(1074) as int);
            lemma_mul_basics(pow2(scale as nat) as int);
            if rounded > 0 {
                lemma_mul_strictly_positive(rounded as int, pow2(1074) as int);
            }
            lemma_pow2_constants();
        }
        if significand == 0 {
            return rounded == 0;
        }
        if self.bits >= SIGN_BIT {
            assert(self.magnitude() != 0);
            return false;
        }
        if scale >= 1074 {
            let raise: u64 = scale - 1074;
            proof {
                lemma_scaled_multiple(significand as nat, scale as nat, raise as nat);
                lemma_pow2_pos(raise as nat);
            }
            if raise >= 74 {
                proof {
                    lemma_pow2_ordered(74, raise as nat);
                    lemma_pow2_adds(10, 64);
                    lemma2_to64();
                    assert(significand * pow2(raise as nat) >= 0x10_0000_0000_0000
                        * 0x400_0000_0000_0000_0000) by (nonlinear_arith)
                        requires
                            significand >= 0x10_0000_0000_0000,
                            pow2(raise as nat) >= 0x400_0000_0000_0000_0000,
                    ;
                    lemma_mul_strict_inequality(
                        rounded as int,
                        significand * pow2(raise as nat),
                        pow2(1074) as int,
                    );
                }
                return false;
            }
            let unit: u128 = power_of_two(raise as u32);
            proof {
                lemma_pow2_ordered(raise as nat, 74);
                lemma_pow2_adds(10, 64);
                lemma2_to64();
                assert(significand * unit <= 0x20_0000_0000_0000 * 0x400_0000_0000_0000_0000)
                    by (nonlinear_arith)
                    requires
                        significand <= 0x20_0000_0000_0000,
                        unit <= 0x400_0000_0000_0000_0000,
                ;
                if significand * unit < rounded {
                    lemma_mul_strict_inequality(significand * unit, rounded as int, pow2(1074) as int);
                } else if significand * unit > rounded {
                    lemma_mul_strict_inequality(rounded as int, significand * unit, pow2(1074) as int);
                }
            }
            significand as u128 * unit == rounded
        } else {
            let drop: u64 = 1074 - scale;
            proof {
                lemma_scaled_division(significand as nat, scale as nat, drop as nat);
                lemma_div_multiples_vanish(rounded as int, pow2(1074) as int);
                lemma_mul_is_commutative(rounded as int, pow2(1074) as int);
                lemma_fundamental_div_mod(self.units() as int, pow2(1074) as int);
                lemma_fundamental_div_mod_converse(
                    rounded * pow2(1074),
                    pow2(1074) as int,
                    rounded as int,
                    0,
                );
                lemma_pow2_pos(drop as nat);
                lemma_pow2_pos(scale as nat);
            }
            if drop >= 53 {
                proof {
                    lemma_pow2_ordered(53, drop as nat);
                    lemma_fundamental_div_mod_converse(
                        significand as int,
                        pow2(drop as nat) as int,
                        0,
                        significand as int,
                    );
                    lemma_mul_strictly_positive(significand as int, pow2(scale as nat) as int);
                }
                return false;
            }
            let unit: u128 = power_of_two(drop as u32);
            let quotient: u128 = significand as u128 / unit;
            let rest: u128 = significand as u128 % unit;
            proof {
                if rest > 0 {
                    lemma_mul_strictly_positive(rest as int, pow2(scale as nat) as int);
                }
            }
            rest == 0 && quotient == rounded
        }
    }
}

/// A whole number of at most 53 bits is its own double.
pub proof fn lemma_small_whole(n: nat)
    requires
        n < SIGNIFICAND_END,
    ensures
        round_to_double(n) == n,
{
    lemma_pow2_constants();
    assert(excess_bits(n) == 0);
    assert(n / 1 == n && n % 1 == 0);
}

proof fn lemma_quotient_positive(n: nat)
    requires
        n > 0,
    ensures
        n / pow2(excess_bits(n)) > 0,
    decreases n,
{
    lemma_pow2_constants();
    if n < SIGNIFICAND_END {
        assert(n / 1 == n);
    } else {
        let rest = excess_bits(n / 2);
        lemma_quotient_positive(n / 2);
        lemma_pow2_pos(rest);
        lemma_pow2_unfold(rest + 1);
        lemma_div_denominator(n as int, 2, pow2(rest) as int);
    }
}

/// A number with excess bits has at least 53 bits besides all but one of them.
proof fn lemma_excess_bound(n: nat)
    ensures
        excess_bits(n) > 0 ==> n >= SIGNIFICAND_END * pow2((excess_bits(n) - 1) as nat),
    decreases n,
{
    lemma_pow2_constants();
    if n >= SIGNIFICAND_END {
        let rest = excess_bits(n / 2);
        lemma_excess_bound(n / 2);
        if rest > 0 {
            let half = pow2((rest - 1) as nat);
            lemma_pow2_unfold(rest);
            assert(SIGNIFICAND_END * (2 * half) == 2 * (SIGNIFICAND_END * half)) by (nonlinear_arith);
        }
    }
}

/// Rounding a whole number does not lead beyond a double above it.
proof fn lemma_round_keeps_bound(n: nat, whole: nat, raise: nat)
    requires
        whole < SIGNIFICAND_END,
        n <= whole * pow2(raise),
    ensures
        round_to_double(n) <= whole * pow2(raise),
{
    let excess = excess_bits(n);
    let unit = pow2(excess);
    let bound = whole * pow2(raise);
    lemma_pow2_constants();
    lemma_pow2_pos(excess);
    lemma_pow2_pos(raise);
    if excess == 0 {
        assert(n / 1 == n && n % 1 == 0);
    } else {
        lemma_excess_bound(n);
        if raise < excess {
            lemma_pow2_ordered(raise, (excess - 1) as nat);
            lemma_mul_strict_inequality(whole as int, SIGNIFICAND_END as int, pow2(raise) as int);
            assert(SIGNIFICAND_END * pow2(raise) <= SIGNIFICAND_END * pow2((excess - 1) as nat))
                by (nonlinear_arith)
                requires
                    pow2(raise) <= pow2((excess - 1) as nat),
            ;
        }
        let steps = whole * pow2((raise - excess) as nat);
        lemma_pow2_adds((raise - excess) as nat, excess);
        assert(bound == steps * unit) by (nonlinear_arith)
            requires
                bound == whole * pow2(raise),
                steps == whole * pow2((raise - excess) as nat),
                pow2(raise) == pow2((raise - excess) as nat) * unit,
        ;
        let (quotient, rest) = (n / unit, n % unit);
        lemma_fundamental_div_mod(n as int, unit as int);
        let rounded = nearest_even_quotient(n, excess);
        assert(rounded <= steps) by (nonlinear_arith)
            requires
                n == unit * quotient + rest,
                n <= steps * unit,
                unit > 0,
                rounded == quotient || (rounded == quotient + 1 && rest > 0),
        ;
        lemma_mul_inequality(rounded as int, steps as int, unit as int);
    }
}

/// A fraction of a whole number is at most that number, for whole numbers that are doubles.
pub proof fn law_fractions_do_not_exceed_the_whole(whole: nat, factor: Real64)
    requires
        whole < SIGNIFICAND_END,
        factor.in_unit_interval(),
    ensures
        truncated_product(whole, factor) <= whole,
        rotated_width(whole, factor) matches Some(width) ==> 0 < width <= whole && width % 2 == 0,
{
    let (scale, significand) = (factor.scale(), factor.significand());
    lemma_at_most_one(factor);
    lemma_small_whole(whole);
    let drop = (1074 - scale) as nat;
    lemma_pow2_pos(scale);
    lemma_pow2_pos(1074);
    lemma_pow2_adds(drop, scale);
    let raised = pow2(drop);
    assert(significand <= raised) by (nonlinear_arith)
        requires
            significand * pow2(scale) <= raised * pow2(scale),
            pow2(scale) > 0,
    ;
    assert(whole * significand <= whole * raised) by (nonlinear_arith)
        requires
            significand <= raised,
    ;
    lemma_round_keeps_bound(whole * significand, whole, drop);
    let rounded = round_to_double(whole * significand);
    assert(rounded * pow2(scale) <= whole * pow2(1074)) by (nonlinear_arith)
        requires
            rounded <= whole * raised,
            raised * pow2(scale) == pow2(1074),
    ;
    lemma_div_is_ordered(
        rounded_product(whole, factor) as int,
        (whole * pow2(1074)) as int,
        pow2(1074) as int,
    );
    lemma_div_by_multiple(whole as int, pow2(1074) as int);
}

/// The double of a whole number is zero only for zero.
pub proof fn lemma_round_zero(n: nat)
    ensures
        round_to_double(n) == 0 <==> n == 0,
{
    lemma_pow2_pos(excess_bits(n));
    if n == 0 {
        lemma_small_whole(0);
    } else {
        lemma_quotient_positive(n);
        lemma_mul_strictly_positive(
            nearest_even_quotient(n, excess_bits(n)) as int,
            pow2(excess_bits(n)) as int,
        );
    }
}

/// A number that equals a whole number equals no other one, as far as doubles tell them apart.
pub proof fn lemma_equals_one_whole(number: Real64, left: nat, right: nat)
    requires
        number.equals_whole(left),
    ensures
        number.equals_whole(right) <==> round_to_double(left) == round_to_double(right),
        number.zero() <==> left == 0,
{
    lemma_round_zero(left);
    lemma_pow2_pos(1074);
    let (a, b) = (round_to_double(left) as int, round_to_double(right) as int);
    if a < b {
        lemma_mul_strict_inequality(a, b, pow2(1074) as int);
    } else if b < a {
        lemma_mul_strict_inequality(b, a, pow2(1074) as int);
    }
    if a > 0 {
        lemma_mul_strictly_positive(a, pow2(1074) as int);
    } else {
        lemma_mul_basics(pow2(1074) as int);
    }
}

impl Real64 {
    /// A finite number in units of `2^-1074`, with its sign.
    pub open spec fn signed_units(self) -> int {
        if self.negative() {
            -(self.units() as int)
        } else {
            self.units() as int
        }
    }
}

/// Half-way between the machine epsilon and the next double, in units of `2^-1074`: a difference
/// rounds to more than the epsilon exactly when it is larger, for a tie goes to the epsilon.
pub open spec fn epsilon_bound() -> int {
    (pow2(1022) + pow2(969)) as int
}

/// Whether two numbers differ: by more than the machine epsilon, as binary64 subtracts and
/// compares, or because one of them is no number. An infinity differs from everything but itself.
pub open spec fn differ(left: Real64, right: Real64) -> bool {
    if left.nan() || right.nan() {
        true
    } else if !left.finite() && !right.finite() {
        left.negative() != right.negative()
    } else if !left.finite() || !right.finite() {
        true
    } else {
        let gap = left.signed_units() - right.signed_units();
        gap > epsilon_bound() || -gap > epsilon_bound()
    }
}

/// The signed significand of a finite number.
fn signed_significand(number: Real64) -> (significand: i128)
    requires
        number.finite(),
    ensures
        significand * pow2(number.scale()) == number.signed_units(),
        -SIGNIFICAND_END < significand < SIGNIFICAND_END,
        number.scale() > 0 ==> significand >= LEADING_BIT || significand <= -LEADING_BIT,
{
    let significand: i128 = number.significand_of() as i128;
    if number.bits >= SIGN_BIT {
        assert((-significand) * pow2(number.scale()) == -(significand * pow2(number.scale())))
            by (nonlinear_arith);
        -significand
    } else {
        significand
    }
}

/// Compares a gap that is a multiple of `2^scale` with the bound, by its multiple.
proof fn lemma_gap(multiple: int, scale: nat)
    requires
        905 <= scale,
    ensures
        scale >= 1023 ==> (multiple * pow2(scale) > epsilon_bound() <==> multiple > 0),
        969 < scale <= 1022 ==> (multiple * pow2(scale) > epsilon_bound() <==> multiple > pow2(
            (1022 - scale) as nat,
        )),
        scale <= 969 ==> (multiple * pow2(scale) > epsilon_bound() <==> multiple > pow2(
            (1022 - scale) as nat,
        ) + pow2((969 - scale) as nat)),
{
    let unit = pow2(scale) as int;
    lemma_pow2_pos(scale);
    lemma_pow2_strictly_increases(969, 1022);
    if scale >= 1023 {
        lemma_pow2_unfold(1023);
        lemma_pow2_ordered(1023, scale);
        if multiple > 0 {
            lemma_mul_inequality(1, multiple, unit);
        } else {
            assert(multiple * unit <= 0) by (nonlinear_arith)
                requires
                    multiple <= 0,
                    unit > 0,
            ;
            lemma_pow2_pos(1022);
        }
    } else if scale > 969 {
        let bound = pow2((1022 - scale) as nat) as int;
        lemma_pow2_adds((1022 - scale) as nat, scale);
        lemma_pow2_strictly_increases(969, scale);
        lemma_pow2_pos(969);
        if multiple > bound {
            lemma_mul_inequality(bound + 1, multiple, unit);
            assert((bound + 1) * unit == bound * unit + unit) by (nonlinear_arith);
        } else {
            lemma_mul_inequality(multiple, bound, unit);
        }
    } else {
        let (high, low) = (
            pow2((1022 - scale) as nat) as int,
            pow2((969 - scale) as nat) as int,
        );
        lemma_pow2_adds((1022 - scale) as nat, scale);
        lemma_pow2_adds((969 - scale) as nat, scale);
        assert((high + low) * unit == high * unit + low * unit) by (nonlinear_arith);
        if multiple > high + low {
            lemma_mul_strict_inequality(high + low, multiple, unit);
        } else {
            lemma_mul_inequality(multiple, high + low, unit);
        }
    }
}

/// Whether a positive multiple of `2^scale` exceeds the bound.
fn exceeds_epsilon(multiple: i128, scale: u64) -> (exceeds: bool)
    requires
        905 <= scale,
        multiple <= 0x40_0000_0000_0000_0000_0000_0000_0000,
    ensures
        exceeds == (multiple * pow2(scale as nat) > epsilon_bound()),
{
    proof {
        lemma_gap(multiple as int, scale as nat);
    }
    if scale >= 1023 {
        multiple > 0
    } else {
        proof {
            lemma_pow2_constants();
            lemma_pow2_ordered((1022 - scale) as nat, 118);
            if scale <= 969 {
                lemma_pow2_ordered((969 - scale) as nat, 118);
            }
        }
        let high: u128 = power_of_two((1022 - scale) as u32);
        if scale > 969 {
            multiple > high as i128
        } else {
            let low: u128 = power_of_two((969 - scale) as u32);
            multiple > high as i128 + low as i128
        }
    }
}

/// A number of a small scale is far below the bound.
proof fn lemma_small_number(number: Real64, scale: nat)
    requires
        number.finite(),
        number.scale() <= scale,
    ensures
        number.units() < pow2(scale + 53),
{
    lemma_pow2_constants();
    lemma_pow2_pos(number.scale());
    lemma_pow2_adds(53, number.scale());
    lemma_mul_strict_inequality(
        number.significand() as int,
        SIGNIFICAND_END as int,
        pow2(number.scale()) as int,
    );
    lemma_pow2_ordered(number.scale() + 53, scale + 53);
}

/// A number of a much larger scale than another differs from it exactly when it is above the
/// epsilon on its own.
proof fn lemma_far_apart(large: Real64, small: Real64)
    requires
        large.finite(),
        small.finite(),
        large.scale() >= 969,
        small.scale() + 64 < large.scale(),
    ensures
        differ(large, small) <==> large.scale() > 970 || (large.scale() == 970
            && large.significand() > LEADING_BIT),
{
    let scale = large.scale();
    let significand = large.significand() as int;
    lemma_pow2_constants();
    lemma_small_number(small, (scale - 65) as nat);
    lemma_pow2_adds((scale - 12) as nat, 12);
    lemma2_to64();
    lemma_pow2_pos((scale - 12) as nat);
    assert(significand >= LEADING_BIT);
    if scale > 970 {
        lemma_mul_inequality(LEADING_BIT as int, significand, pow2(scale) as int);
        lemma_pow2_adds(52, scale);
        lemma_pow2_ordered(1023, scale + 52);
        lemma_pow2_unfold(1023);
        lemma_pow2_ordered(971, scale);
        lemma_pow2_adds(51, 971);
        lemma_pow2_adds(2, 969);
        assert((LEADING_BIT - 1) * pow2(scale) >= 0x8_0000_0000_0001 * pow2(971)) by {
            lemma_mul_inequality(
                0x8_0000_0000_0001,
                (LEADING_BIT - 1) as int,
                pow2(scale) as int,
            );
            lemma_mul_inequality(pow2(971) as int, pow2(scale) as int, 0x8_0000_0000_0001);
            lemma_mul_is_commutative(pow2(971) as int, 0x8_0000_0000_0001);
            lemma_mul_is_commutative(pow2(scale) as int, 0x8_0000_0000_0001);
        }
        assert((LEADING_BIT - 1) * pow2(scale) == LEADING_BIT * pow2(scale) - pow2(scale))
            by (nonlinear_arith);
        assert(0x8_0000_0000_0001 * pow2(971) == 0x8_0000_0000_0000 * pow2(971) + pow2(971))
            by (nonlinear_arith);
        lemma_pow2_adds(31, 20);
        assert(pow2(51) == 0x8_0000_0000_0000);
        lemma_pow2_pos(969);
    } else if scale == 970 {
        lemma_pow2_adds(52, 970);
        lemma_pow2_adds(1, 969);
        lemma_pow2_ordered(958, 969);
        if significand > LEADING_BIT {
            lemma_mul_inequality((LEADING_BIT + 1) as int, significand, pow2(970) as int);
            assert((LEADING_BIT + 1) * pow2(970) == LEADING_BIT * pow2(970) + pow2(970))
                by (nonlinear_arith);
            lemma_pow2_strictly_increases(958, 969);
        } else {
            lemma_pow2_strictly_increases(958, 969);
        }
    } else {
        lemma_pow2_adds(53, 969);
        lemma_mul_strict_inequality(significand, SIGNIFICAND_END as int, pow2(969) as int);
        lemma_pow2_strictly_increases(957, 969);
    }
}

/// Numbers of small scales do not differ.
proof fn lemma_close_to_zero(left: Real64, right: Real64)
    requires
        left.finite(),
        right.finite(),
        left.scale() <= 968,
        right.scale() <= 968,
    ensures
        !differ(left, right),
{
    lemma_small_number(left, 968);
    lemma_small_number(right, 968);
    lemma_pow2_unfold(1022);
    lemma_pow2_pos(969);
}

/// Whether two numbers differ: by more than the machine epsilon, as binary64 subtracts and
/// compares, or because one of them is no number.
pub fn differs(left: Real64, right: Real64) -> (answer: bool)
    ensures
        answer == differ(left, right),
{
    let left_magnitude: u64 = left.bits % SIGN_BIT;
    let right_magnitude: u64 = right.bits % SIGN_BIT;
    if left_magnitude > INFINITY_BITS || right_magnitude > INFINITY_BITS {
        return true;
    }
    if left_magnitude == INFINITY_BITS && right_magnitude == INFINITY_BITS {
        return (left.bits >= SIGN_BIT) != (right.bits >= SIGN_BIT);
    }
    if left_magnitude == INFINITY_BITS || right_magnitude == INFINITY_BITS {
        return true;
    }
    if left.scale_of() < right.scale_of() {
        differs_from_smaller(right, left)
    } else {
        differs_from_smaller(left, right)
    }
}

/// As [`differs`], for finite numbers in the order of their scales.
fn differs_from_smaller(large: Real64, small: Real64) -> (answer: bool)
    requires
        large.finite(),
        small.finite(),
        small.scale() <= large.scale(),
    ensures
        answer == differ(large, small),
{
    let scale: u64 = large.scale_of();
    let base: u64 = small.scale_of();
    if scale <= 968 {
        proof {
            lemma_close_to_zero(large, small);
        }
        return false;
    }
    if base + 64 < scale {
        proof {
            lemma_far_apart(large, small);
        }
        return scale > 970 || (scale == 970 && large.significand_of() > LEADING_BIT);
    }
    let raise: u64 = scale - base;
    let unit: u128 = power_of_two(raise as u32);
    let a: i128 = signed_significand(large);
    let b: i128 = signed_significand(small);
    proof {
        lemma_pow2_constants();
        lemma_pow2_ordered(raise as nat, 64);
        lemma_pow2_adds(raise as nat, base as nat);
        lemma_mul_is_associative(a as int, unit as int, pow2(base as nat) as int);
        assert(-0x20_0000_0000_0000 * 0x1_0000_0000_0000_0000 <= a * unit <= 0x20_0000_0000_0000
            * 0x1_0000_0000_0000_0000) by (nonlinear_arith)
            requires
                -0x20_0000_0000_0000 <= a <= 0x20_0000_0000_0000,
                0 <= unit <= 0x1_0000_0000_0000_0000,
        ;
        assert((a * unit - b) * pow2(base as nat) == a * unit * pow2(base as nat) - b * pow2(
            base as nat,
        )) by (nonlinear_arith);
        assert((b - a * unit) * pow2(base as nat) == b * pow2(base as nat) - a * unit * pow2(
            base as nat,
        )) by (nonlinear_arith);
    }
    let gap: i128 = a * unit as i128 - b;
    exceeds_epsilon(gap, base) || exceeds_epsilon(-gap, base)
}

/// What a pattern stands for: a sign bit, eleven exponent bits and 52 fraction bits. The largest
/// exponent holds the infinities and the NaNs; the smallest the numbers without a leading bit.
pub proof fn law_number_layout(number: Real64)
    ensures
        ({
            let fraction = number.bits % 0x10_0000_0000_0000;
            let exponent = (number.bits / 0x10_0000_0000_0000) % 0x800;
            &&& number.negative() <==> number.bits / 0x8000_0000_0000_0000 == 1
            &&& number.finite() <==> exponent != 0x7FF
            &&& number.nan() <==> exponent == 0x7FF && fraction != 0
            &&& exponent == 0 ==> number.units() == fraction
            &&& exponent != 0 && exponent != 0x7FF ==> number.units() == (0x10_0000_0000_0000
                + fraction) * pow2((exponent - 1) as nat)
        }),
{
    let bits = number.bits;
    assert((bits % 0x8000_0000_0000_0000) % 0x10_0000_0000_0000 == bits % 0x10_0000_0000_0000
        && (bits % 0x8000_0000_0000_0000) / 0x10_0000_0000_0000 == (bits / 0x10_0000_0000_0000)
        % 0x800 && (bits / 0x8000_0000_0000_0000 == 1 <==> bits >= 0x8000_0000_0000_0000))
        by (bit_vector);
    lemma2_to64();
    let magnitude = number.magnitude();
    let fraction = bits % 0x10_0000_0000_0000;
    let exponent = (bits / 0x10_0000_0000_0000) % 0x800;
    assert(magnitude == exponent * 0x10_0000_0000_0000 + fraction);
    assert(magnitude / (LEADING_BIT as nat) == exponent);
    assert(magnitude % (LEADING_BIT as nat) == fraction);
    assert(pow2(0) == 1);
    if magnitude < LEADING_BIT {
        assert(number.significand() == fraction && number.scale() == 0);
        lemma_mul_basics(number.significand() as int);
    } else {
        assert(number.significand() == 0x10_0000_0000_0000 + fraction);
        assert(number.scale() == exponent - 1);
    }
}

/// What the classes of numbers are, in terms of the signed number itself.
pub proof fn law_number_classes(number: Real64)
    ensures
        number.finite() ==> !number.nan(),
        number.positive_finite() <==> number.finite() && number.signed_units() > 0,
        number.in_unit_interval() <==> number.finite() && 0 < number.signed_units() <= pow2(1074),
        number.zero() <==> number.finite() && number.signed_units() == 0,
        number.exceeds_zero() <==> (number.finite() && number.signed_units() > 0) || (
        !number.finite() && !number.nan() && !number.negative()),
{
}

/// What it is for two numbers to differ: symmetric, never of a number and itself, always of a NaN,
/// and of two finite numbers exactly when they are more than the rounded epsilon apart.
pub proof fn law_differences(left: Real64, right: Real64)
    ensures
        differ(left, right) == differ(right, left),
        left.nan() ==> differ(left, right),
        left == right && !left.nan() ==> !differ(left, right),
        left.finite() && !right.finite() ==> differ(left, right),
        !left.finite() && !right.finite() && !left.nan() && !right.nan() ==> (differ(left, right)
            <==> left.negative() != right.negative()),
        left.finite() && right.finite() ==> (!differ(left, right) <==> -(pow2(1022) + pow2(969))
            <= left.signed_units() - right.signed_units() <= pow2(1022) + pow2(969)),
{
}

/// A billionth is less than one.
pub proof fn lemma_nano_is_small()
    ensures
        nano_units() < pow2(1074),
{
    lemma_pow2_constants();
    lemma_pow2_adds(53, 992);
    lemma_pow2_ordered(1045, 1074);
    lemma_pow2_pos(992);
    lemma2_to64();
    assert(pow2(53) == 0x20_0000_0000_0000);
    lemma_mul_strict_inequality(NANO_SIGNIFICAND as int, pow2(53) as int, pow2(992) as int);
}

/// A whole number that fits 53 bits is a double; a larger one becomes the nearest multiple of the
/// power of two that leaves 53 bits of it, and of two that are as near the one with the even
/// multiple.
pub proof fn law_rounding_is_to_nearest(n: nat)
    ensures
        n < 0x20_0000_0000_0000 ==> round_to_double(n) == n,
        ({
            let unit = pow2(excess_bits(n));
            let rounded = round_to_double(n);
            let quotient = rounded / unit;
            &&& unit > 0
            &&& n < 0x20_0000_0000_0000 * unit
            &&& unit > 1 ==> 0x10_0000_0000_0000 * unit <= n
            &&& rounded == quotient * unit
            &&& -(unit as int) <= 2 * (rounded - n) <= unit
            &&& 2 * (rounded - n) == unit || 2 * (n - rounded) == unit ==> quotient % 2 == 0
        }),
{
    let excess = excess_bits(n);
    let unit = pow2(excess);
    lemma_pow2_pos(excess);
    lemma_excess_range(n);
    lemma2_to64();
    lemma_fundamental_div_mod(n as int, unit as int);
    let quotient = n / unit;
    let rest = n % unit;
    let nearest = nearest_even_quotient(n, excess);
    assert(nearest * unit == quotient * unit || nearest * unit == quotient * unit + unit)
        by (nonlinear_arith)
        requires
            nearest == quotient || nearest == quotient + 1,
    ;
    assert(nearest == quotient + 1 ==> nearest * unit == quotient * unit + unit)
        by (nonlinear_arith);
    lemma_mul_is_commutative(unit as int, quotient as int);
    lemma_div_by_multiple(nearest as int, unit as int);
    if n < SIGNIFICAND_END {
        assert(excess == 0);
        assert(unit == 1);
        lemma_mul_basics(nearest as int);
    }
}

proof fn lemma_excess_range(n: nat)
    ensures
        n < 0x20_0000_0000_0000 * pow2(excess_bits(n)),
        excess_bits(n) > 0 ==> 0x10_0000_0000_0000 * pow2(excess_bits(n)) <= n,
        excess_bits(n) == 0 ==> pow2(excess_bits(n)) == 1,
        excess_bits(n) > 0 ==> pow2(excess_bits(n)) > 1,
    decreases n,
{
    lemma2_to64();
    if n >= SIGNIFICAND_END {
        let half = n / 2;
        let excess = excess_bits(half);
        lemma_excess_range(half);
        lemma_pow2_unfold(excess + 1);
        lemma_pow2_pos(excess);
    }
}

/// The product of a whole number and a fraction, cut to a machine word: the whole numbers up to the
/// rounded product, or the largest word where that is more. What is no number or below zero gives
/// zero; an infinity gives the largest word, but of zero.
pub proof fn law_truncation(whole: nat, factor: Real64)
    ensures
        factor.nan() || factor.negative() ==> truncated_product(whole, factor) == 0,
        !factor.finite() && !factor.nan() && !factor.negative() ==> truncated_product(whole, factor)
            == if whole == 0 {
            0
        } else {
            usize::MAX as nat
        },
        factor.finite() && !factor.negative() ==> {
            let width = truncated_product(whole, factor);
            let product = rounded_product(whole, factor);
            &&& width <= usize::MAX
            &&& width * pow2(1074) <= product
            &&& width < usize::MAX ==> product < (width + 1) * pow2(1074)
        },
        rounded_product(whole, factor) == round_to_double(
            round_to_double(whole) * factor.significand(),
        ) * pow2(factor.scale()),
        factor.significand() * pow2(factor.scale()) == factor.units(),
{
    lemma_pow2_pos(1074);
    let product = rounded_product(whole, factor);
    let floor = product / pow2(1074);
    lemma_fundamental_div_mod(product as int, pow2(1074) as int);
    lemma_mul_is_commutative(pow2(1074) as int, floor as int);
    if factor.finite() && !factor.negative() {
        let width = truncated_product(whole, factor);
        lemma_mul_inequality(width as int, floor as int, pow2(1074) as int);
        assert((floor + 1) * pow2(1074) == floor * pow2(1074) + pow2(1074)) by (nonlinear_arith);
    }
}

} // verus!
