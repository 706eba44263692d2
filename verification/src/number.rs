//! Numbers of the expression language: IEEE-754 binary64 values, held as their
//! bit patterns so that every rule about them is a statement about integers.

use rustc_apfloat::ieee::Double;
use rustc_apfloat::{Float, Round};
use vstd::arithmetic::div_mod::{lemma_basic_div, lemma_div_by_multiple, lemma_fundamental_div_mod};
use vstd::arithmetic::power2::{
    lemma2_to64, lemma2_to64_rest, lemma_pow2_adds, lemma_pow2_pos, lemma_pow2_strictly_increases,
    lemma_pow2_unfold, pow2,
};
use vstd::bits::{lemma_u64_shl_is_mul, lemma_u64_shr_is_div};
use vstd::prelude::*;
use vstd::std_specs::cmp::PartialEqSpecImpl;

verus! {

/// The sign bit of a binary64 pattern.
pub const SIGN_MASK: u64 = 0x8000_0000_0000_0000;

/// Everything but the sign bit.
pub const MAGNITUDE_MASK: u64 = 0x7fff_ffff_ffff_ffff;

/// The pattern of positive infinity: every pattern whose magnitude lies above it is a NaN.
pub const INFINITY_BITS: u64 = 0x7ff0_0000_0000_0000;

/// The 52 bits of the fraction.
pub const FRACTION_MASK: u64 = 0x000f_ffff_ffff_ffff;

/// The bit that a normal number's significand has above its fraction.
pub const IMPLICIT_BIT: u64 = 0x0010_0000_0000_0000;

/// A number, given by its binary64 bit pattern.
#[derive(Clone, Copy, Debug)]
pub struct Number {
    pub bits: u64,
}

/// Whether the pattern is a NaN.
pub open spec fn is_nan(bits: u64) -> bool {
    (bits & MAGNITUDE_MASK) > INFINITY_BITS
}

/// Whether the sign bit is set.
pub open spec fn is_negative(bits: u64) -> bool {
    (bits & SIGN_MASK) != 0
}

/// The place of a pattern that is no NaN on the number line of sign-magnitude
/// integers: both zeros share place 0, and a larger number has a larger place.
pub open spec fn rank(bits: u64) -> int {
    if is_negative(bits) {
        -((bits & MAGNITUDE_MASK) as int)
    } else {
        (bits & MAGNITUDE_MASK) as int
    }
}

/// Numeric equality: false as soon as one side is a NaN, and true of the two zeros.
pub open spec fn number_eq(a: u64, b: u64) -> bool {
    !is_nan(a) && !is_nan(b) && rank(a) == rank(b)
}

/// Numeric `<`: false as soon as one side is a NaN.
pub open spec fn number_lt(a: u64, b: u64) -> bool {
    !is_nan(a) && !is_nan(b) && rank(a) < rank(b)
}

/// Numeric `<=`: false as soon as one side is a NaN.
pub open spec fn number_le(a: u64, b: u64) -> bool {
    !is_nan(a) && !is_nan(b) && rank(a) <= rank(b)
}

/// The pattern with its sign bit flipped.
pub open spec fn negated(bits: u64) -> u64 {
    bits ^ SIGN_MASK
}

/// The exponent field of a pattern.
pub open spec fn exponent_field(bits: u64) -> int {
    ((bits >> 52) & 0x7ff) as int
}

/// The fraction field of a pattern.
pub open spec fn fraction_field(bits: u64) -> int {
    (bits & FRACTION_MASK) as int
}

/// Whether the pattern is one of the two infinities.
pub open spec fn is_infinite(bits: u64) -> bool {
    (bits & MAGNITUDE_MASK) == INFINITY_BITS
}

/// The significand of a finite pattern, as a whole number: the magnitude of
/// the number is `significand * 2^scale`.
pub open spec fn significand(bits: u64) -> int {
    if exponent_field(bits) == 0 {
        fraction_field(bits)
    } else {
        fraction_field(bits) + pow2(52)
    }
}

/// The power of two that scales the significand of a finite pattern.
pub open spec fn scale(bits: u64) -> int {
    if exponent_field(bits) == 0 {
        -1074
    } else {
        exponent_field(bits) - 1075
    }
}

/// The magnitude of a finite pattern without its fractional part.
pub open spec fn whole_magnitude(bits: u64) -> int {
    if scale(bits) >= 0 {
        significand(bits) * pow2(scale(bits) as nat)
    } else {
        significand(bits) / (pow2((-scale(bits)) as nat) as int)
    }
}

/// The magnitude of a pattern without its fractional part, as far as 64 bits
/// hold it: 0 for a NaN, and the largest value for what is too large.
pub open spec fn clamped_magnitude(bits: u64) -> int {
    if is_nan(bits) {
        0
    } else if is_infinite(bits) || whole_magnitude(bits) > u64::MAX {
        u64::MAX as int
    } else {
        whole_magnitude(bits)
    }
}

/// The number as an unsigned 32-bit integer: cut off towards zero, kept within
/// the range of the type, and 0 for a NaN.
pub open spec fn number_to_u32(bits: u64) -> u32 {
    if is_negative(bits) {
        0
    } else if clamped_magnitude(bits) > u32::MAX {
        u32::MAX
    } else {
        clamped_magnitude(bits) as u32
    }
}

/// The number of binary digits of a whole number.
pub open spec fn bit_length(n: nat) -> nat
    decreases n,
{
    if n == 0 {
        0
    } else {
        1 + bit_length(n / 2)
    }
}

/// A whole number without its last `shift` binary digits, rounded to the
/// nearest, a tie going to the even neighbour.
pub open spec fn rounded_shift(n: nat, shift: nat) -> nat {
    let quotient = n / pow2(shift);
    let rest = n % pow2(shift);
    if 2 * rest > pow2(shift) || (2 * rest == pow2(shift) && quotient % 2 == 1) {
        quotient + 1
    } else {
        quotient
    }
}

/// Whether binary64 holds the whole number exactly: it has at most 53 binary
/// digits, or those after the first 53 are all zero.
pub open spec fn is_representable(n: nat) -> bool {
    bit_length(n) <= 53 || n % pow2((bit_length(n) - 53) as nat) == 0
}

/// The pattern of the binary64 number nearest to a whole number, a tie going
/// to the neighbour with the even significand: the whole number itself where
/// binary64 holds it.
pub open spec fn number_of_whole(n: nat) -> int {
    let length = bit_length(n);
    if n == 0 {
        0
    } else if length <= 53 {
        (1022 + length) * pow2(52) + (n * pow2((53 - length) as nat) - pow2(52))
    } else {
        (1022 + length) * pow2(52) + (rounded_shift(n, (length - 53) as nat) - pow2(52))
    }
}

/// The pattern of the binary64 number nearest to an integer.
pub open spec fn number_of_int(x: int) -> int {
    if x < 0 {
        SIGN_MASK + number_of_whole((-x) as nat)
    } else {
        number_of_whole(x as nat)
    }
}

/// The number as an unsigned integer of at most `max`: cut off towards zero,
/// kept within the range, and 0 for a NaN.
pub open spec fn number_to_unsigned(bits: u64, max: int) -> int {
    if is_negative(bits) {
        0
    } else if clamped_magnitude(bits) > max {
        max
    } else {
        clamped_magnitude(bits)
    }
}

/// The number as a signed integer between `min` and `max`: cut off towards
/// zero, kept within the range, and 0 for a NaN.
pub open spec fn number_to_signed(bits: u64, min: int, max: int) -> int {
    if is_negative(bits) {
        if clamped_magnitude(bits) > -min {
            min
        } else {
            -clamped_magnitude(bits)
        }
    } else if clamped_magnitude(bits) > max {
        max
    } else {
        clamped_magnitude(bits)
    }
}

/// The binary64 sum of two patterns, rounded to nearest, ties to even.
pub uninterp spec fn number_sum(a: u64, b: u64) -> u64;

/// The binary64 product of two patterns, rounded to nearest, ties to even.
pub uninterp spec fn number_product(a: u64, b: u64) -> u64;

/// The binary64 quotient of two patterns, rounded to nearest, ties to even.
pub uninterp spec fn number_quotient(a: u64, b: u64) -> u64;

/// The nearest whole number to a pattern, halves going away from zero.
pub uninterp spec fn number_rounded(a: u64) -> u64;

/// The difference of two patterns: the sum of the first and the negated second.
pub open spec fn number_difference(a: u64, b: u64) -> u64 {
    number_sum(a, negated(b))
}

/// Adds the two patterns as `rustc_apfloat`'s `Double` does, rounding to
/// nearest, ties to even. The result is taken to be a function of the two
/// patterns alone, named `number_sum`.
#[verifier::external_body]
fn soft_sum(a: u64, b: u64) -> (r: u64)
    ensures
        r == number_sum(a, b),
{
    (Double::from_bits(a.into()) + Double::from_bits(b.into())).value.to_bits() as u64
}

/// Multiplies the two patterns as `rustc_apfloat`'s `Double` does, rounding to
/// nearest, ties to even. The result is taken to be a function of the two
/// patterns alone, named `number_product`.
#[verifier::external_body]
fn soft_product(a: u64, b: u64) -> (r: u64)
    ensures
        r == number_product(a, b),
{
    (Double::from_bits(a.into()) * Double::from_bits(b.into())).value.to_bits() as u64
}

/// Divides the first pattern by the second as `rustc_apfloat`'s `Double` does,
/// rounding to nearest, ties to even. The result is taken to be a function of
/// the two patterns alone, named `number_quotient`.
#[verifier::external_body]
fn soft_quotient(a: u64, b: u64) -> (r: u64)
    ensures
        r == number_quotient(a, b),
{
    (Double::from_bits(a.into()) / Double::from_bits(b.into())).value.to_bits() as u64
}

/// Calls `round_to_integral` of `rustc_apfloat`'s `Double` on the pattern, with
/// halves going away from zero. The result is taken to be a function of the
/// pattern alone, named `number_rounded`.
#[verifier::external_body]
fn soft_rounded(a: u64) -> (r: u64)
    ensures
        r == number_rounded(a),
{
    Double::from_bits(a.into()).round_to_integral(Round::NearestTiesToAway).value.to_bits() as u64
}

/// What the fields of a pattern are, in terms of its bits.
proof fn lemma_fields(bits: u64)
    ensures
        0 <= exponent_field(bits) < 2048,
        0 <= fraction_field(bits) < pow2(52),
        pow2(52) == IMPLICIT_BIT,
        ((bits & FRACTION_MASK) | IMPLICIT_BIT) == fraction_field(bits) + pow2(52),
        is_nan(bits) <==> exponent_field(bits) == 2047 && fraction_field(bits) != 0,
        is_infinite(bits) <==> exponent_field(bits) == 2047 && fraction_field(bits) == 0,
{
    lemma2_to64_rest();
    let e = (bits >> 52) & 0x7ff;
    let f = bits & FRACTION_MASK;
    let m = bits & MAGNITUDE_MASK;
    assert(e < 2048 && f < 0x0010_0000_0000_0000 && (f | 0x0010_0000_0000_0000) == f
        + 0x0010_0000_0000_0000) by (bit_vector)
        requires
            e == (bits >> 52) & 0x7ff,
            f == bits & 0x000f_ffff_ffff_ffff,
    ;
    assert((m > 0x7ff0_0000_0000_0000 <==> e == 2047 && f != 0) && (m == 0x7ff0_0000_0000_0000
        <==> e == 2047 && f == 0)) by (bit_vector)
        requires
            e == (bits >> 52) & 0x7ff,
            f == bits & 0x000f_ffff_ffff_ffff,
            m == bits & 0x7fff_ffff_ffff_ffff,
    ;
}

/// A whole number with `length` binary digits lies between the two powers of two.
pub proof fn lemma_bit_length_bounds(n: nat)
    requires
        n > 0,
    ensures
        bit_length(n) >= 1,
        pow2((bit_length(n) - 1) as nat) <= n < pow2(bit_length(n)),
    decreases n,
{
    lemma2_to64();
    if n == 1 {
        assert(bit_length(1) == 1 + bit_length(0));
    } else {
        lemma_bit_length_bounds(n / 2);
        lemma_pow2_unfold(bit_length(n));
        lemma_pow2_unfold(bit_length(n / 2));
    }
}

/// The fields of a pattern that is put together from an exponent and a fraction.
proof fn lemma_packed_fields(exponent: u64, fraction: u64)
    requires
        exponent < 2047,
        fraction < pow2(52),
    ensures
        exponent * pow2(52) + fraction <= u64::MAX,
        exponent_field((exponent * pow2(52) + fraction) as u64) == exponent,
        fraction_field((exponent * pow2(52) + fraction) as u64) == fraction,
        !is_negative((exponent * pow2(52) + fraction) as u64),
        !is_nan((exponent * pow2(52) + fraction) as u64),
        !is_infinite((exponent * pow2(52) + fraction) as u64),
{
    lemma2_to64_rest();
    let bits: u64 = (exponent * 0x0010_0000_0000_0000 + fraction) as u64;
    assert(((bits >> 52) & 0x7ff) == exponent && (bits & 0x000f_ffff_ffff_ffff) == fraction && (bits
        & 0x8000_0000_0000_0000) == 0) by (bit_vector)
        requires
            exponent < 2047,
            fraction < 0x0010_0000_0000_0000,
            bits == exponent * 0x0010_0000_0000_0000 + fraction,
    ;
    lemma_fields(bits);
}

/// The sign bit changes nothing but the sign.
pub proof fn lemma_sign_keeps_magnitude(bits: u64)
    requires
        bits < SIGN_MASK,
    ensures
        !is_negative(bits),
        is_negative((SIGN_MASK + bits) as u64),
        is_nan((SIGN_MASK + bits) as u64) == is_nan(bits),
        clamped_magnitude((SIGN_MASK + bits) as u64) == clamped_magnitude(bits),
{
    let signed: u64 = (0x8000_0000_0000_0000 + bits) as u64;
    assert((bits & 0x8000_0000_0000_0000) == 0 && (signed & 0x8000_0000_0000_0000) != 0 && (signed
        & 0x7fff_ffff_ffff_ffff) == (bits & 0x7fff_ffff_ffff_ffff) && ((signed >> 52) & 0x7ff) == ((
    bits >> 52) & 0x7ff) && (signed & 0x000f_ffff_ffff_ffff) == (bits & 0x000f_ffff_ffff_ffff))
        by (bit_vector)
        requires
            bits < 0x8000_0000_0000_0000,
            signed == 0x8000_0000_0000_0000 + bits,
    ;
}

/// The pattern of a whole number of 64 bits has its sign bit clear.
pub proof fn lemma_whole_is_positive(n: nat)
    requires
        n <= u64::MAX,
    ensures
        0 <= number_of_whole(n) < SIGN_MASK,
{
    lemma2_to64();
    lemma2_to64_rest();
    if n > 0 {
        let length = bit_length(n);
        lemma_bit_length_bounds(n);
        if length > 64 {
            lemma_pow2_strictly_increases(64, (length - 1) as nat);
        }
        if length <= 53 {
            let k = (53 - length) as nat;
            lemma_pow2_adds((length - 1) as nat, k);
            lemma_pow2_adds(length, k);
            lemma_pow2_pos(k);
            assert(pow2(52) <= n * pow2(k) < pow2(53)) by (nonlinear_arith)
                requires
                    pow2((length - 1) as nat) <= n < pow2(length),
                    pow2((length - 1) as nat) * pow2(k) == pow2(52),
                    pow2(length) * pow2(k) == pow2(53),
                    pow2(k) > 0,
            ;
        } else {
            let k = (length - 53) as nat;
            lemma_pow2_pos(k);
            lemma_fundamental_div_mod(n as int, pow2(k) as int);
            lemma_pow2_adds(52, k);
            lemma_pow2_adds(53, k);
            assert(pow2(52) <= n / pow2(k) < pow2(53)) by (nonlinear_arith)
                requires
                    pow2((length - 1) as nat) <= n < pow2(length),
                    pow2(52) * pow2(k) == pow2((length - 1) as nat),
                    pow2(53) * pow2(k) == pow2(length),
                    n == pow2(k) * (n / pow2(k)) + n % pow2(k),
                    0 <= n % pow2(k) < pow2(k),
            ;
        }
    }
}

/// A whole number below `2^53` has at most 53 binary digits, so binary64 holds it.
pub proof fn lemma_small_is_representable(n: nat)
    requires
        n < pow2(53),
    ensures
        is_representable(n),
{
    if n > 0 {
        lemma_bit_length_bounds(n);
        if bit_length(n) > 53 {
            if bit_length(n) > 54 {
                lemma_pow2_strictly_increases(53, (bit_length(n) - 1) as nat);
            }
        }
    }
}

/// Binary64 gives back every integer that it holds exactly.
pub proof fn lemma_int_round_trip(x: int)
    requires
        -SIGN_MASK <= x <= u64::MAX,
        is_representable((if x < 0 { -x } else { x }) as nat),
    ensures
        0 <= number_of_int(x) <= u64::MAX,
        !is_nan(number_of_int(x) as u64),
        x < 0 ==> is_negative(number_of_int(x) as u64),
        x > 0 ==> !is_negative(number_of_int(x) as u64),
        clamped_magnitude(number_of_int(x) as u64) == (if x < 0 { -x } else { x }),
{
    let n = (if x < 0 { -x } else { x }) as nat;
    lemma_whole_round_trip(n);
    lemma_whole_is_positive(n);
    if x < 0 {
        lemma_sign_keeps_magnitude(number_of_whole(n) as u64);
    }
}

/// Binary64 gives back every whole number that it holds exactly.
pub proof fn lemma_whole_round_trip(n: nat)
    requires
        n <= u64::MAX,
        is_representable(n),
    ensures
        0 <= number_of_whole(n) <= u64::MAX,
        !is_nan(number_of_whole(n) as u64),
        !is_negative(number_of_whole(n) as u64),
        clamped_magnitude(number_of_whole(n) as u64) == n,
{
    lemma2_to64();
    lemma2_to64_rest();
    if n == 0 {
        lemma_fields(0);
        assert(exponent_field(0) == 0 && fraction_field(0) == 0) by {
            assert((0u64 >> 52) & 0x7ff == 0 && 0u64 & 0x000f_ffff_ffff_ffff == 0) by (bit_vector);
        }
        assert(0u64 & 0x8000_0000_0000_0000 == 0) by (bit_vector);
        lemma_pow2_pos(1074);
        lemma_basic_div(0, pow2(1074) as int);
    } else {
        let length = bit_length(n);
        lemma_bit_length_bounds(n);
        assert(length <= 64) by {
            if length > 64 {
                lemma_pow2_strictly_increases(64, (length - 1) as nat);
            }
        }
        if length <= 53 {
            let k = (53 - length) as nat;
            let m = n * pow2(k);
            lemma_pow2_adds((length - 1) as nat, k);
            lemma_pow2_adds(length, k);
            lemma_pow2_pos(k);
            assert(pow2(52) <= m < pow2(53)) by (nonlinear_arith)
                requires
                    pow2((length - 1) as nat) <= n < pow2(length),
                    pow2((length - 1) as nat) * pow2(k) == pow2(52),
                    pow2(length) * pow2(k) == pow2(53),
                    m == n * pow2(k),
                    pow2(k) > 0,
            ;
            lemma_packed_fields((1022 + length) as u64, (m - pow2(52)) as u64);
            let bits = number_of_whole(n) as u64;
            assert(significand(bits) == m);
            assert(scale(bits) == -(k as int));
            if k == 0 {
                assert(m == n) by (nonlinear_arith)
                    requires
                        m == n * pow2(k),
                        pow2(k) == 1,
                ;
                assert(m * pow2(0) == m) by (nonlinear_arith)
                    requires
                        pow2(0) == 1,
                ;
            } else {
                lemma_div_by_multiple(n as int, pow2(k) as int);
            }
        } else {
            let k = (length - 53) as nat;
            let q = n / pow2(k);
            lemma_pow2_pos(k);
            lemma_fundamental_div_mod(n as int, pow2(k) as int);
            lemma_pow2_adds(52, k);
            lemma_pow2_adds(53, k);
            assert(pow2(52) <= q < pow2(53)) by (nonlinear_arith)
                requires
                    pow2((length - 1) as nat) <= n < pow2(length),
                    pow2(52) * pow2(k) == pow2((length - 1) as nat),
                    pow2(53) * pow2(k) == pow2(length),
                    n == pow2(k) * q,
                    pow2(k) > 0,
            ;
            assert(rounded_shift(n, k) == q);
            lemma_packed_fields((1022 + length) as u64, (q - pow2(52)) as u64);
            let bits = number_of_whole(n) as u64;
            assert(significand(bits) == q);
            assert(scale(bits) == k);
            assert(q * pow2(k) == n) by (nonlinear_arith)
                requires
                    n == pow2(k) * q,
            ;
        }
    }
}

impl Number {
    /// The number with the given bit pattern.
    pub fn from_bits(bits: u64) -> (r: Number)
        ensures
            r.bits == bits,
    {
        Number { bits }
    }

    /// The bit pattern of the number.
    pub fn to_bits(self) -> (r: u64)
        ensures
            r == self.bits,
    {
        self.bits
    }

    /// Whether the number is a NaN.
    pub fn is_nan(self) -> (r: bool)
        ensures
            r == is_nan(self.bits),
    {
        (self.bits & MAGNITUDE_MASK) > INFINITY_BITS
    }

    /// The number with the opposite sign.
    pub fn negate(self) -> (r: Number)
        ensures
            r.bits == negated(self.bits),
    {
        Number { bits: self.bits ^ SIGN_MASK }
    }

    /// `self + rhs`.
    pub fn plus(self, rhs: Number) -> (r: Number)
        ensures
            r.bits == number_sum(self.bits, rhs.bits),
    {
        Number { bits: soft_sum(self.bits, rhs.bits) }
    }

    /// `self - rhs`.
    pub fn minus(self, rhs: Number) -> (r: Number)
        ensures
            r.bits == number_difference(self.bits, rhs.bits),
    {
        self.plus(rhs.negate())
    }

    /// `self * rhs`.
    pub fn times(self, rhs: Number) -> (r: Number)
        ensures
            r.bits == number_product(self.bits, rhs.bits),
    {
        Number { bits: soft_product(self.bits, rhs.bits) }
    }

    /// `self / rhs`.
    pub fn divided_by(self, rhs: Number) -> (r: Number)
        ensures
            r.bits == number_quotient(self.bits, rhs.bits),
    {
        Number { bits: soft_quotient(self.bits, rhs.bits) }
    }

    /// The nearest whole number, halves going away from zero.
    pub fn round(self) -> (r: Number)
        ensures
            r.bits == number_rounded(self.bits),
    {
        Number { bits: soft_rounded(self.bits) }
    }

    /// The magnitude of the number without its fractional part, as far as 64
    /// bits hold it.
    pub fn magnitude(self) -> (r: u64)
        ensures
            r == clamped_magnitude(self.bits),
    {
        let bits = self.bits;
        let e: u64 = (bits >> 52) & 0x7ff;
        let f: u64 = bits & FRACTION_MASK;
        proof {
            lemma_fields(bits);
            lemma2_to64();
            lemma2_to64_rest();
        }
        if self.is_nan() {
            return 0;
        }
        if e < 1023 {
            proof {
                let k = (-scale(bits)) as nat;
                assert(k >= 53);
                if k > 53 {
                    lemma_pow2_strictly_increases(53, k);
                }
                assert(significand(bits) < pow2(53));
                lemma_basic_div(significand(bits), pow2(k) as int);
            }
            return 0;
        }
        if e >= 1087 {
            proof {
                if !is_infinite(bits) {
                    let k = scale(bits) as nat;
                    assert(k >= 12);
                    if k > 12 {
                        lemma_pow2_strictly_increases(12, k);
                    }
                    assert(significand(bits) * pow2(k) >= pow2(52) * pow2(12)) by (nonlinear_arith)
                        requires
                            significand(bits) >= pow2(52),
                            pow2(k) >= pow2(12),
                    ;
                }
            }
            return u64::MAX;
        }
        let m: u64 = f | IMPLICIT_BIT;
        if e >= 1075 {
            let shift: u64 = e - 1075;
            proof {
                assert(pow2(shift as nat) <= pow2(11)) by {
                    if shift < 11 {
                        lemma_pow2_strictly_increases(shift as nat, 11);
                    }
                }
                assert(m * pow2(shift as nat) <= u64::MAX) by (nonlinear_arith)
                    requires
                        m < 0x0020_0000_0000_0000,
                        pow2(shift as nat) <= 0x800,
                ;
                lemma_u64_shl_is_mul(m, shift);
            }
            m << shift
        } else {
            let shift: u64 = 1075 - e;
            proof {
                lemma_u64_shr_is_div(m, shift);
            }
            m >> shift
        }
    }

    /// The number as an unsigned 32-bit integer: cut off towards zero, kept
    /// within the range of the type, and 0 for a NaN.
    pub fn to_u32(self) -> (r: u32)
        ensures
            r == number_to_u32(self.bits),
    {
        if (self.bits & SIGN_MASK) != 0 {
            return 0;
        }
        let m = self.magnitude();
        if m > 0xffff_ffff {
            u32::MAX
        } else {
            m as u32
        }
    }

    /// The number nearest to a whole number, a tie going to the neighbour with
    /// the even significand.
    pub fn from_magnitude(n: u64) -> (r: Number)
        ensures
            r.bits == number_of_whole(n as nat),
    {
        if n == 0 {
            return Number { bits: 0 };
        }
        proof {
            lemma2_to64();
            lemma2_to64_rest();
            lemma_bit_length_bounds(n as nat);
            if bit_length(n as nat) > 64 {
                lemma_pow2_strictly_increases(64, (bit_length(n as nat) - 1) as nat);
            }
        }
        let mut length: u64 = 0;
        let mut rest: u64 = n;
        while rest != 0
            invariant
                bit_length(n as nat) == length + bit_length(rest as nat),
                bit_length(n as nat) <= 64,
            decreases rest,
        {
            rest = rest / 2;
            length = length + 1;
        }
        let top: u64 = (1022 + length) * IMPLICIT_BIT;
        if length <= 53 {
            let k: u64 = 53 - length;
            let factor: u64 = 1u64 << k;
            proof {
                assert(pow2(k as nat) <= pow2(52)) by {
                    if k < 52 {
                        lemma_pow2_strictly_increases(k as nat, 52);
                    }
                }
                lemma_u64_shl_is_mul(1, k);
                lemma_pow2_adds((length - 1) as nat, k as nat);
                lemma_pow2_adds(length as nat, k as nat);
                assert(pow2(52) <= n * factor < pow2(53)) by (nonlinear_arith)
                    requires
                        pow2((length - 1) as nat) <= n < pow2(length as nat),
                        pow2((length - 1) as nat) * pow2(k as nat) == pow2(52),
                        pow2(length as nat) * pow2(k as nat) == pow2(53),
                        factor == pow2(k as nat),
                        factor > 0,
                ;
            }
            Number { bits: top + (n * factor - IMPLICIT_BIT) }
        } else {
            let k: u64 = length - 53;
            let divisor: u64 = 1u64 << k;
            proof {
                assert(pow2(k as nat) <= pow2(11)) by {
                    if k < 11 {
                        lemma_pow2_strictly_increases(k as nat, 11);
                    }
                }
                lemma_u64_shl_is_mul(1, k);
                lemma_pow2_unfold(k as nat);
                lemma_fundamental_div_mod(n as int, divisor as int);
                lemma_pow2_adds(52, k as nat);
                lemma_pow2_adds(53, k as nat);
                assert(pow2(52) <= n / divisor < pow2(53)) by (nonlinear_arith)
                    requires
                        pow2((length - 1) as nat) <= n < pow2(length as nat),
                        pow2(52) * pow2(k as nat) == pow2((length - 1) as nat),
                        pow2(53) * pow2(k as nat) == pow2(length as nat),
                        n == divisor * (n / divisor) + n % divisor,
                        0 <= n % divisor < divisor,
                        divisor == pow2(k as nat),
                ;
            }
            let quotient: u64 = n / divisor;
            let rest: u64 = n % divisor;
            let half: u64 = divisor / 2;
            let up = rest > half || (rest == half && quotient % 2 == 1);
            let rounded: u64 = if up {
                quotient + 1
            } else {
                quotient
            };
            Number { bits: top + (rounded - IMPLICIT_BIT) }
        }
    }

    /// The number nearest to an integer.
    pub fn from_i64(x: i64) -> (r: Number)
        ensures
            r.bits == number_of_int(x as int),
    {
        if x >= 0 {
            Number::from_magnitude(x as u64)
        } else {
            let magnitude: u64 = if x == i64::MIN {
                SIGN_MASK
            } else {
                (-x) as u64
            };
            let whole = Number::from_magnitude(magnitude);
            proof {
                lemma_whole_is_positive(magnitude as nat);
            }
            Number { bits: SIGN_MASK + whole.bits }
        }
    }

    /// The number as an unsigned integer of 64 bits: cut off towards zero,
    /// kept within the range of the type, and 0 for a NaN.
    pub fn to_u64(self) -> (r: u64)
        ensures
            r == number_to_unsigned(self.bits, u64::MAX as int),
    {
        if (self.bits & SIGN_MASK) != 0 {
            0
        } else {
            self.magnitude()
        }
    }

    /// The number as a signed integer of 64 bits: cut off towards zero, kept
    /// within the range of the type, and 0 for a NaN.
    pub fn to_i64(self) -> (r: i64)
        ensures
            r == number_to_signed(self.bits, i64::MIN as int, i64::MAX as int),
    {
        let m = self.magnitude();
        if (self.bits & SIGN_MASK) != 0 {
            if m >= SIGN_MASK {
                i64::MIN
            } else {
                -(m as i64)
            }
        } else if m > 0x7fff_ffff_ffff_ffff {
            i64::MAX
        } else {
            m as i64
        }
    }

    /// The number as a signed integer of 32 bits: cut off towards zero, kept
    /// within the range of the type, and 0 for a NaN.
    pub fn to_i32(self) -> (r: i32)
        ensures
            r == number_to_signed(self.bits, i32::MIN as int, i32::MAX as int),
    {
        let m = self.magnitude();
        if (self.bits & SIGN_MASK) != 0 {
            if m >= 0x8000_0000 {
                i32::MIN
            } else {
                -(m as i32)
            }
        } else if m > 0x7fff_ffff {
            i32::MAX
        } else {
            m as i32
        }
    }

    /// The number as an unsigned integer of the machine's word size: cut off
    /// towards zero, kept within the range of the type, and 0 for a NaN.
    pub fn to_usize(self) -> (r: usize)
        ensures
            r == number_to_unsigned(self.bits, usize::MAX as int),
    {
        let wide = self.to_u64();
        if wide > usize::MAX as u64 {
            usize::MAX
        } else {
            wide as usize
        }
    }

    /// The number as a signed integer of the machine's word size: cut off
    /// towards zero, kept within the range of the type, and 0 for a NaN.
    pub fn to_isize(self) -> (r: isize)
        ensures
            r == number_to_signed(self.bits, isize::MIN as int, isize::MAX as int),
    {
        let m = self.magnitude();
        if (self.bits & SIGN_MASK) != 0 {
            if m > isize::MAX as u64 {
                isize::MIN
            } else {
                -(m as isize)
            }
        } else if m > isize::MAX as u64 {
            isize::MAX
        } else {
            m as isize
        }
    }

    /// Numeric equality.
    pub fn equals(self, rhs: Number) -> (r: bool)
        ensures
            r == number_eq(self.bits, rhs.bits),
    {
        if self.is_nan() || rhs.is_nan() {
            return false;
        }
        let a: u64 = self.bits & MAGNITUDE_MASK;
        let b: u64 = rhs.bits & MAGNITUDE_MASK;
        let a_negative = (self.bits & SIGN_MASK) != 0;
        let b_negative = (rhs.bits & SIGN_MASK) != 0;
        if a_negative == b_negative {
            a == b
        } else {
            a == 0 && b == 0
        }
    }

    /// Numeric `<`.
    pub fn less_than(self, rhs: Number) -> (r: bool)
        ensures
            r == number_lt(self.bits, rhs.bits),
    {
        if self.is_nan() || rhs.is_nan() {
            return false;
        }
        let a: u64 = self.bits & MAGNITUDE_MASK;
        let b: u64 = rhs.bits & MAGNITUDE_MASK;
        let a_negative = (self.bits & SIGN_MASK) != 0;
        let b_negative = (rhs.bits & SIGN_MASK) != 0;
        if a_negative {
            if b_negative {
                b < a
            } else {
                a != 0 || b != 0
            }
        } else {
            if b_negative {
                false
            } else {
                a < b
            }
        }
    }

    /// Numeric `<=`.
    pub fn at_most(self, rhs: Number) -> (r: bool)
        ensures
            r == number_le(self.bits, rhs.bits),
    {
        if self.is_nan() || rhs.is_nan() {
            return false;
        }
        let a: u64 = self.bits & MAGNITUDE_MASK;
        let b: u64 = rhs.bits & MAGNITUDE_MASK;
        let a_negative = (self.bits & SIGN_MASK) != 0;
        let b_negative = (rhs.bits & SIGN_MASK) != 0;
        if a_negative {
            if b_negative {
                b <= a
            } else {
                true
            }
        } else {
            if b_negative {
                a == 0 && b == 0
            } else {
                a <= b
            }
        }
    }
}

impl PartialEq for Number {
    fn eq(&self, other: &Number) -> (r: bool) {
        self.equals(*other)
    }
}

impl PartialEqSpecImpl for Number {
    open spec fn obeys_eq_spec() -> bool {
        true
    }

    open spec fn eq_spec(&self, other: &Number) -> bool {
        number_eq(self.bits, other.bits)
    }
}

} // verus!
