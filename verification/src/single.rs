//! Single-precision numbers, carried as their IEEE 754 bit patterns.
//!
//! The crate moves such numbers around and makes a few of them from integers. Both need no more
//! than the bits, so that is what [`Single`] holds.
use vstd::prelude::*;
use vstd::arithmetic::power2::{lemma2_to64, lemma2_to64_rest, lemma_pow2_pos, lemma_pow2_strictly_increases, lemma_pow2_unfold, pow2};

verus! {

/// A single-precision number, by its bit pattern.
#[derive(Clone, Copy, Debug, PartialEq, Eq, Structural)]
pub struct Single {
    pub bits: u32,
}

/// The bits of 0.0.
pub const ZERO_BITS: u32 = 0;

/// The bits of 0.1.
pub const TENTH_BITS: u32 = 0x3dcc_cccd;

/// The bits of 0.5.
pub const HALF_BITS: u32 = 0x3f00_0000;

/// The bits of 1.0.
pub const ONE_BITS: u32 = 0x3f80_0000;

/// The number with the given bits.
pub open spec fn single(bits: u32) -> Single {
    Single { bits }
}

/// `num / den` rounded to the nearest integer, ties going to the even neighbour.
pub open spec fn round_half_even(num: nat, den: nat) -> nat {
    let quotient = num / den;
    let remainder = num % den;
    if 2 * remainder < den || (2 * remainder == den && quotient % 2 == 0) {
        quotient
    } else {
        quotient + 1
    }
}

/// How often `den` can be doubled without passing `num`.
pub open spec fn halvings(num: nat, den: nat) -> nat
    decreases num - den,
{
    if den == 0 || num < 2 * den {
        0
    } else {
        1 + halvings(num, 2 * den)
    }
}

/// How often `num` has to be doubled to reach `den`.
pub open spec fn doublings(num: nat, den: nat) -> nat
    decreases (if num < den { den - num } else { 0 }),
{
    if num == 0 || num >= den {
        0
    } else {
        1 + doublings(2 * num, den)
    }
}

/// The exponent `e` with `2^e <= num / den < 2^(e + 1)`.
pub open spec fn exponent(num: nat, den: nat) -> int {
    halvings(num, den) - doublings(num, den)
}

/// `num / den`, scaled by its exponent into `[1, 2)` and rounded to 23 binary places.
pub open spec fn significand(num: nat, den: nat) -> nat {
    round_half_even(
        num * pow2(doublings(num, den)) * 0x80_0000,
        den * pow2(halvings(num, den)),
    )
}

/// The bits of the single-precision number nearest to `num / den`, for a quotient that is zero
/// or whose exponent a normal number can have. A significand that rounds up to 2 carries into
/// the exponent, as the sum shows.
pub open spec fn nearest_bits(num: nat, den: nat) -> int {
    if num == 0 {
        0
    } else {
        (exponent(num, den) + 127) * 0x80_0000 + (significand(num, den) - 0x80_0000)
    }
}

/// Whether the number with these bits is at most zero: a zero of either sign, or a negative
/// number down to minus infinity. A NaN is not.
pub open spec fn at_most_zero(bits: u32) -> bool {
    bits == 0 || 0x8000_0000 <= bits <= 0xff80_0000
}

/// What a quotient is rounded to is at most half a unit away from it.
pub proof fn law_rounding_is_nearest(num: nat, den: nat)
    requires
        den > 0,
    ensures
        2 * (round_half_even(num, den) * den - num) <= den,
        2 * (num - round_half_even(num, den) * den) <= den,
{
    let quotient = num / den;
    let remainder = num % den;
    vstd::arithmetic::div_mod::lemma_fundamental_div_mod(num as int, den as int);
    assert((quotient + 1) * den == quotient * den + den) by (nonlinear_arith);
    assert(den * quotient == quotient * den) by (nonlinear_arith);
}

/// Doubling `den` as often as `halvings` says stays at or below `num`, and once more passes it.
proof fn lemma_halvings(num: nat, den: nat)
    requires
        0 < den <= num,
    ensures
        den * pow2(halvings(num, den)) <= num < 2 * (den * pow2(halvings(num, den))),
    decreases num - den,
{
    lemma2_to64();
    if num < 2 * den {
        assert(den * 1 == den);
    } else {
        lemma_halvings(num, 2 * den);
        let rest = halvings(num, 2 * den);
        lemma_pow2_unfold(rest + 1);
        assert(den * (2 * pow2(rest)) == (2 * den) * pow2(rest)) by (nonlinear_arith);
    }
}

/// Doubling `num` as often as `doublings` says reaches `den`, and once less does not.
proof fn lemma_doublings(num: nat, den: nat)
    requires
        0 < num < den,
    ensures
        den <= num * pow2(doublings(num, den)) < 2 * den,
    decreases den - num,
{
    lemma2_to64();
    let rest = doublings(2 * num, den);
    lemma_pow2_unfold(rest + 1);
    assert(num * (2 * pow2(rest)) == (2 * num) * pow2(rest)) by (nonlinear_arith);
    if 2 * num >= den {
        assert((2 * num) * 1 == 2 * num);
    } else {
        lemma_doublings(2 * num, den);
    }
}

/// The scaling that [`exponent`] stands for brings every quotient into `[1, 2)`.
pub proof fn law_exponent_normalises(num: nat, den: nat)
    requires
        num > 0,
        den > 0,
    ensures
        den * pow2(halvings(num, den)) <= num * pow2(doublings(num, den)) < 2 * (den * pow2(
            halvings(num, den),
        )),
        halvings(num, den) == 0 || doublings(num, den) == 0,
{
    lemma2_to64();
    assert(num * 1 == num && den * 1 == den);
    if num >= den {
        lemma_halvings(num, den);
    } else {
        lemma_doublings(num, den);
    }
}

/// A power of two below 2^33 has an exponent of at most 32.
proof fn lemma_small_power(e: nat)
    requires
        pow2(e) < 0x2_0000_0000,
    ensures
        e <= 32,
{
    lemma2_to64_rest();
    if e > 33 {
        lemma_pow2_strictly_increases(33, e);
    }
}

/// A larger numerator can be halved at least as often.
proof fn lemma_halvings_monotone(a: nat, b: nat, den: nat)
    requires
        a <= b,
        den > 0,
    ensures
        halvings(a, den) <= halvings(b, den),
    decreases (if a >= den { a - den } else { 0 }),
{
    if a >= 2 * den {
        lemma_halvings_monotone(a, b, 2 * den);
    }
}

/// A larger numerator needs at most as many doublings.
pub(crate) proof fn lemma_doublings_monotone(a: nat, b: nat, den: nat)
    requires
        0 < a <= b,
    ensures
        doublings(b, den) <= doublings(a, den),
    decreases (if a < den { den - a } else { 0 }),
{
    if b < den {
        lemma_doublings_monotone(2 * a, 2 * b, den);
    }
}

/// A larger numerator rounds to at least as much.
proof fn lemma_round_monotone(a: nat, b: nat, den: nat)
    requires
        a <= b,
        den > 0,
    ensures
        round_half_even(a, den) <= round_half_even(b, den),
{
    let (qa, ra, qb, rb) = (a / den, a % den, b / den, b % den);
    vstd::arithmetic::div_mod::lemma_fundamental_div_mod(a as int, den as int);
    vstd::arithmetic::div_mod::lemma_fundamental_div_mod(b as int, den as int);
    vstd::arithmetic::div_mod::lemma_div_is_ordered(a as int, b as int, den as int);
    if qa == qb {
        assert(ra <= rb);
    }
}

/// A significand lies between 1 and 2, both included, in units of 2^-23.
proof fn lemma_significand_range(num: nat, den: nat)
    requires
        num > 0,
        den > 0,
    ensures
        0x80_0000 <= significand(num, den) <= 0x100_0000,
{
    law_exponent_normalises(num, den);
    let n = num * pow2(doublings(num, den));
    let d = den * pow2(halvings(num, den));
    lemma_pow2_pos(halvings(num, den));
    assert(d > 0) by (nonlinear_arith)
        requires
            d == den * pow2(halvings(num, den)),
            den > 0,
            pow2(halvings(num, den)) > 0,
    ;
    let scaled = n * 0x80_0000;
    assert(0x80_0000 <= scaled / d < 0x100_0000) by (nonlinear_arith)
        requires
            scaled == n * 0x80_0000,
            d <= n < 2 * d,
            d > 0,
    ;
}

/// The quotient of two 32-bit integers is at least 2^-32.
pub(crate) proof fn lemma_doublings_bound(num: nat, den: nat)
    requires
        num > 0,
        den <= 0xffff_ffff,
    ensures
        doublings(num, den) <= 32,
{
    if num < den {
        lemma_doublings(num, den);
        let p = pow2(doublings(num, den));
        assert(p <= num * p) by (nonlinear_arith)
            requires
                num > 0,
        ;
        lemma_small_power(doublings(num, den));
    }
}

/// No quotient is rounded below what a smaller quotient is rounded to. The bits of numbers that
/// are not negative are ordered as the numbers are.
pub proof fn law_rounding_keeps_order(a: u32, b: u32, den: u32)
    requires
        a <= b,
        den > 0,
    ensures
        nearest_bits(a as nat, den as nat) <= nearest_bits(b as nat, den as nat),
{
    let (a, b, den) = (a as nat, b as nat, den as nat);
    if b > 0 {
        lemma_significand_range(b, den);
        lemma_doublings_bound(b, den);
        if a > 0 {
            lemma_significand_range(a, den);
            lemma_halvings_monotone(a, b, den);
            lemma_doublings_monotone(a, b, den);
            if exponent(a, den) == exponent(b, den) {
                let p = pow2(doublings(b, den));
                let up = pow2(halvings(b, den));
                lemma_pow2_pos(halvings(b, den));
                assert(den * up > 0) by (nonlinear_arith)
                    requires
                        den > 0,
                        up > 0,
                ;
                assert(a * p * 0x80_0000 <= b * p * 0x80_0000) by (nonlinear_arith)
                    requires
                        a <= b,
                ;
                lemma_round_monotone(a * p * 0x80_0000, b * p * 0x80_0000, den * up);
            }
        }
    }
}

/// A quotient of at most one is rounded to a number between 0.0 and 1.0, and to 1.0 where it
/// is one.
pub proof fn law_proportion_is_rounded_to_unit_interval(num: u32, den: u32)
    requires
        num <= den,
        den > 0,
    ensures
        ZERO_BITS <= nearest_bits(num as nat, den as nat) <= ONE_BITS,
        num == den ==> nearest_bits(num as nat, den as nat) == ONE_BITS,
{
    let whole = den as nat;
    law_rounding_keeps_order(0, num, den);
    law_rounding_keeps_order(num, den, den);
    lemma2_to64();
    assert(halvings(whole, whole) == 0 && doublings(whole, whole) == 0);
    assert(whole * 1 == whole);
    let scaled = whole * 0x80_0000;
    assert(scaled / whole == 0x80_0000 && scaled % whole == 0) by (nonlinear_arith)
        requires
            scaled == whole * 0x80_0000,
            whole > 0,
    ;
}

impl Single {
    /// The number with the given bits.
    pub fn from_bits(bits: u32) -> (res: Single)
        ensures
            res == single(bits),
    {
        Single { bits }
    }

    /// The number nearest to `num / den`.
    pub fn from_ratio(num: u32, den: u32) -> (res: Single)
        requires
            den > 0,
        ensures
            res.bits == nearest_bits(num as nat, den as nat),
    {
        if num == 0 {
            return Single { bits: 0 };
        }
        let mut n: u64 = num as u64;
        let mut d: u64 = den as u64;
        let mut up: u32 = 0;
        let mut down: u32 = 0;
        proof {
            lemma2_to64();
            assert(d * 1 == d && n * 1 == n);
        }
        while n >= 2 * d
            invariant
                n == num,
                0 < den <= d < 0x1_0000_0000,
                d == den * pow2(up as nat),
                up <= 32,
                halvings(num as nat, den as nat) == up + halvings(num as nat, d as nat),
            decreases n - d,
        {
            proof {
                lemma_pow2_unfold((up + 1) as nat);
                let p = pow2(up as nat);
                assert(den * (2 * p) == 2 * (den * p)) by (nonlinear_arith);
                assert(2 * p <= den * (2 * p)) by (nonlinear_arith)
                    requires
                        den > 0,
                ;
                lemma_small_power((up + 1) as nat);
            }
            d = 2 * d;
            up = up + 1;
        }
        while n < d
            invariant
                0 < num <= n,
                0 < d < 0x1_0000_0000,
                n < 2 * d,
                n == num * pow2(down as nat),
                down <= 33,
                doublings(num as nat, d as nat) == down + doublings(n as nat, d as nat),
            decreases 2 * d - n,
        {
            proof {
                lemma_pow2_unfold((down + 1) as nat);
                let p = pow2(down as nat);
                assert(num * (2 * p) == 2 * (num * p)) by (nonlinear_arith);
                assert(2 * p <= num * (2 * p)) by (nonlinear_arith)
                    requires
                        num > 0,
                ;
                lemma_small_power((down + 1) as nat);
            }
            n = 2 * n;
            down = down + 1;
        }
        proof {
            law_exponent_normalises(num as nat, den as nat);
            if num < den {
                assert(halvings(num as nat, den as nat) == 0);
                assert(up == 0);
            } else {
                assert(doublings(num as nat, d as nat) == 0);
            }
        }
        let scaled: u64 = n * 0x80_0000;
        let quotient: u64 = scaled / d;
        let remainder: u64 = scaled % d;
        proof {
            assert(0x80_0000 <= quotient < 0x100_0000) by (nonlinear_arith)
                requires
                    quotient == scaled / d,
                    scaled == n * 0x80_0000,
                    d <= n < 2 * d,
                    d > 0,
            ;
        }
        let rounded: u64 = if 2 * remainder < d || (2 * remainder == d && quotient % 2 == 0) {
            quotient
        } else {
            quotient + 1
        };
        let biased: u64 = (up as u64 + 127) - down as u64;
        Single { bits: (biased * 0x80_0000 + (rounded - 0x80_0000)) as u32 }
    }

    /// Whether this number is at most zero.
    pub fn is_at_most_zero(&self) -> (res: bool)
        ensures
            res == at_most_zero(self.bits),
    {
        self.bits == 0 || (self.bits >= 0x8000_0000 && self.bits <= 0xff80_0000)
    }
}

/// Whether these are the bits of the single-precision number nearest to `num / den`, by what the
/// format says of them: eight bits below the sign are the exponent, biased by 127, and the lower
/// 23 are what follows the leading one of the significand. Half a unit in the last place is as
/// far as the nearest number can be, and a quotient halfway between two numbers goes to the even
/// one. Below a power of two the numbers lie twice as dense.
pub open spec fn is_nearest(bits: u32, num: nat, den: nat) -> bool {
    if num == 0 {
        bits == 0
    } else {
        let e = (bits / 0x80_0000) as int;
        let m = (bits % 0x80_0000 + 0x80_0000) as nat;
        let up = if e >= 150 {
            pow2((e - 150) as nat)
        } else {
            1
        };
        let down = if e < 150 {
            pow2((150 - e) as nat)
        } else {
            1
        };
        let number = m * (up * den);
        let quotient = num * down;
        let unit = up * den;
        &&& 0 < e < 255
        &&& 2 * (number - quotient) <= unit
        &&& 2 * (quotient - number) <= unit
        &&& (2 * (number - quotient) == unit || 2 * (quotient - number) == unit) ==> m % 2 == 0
        &&& m == 0x80_0000 ==> 4 * (number - quotient) <= unit
    }
}

/// A quotient that lies halfway between two integers is rounded to the even one.
proof fn lemma_ties_go_to_even(num: nat, den: nat)
    requires
        den > 0,
        2 * (round_half_even(num, den) * den - num) == den || 2 * (num - round_half_even(num, den)
            * den) == den,
    ensures
        round_half_even(num, den) % 2 == 0,
{
    let quotient = num / den;
    vstd::arithmetic::div_mod::lemma_fundamental_div_mod(num as int, den as int);
    assert((quotient + 1) * den == quotient * den + den) by (nonlinear_arith);
    assert(den * quotient == quotient * den) by (nonlinear_arith);
}

/// What holds of three numbers, each a positive factor times as large, holds of them.
proof fn lemma_unscaled(factor: nat, number: int, quotient: int, unit: int)
    requires
        factor > 0,
    ensures
        2 * (factor * number - factor * quotient) <= factor * unit ==> 2 * (number - quotient)
            <= unit,
        4 * (factor * number - factor * quotient) <= factor * unit ==> 4 * (number - quotient)
            <= unit,
        2 * (factor * quotient - factor * number) <= factor * unit ==> 2 * (quotient - number)
            <= unit,
        2 * (number - quotient) == unit ==> 2 * (factor * number - factor * quotient) == factor
            * unit,
        2 * (quotient - number) == unit ==> 2 * (factor * quotient - factor * number) == factor
            * unit,
{
    let above = number - quotient;
    assert(factor * number - factor * quotient == factor * above) by (nonlinear_arith)
        requires
            above == number - quotient,
    ;
    assert(2 * (factor * above) == factor * (2 * above)) by (nonlinear_arith);
    assert(4 * (factor * above) == factor * (4 * above)) by (nonlinear_arith);
    assert(2 * (-(factor * above)) == factor * (-2 * above)) by (nonlinear_arith);
    assert(factor * (2 * above) <= factor * unit ==> 2 * above <= unit) by (nonlinear_arith)
        requires
            factor > 0,
    ;
    assert(factor * (4 * above) <= factor * unit ==> 4 * above <= unit) by (nonlinear_arith)
        requires
            factor > 0,
    ;
    assert(factor * (-2 * above) <= factor * unit ==> -2 * above <= unit) by (nonlinear_arith)
        requires
            factor > 0,
    ;
}

/// A quotient of 32-bit integers is below 2^32.
proof fn lemma_halvings_bound(num: nat, den: nat)
    requires
        den > 0,
        num <= 0xffff_ffff,
    ensures
        halvings(num, den) <= 32,
{
    if num >= den {
        lemma_halvings(num, den);
        let p = pow2(halvings(num, den));
        assert(p <= den * p) by (nonlinear_arith)
            requires
                den > 0,
        ;
        lemma_small_power(halvings(num, den));
    }
}

/// Rounding to 23 binary places and putting exponent and significand together gives the nearest
/// number that there is.
pub(crate) proof fn lemma_nearest_bits_are_nearest(num: u32, den: u32)
    requires
        den > 0,
    ensures
        0 <= nearest_bits(num as nat, den as nat) <= u32::MAX,
        is_nearest(nearest_bits(num as nat, den as nat) as u32, num as nat, den as nat),
{
    if num > 0 {
        let (n0, d0) = (num as nat, den as nat);
        let (h, d) = (halvings(n0, d0), doublings(n0, d0));
        let (ph, pd) = (pow2(h), pow2(d));
        let s = significand(n0, d0);
        let whole = d0 * ph;
        let scaled = n0 * pd * 0x80_0000;
        lemma2_to64();
        lemma_significand_range(n0, d0);
        law_exponent_normalises(n0, d0);
        lemma_doublings_bound(n0, d0);
        lemma_halvings_bound(n0, d0);
        lemma_pow2_pos(h);
        assert(whole > 0) by (nonlinear_arith)
            requires
                whole == d0 * ph,
                d0 > 0,
                ph > 0,
        ;
        law_rounding_is_nearest(scaled, whole);
        let carry: nat = if s == 0x100_0000 {
            1
        } else {
            0
        };
        let c = 1 + carry;
        let bits = nearest_bits(n0, d0);
        let e = h - d + 127 + carry;
        let m: nat = if carry == 1 {
            0x80_0000
        } else {
            s
        };
        assert(bits == e * 0x80_0000 + (m - 0x80_0000));
        assert((bits as u32) / 0x80_0000 == e);
        assert((bits as u32) % 0x80_0000 == m - 0x80_0000);
        let up = if e >= 150 {
            pow2((e - 150) as nat)
        } else {
            1
        };
        let down = if e < 150 {
            pow2((150 - e) as nat)
        } else {
            1
        };
        let unit = up * d0;
        let number = m * unit;
        let quotient = n0 * down;
        assert(pow2(carry) == c);
        vstd::arithmetic::power2::lemma_pow2_adds(carry, h);
        let factor: nat = if e >= 150 {
            0x80_0000
        } else {
            c * ph
        };
        if e >= 150 {
            assert(d == 0);
            vstd::arithmetic::power2::lemma_pow2_adds((e - 150) as nat, 23);
            assert(up * factor == c * ph);
            assert(quotient == n0 && pd == 1);
            assert(factor * quotient == scaled);
        } else {
            vstd::arithmetic::power2::lemma_pow2_adds(carry + h, (150 - e) as nat);
            vstd::arithmetic::power2::lemma_pow2_adds(d, 23);
            assert(factor * down == pd * 0x80_0000);
            assert(factor * (n0 * down) == n0 * (factor * down)) by (nonlinear_arith);
            assert(n0 * (pd * 0x80_0000) == scaled) by (nonlinear_arith)
                requires
                    scaled == n0 * pd * 0x80_0000,
            ;
            assert(up * factor == c * ph);
            assert(factor > 0) by (nonlinear_arith)
                requires
                    factor == c * ph,
                    c > 0,
                    ph > 0,
            ;
        }
        assert(factor * unit == c * whole) by (nonlinear_arith)
            requires
                unit == up * d0,
                up * factor == c * ph,
                whole == d0 * ph,
        ;
        assert(factor * (m * unit) == m * (factor * unit)) by (nonlinear_arith);
        assert(m * (c * whole) == (c * m) * whole) by (nonlinear_arith);
        assert(c * m == s);
        assert(factor * number == s * whole);
        lemma_unscaled(factor, number as int, quotient as int, unit as int);
        if carry == 0 {
            assert(c * whole == whole) by (nonlinear_arith)
                requires
                    c == 1,
            ;
            if 2 * (number - quotient) == unit || 2 * (quotient - number) == unit {
                lemma_ties_go_to_even(scaled, whole);
            }
            if m == 0x80_0000 {
                assert(s * whole <= scaled) by (nonlinear_arith)
                    requires
                        s == 0x80_0000,
                        whole <= n0 * pd,
                        scaled == n0 * pd * 0x80_0000,
                ;
                assert(4 * (factor * number - factor * quotient) <= factor * unit);
            }
        } else {
            assert(c * whole == 2 * whole) by (nonlinear_arith)
                requires
                    c == 2,
            ;
        }
    }
}

/// The number that a ratio is made into is the nearest one that single precision has.
pub proof fn law_ratio_is_made_into_nearest_number(num: u32, den: u32, res: Single)
    requires
        den > 0,
        call_ensures(Single::from_ratio, (num, den), res),
    ensures
        is_nearest(res.bits, num as nat, den as nat),
{
    lemma_nearest_bits_are_nearest(num, den);
}

/// A number is at most zero where it is a number at all and is negative or has no magnitude.
/// What lies above the magnitude of infinity is no number.
pub proof fn law_at_most_zero_is_told_by_sign_and_magnitude(number: &Single, res: bool)
    requires
        call_ensures(Single::is_at_most_zero, (number,), res),
    ensures
        ({
            let negative = number.bits >= 0x8000_0000;
            let magnitude = number.bits % 0x8000_0000;
            res <==> magnitude <= 0x7f80_0000 && (negative || magnitude == 0)
        }),
{
}

/// Bits go in and out unchanged.
pub proof fn law_bits_are_kept(bits: u32, res: Single)
    requires
        call_ensures(Single::from_bits, (bits,), res),
    ensures
        res.bits == bits,
{
}

} // verus!
