//! Numbers in fixed point, for signal paths that must compute exactly the
//! same samples on every machine.
use vstd::prelude::*;
use vstd::arithmetic::power2::pow2;
use crate::sample::has_neutral_elements;
use crate::sample::one;
use crate::sample::zero;
use crate::sample::Sample;

verus! {

/// The bits of the number one: a number is its bits over two to the 32nd.
pub const ONE_BITS: i64 = 4294967296;

/// The base-two logarithm of ten, in bits.
pub const LOG2_OF_TEN: i64 = 14267572527;

/// A number with 31 whole and 32 fractional binary places, and a sign.
///
/// Sums, products and quotients that leave the range stay at its nearest
/// end; what a product or quotient has beyond the 32nd fractional place is
/// cut off towards zero.
#[derive(Clone, Copy, Debug, PartialEq, Eq, Structural)]
pub struct Fixed {
    pub bits: i64,
}

/// `v` without its sign.
pub open spec fn magnitude(v: int) -> int {
    if v < 0 {
        -v
    } else {
        v
    }
}

/// `n` over `d`, cut off towards zero.
pub open spec fn quotient(n: int, d: int) -> int
    recommends
        d != 0,
{
    let q = magnitude(n) / magnitude(d);
    if (n < 0) != (d < 0) {
        -q
    } else {
        q
    }
}

/// `v` where it fits in 64 bits, else the nearest end of that range.
pub open spec fn saturated(v: int) -> i64 {
    if v > i64::MAX {
        i64::MAX
    } else if v < i64::MIN {
        i64::MIN
    } else {
        v as i64
    }
}

/// The bits of `n / d`. Over zero, the quotient is the end of the range on
/// the side of `n`, and zero for zero.
pub open spec fn divided(n: int, d: int) -> i64 {
    if d == 0 {
        if n > 0 {
            i64::MAX
        } else if n < 0 {
            i64::MIN
        } else {
            0
        }
    } else {
        saturated(quotient(n * ONE_BITS, d))
    }
}

/// The bits of the product of the numbers with the bits `a` and `b`.
pub open spec fn multiplied(a: int, b: int) -> i64 {
    saturated(quotient(a * b, ONE_BITS as int))
}

/// The bits of the whole number nearest to the number with the bits `a`,
/// halves rounded away from zero.
pub open spec fn nearest_whole(a: int) -> i64 {
    let whole = (magnitude(a) + ONE_BITS / 2) / (ONE_BITS as int) * ONE_BITS;
    saturated(
        if a < 0 {
            -whole
        } else {
            whole
        },
    )
}

/// The whole part of the number with the bits `a`, zero for what is
/// negative.
pub open spec fn whole_part(a: int) -> usize {
    if a < 0 {
        0
    } else {
        (a / (ONE_BITS as int)) as usize
    }
}

/// The bits of `p` times the fraction with the bits `f`.
pub open spec fn fraction_of(p: int, f: int) -> int {
    (p * f) / (ONE_BITS as int)
}

/// The bits of two to the power of the fraction with the bits `f`, from the
/// first ten terms of the power series.
pub open spec fn exp2_fraction(f: int) -> int {
    let sum10 = 30;
    let sum9 = 437 + fraction_of(sum10, f);
    let sum8 = 5676 + fraction_of(sum9, f);
    let sum7 = 65510 + fraction_of(sum8, f);
    let sum6 = 661577 + fraction_of(sum7, f);
    let sum5 = 5726720 + fraction_of(sum6, f);
    let sum4 = 41309550 + fraction_of(sum5, f);
    let sum3 = 238388332 + fraction_of(sum4, f);
    let sum2 = 1031764991 + fraction_of(sum3, f);
    let sum1 = 2977044472 + fraction_of(sum2, f);
    ONE_BITS + fraction_of(sum1, f)
}

/// The bits of ten to the power of the number with the bits `a`.
///
/// The exponent is turned into one to the base two and split into its whole
/// part and a fraction; two to the fraction comes from
/// [`exp2_fraction`], and the whole part doubles or halves it that many
/// times. Powers of two from the 31st on are the upper end of the range;
/// below the minus 34th they are zero.
pub open spec fn exp10_bits(a: int) -> i64 {
    let exponent = quotient(a * LOG2_OF_TEN, ONE_BITS as int);
    doubled(exp2_fraction(exponent % (ONE_BITS as int)), exponent / (ONE_BITS as int))
}

/// `part` doubled `whole` times over, or halved where `whole` is negative.
pub open spec fn doubled(part: int, whole: int) -> i64 {
    if whole >= 31 {
        i64::MAX
    } else if whole < -34 {
        0
    } else if whole >= 0 {
        saturated(part * pow2(whole as nat))
    } else {
        (part / (pow2((-whole) as nat) as int)) as i64
    }
}

/// Divides towards zero.
fn quotient_of(n: i128, d: i128) -> (q: i128)
    requires
        d != 0,
        i128::MIN < n,
        i128::MIN < d,
    ensures
        q == quotient(n as int, d as int),
{
    let n_size: i128 = if n < 0 {
        -n
    } else {
        n
    };
    let d_size: i128 = if d < 0 {
        -d
    } else {
        d
    };
    let q: i128 = n_size / d_size;
    if (n < 0) != (d < 0) {
        -q
    } else {
        q
    }
}

/// Brings a wide value into 64 bits.
fn saturate(v: i128) -> (r: i64)
    ensures
        r == saturated(v as int),
{
    if v > 9223372036854775807 {
        9223372036854775807
    } else if v < -9223372036854775808 {
        -9223372036854775808
    } else {
        v as i64
    }
}

fn divide(n: i64, d: i64) -> (r: i64)
    ensures
        r == divided(n as int, d as int),
{
    if d == 0 {
        if n > 0 {
            9223372036854775807
        } else if n < 0 {
            -9223372036854775808
        } else {
            0
        }
    } else {
        let wide: i128 = (n as i128) * 4294967296;
        saturate(quotient_of(wide, d as i128))
    }
}

fn multiply(a: i64, b: i64) -> (r: i64)
    ensures
        r == multiplied(a as int, b as int),
{
    assert(-0x4000_0000_0000_0000_0000_0000_0000_0000 <= a * b
        <= 0x4000_0000_0000_0000_0000_0000_0000_0000) by (nonlinear_arith)
        requires
            -0x8000_0000_0000_0000 <= a <= 0x7fff_ffff_ffff_ffff,
            -0x8000_0000_0000_0000 <= b <= 0x7fff_ffff_ffff_ffff,
    ;
    let wide: i128 = (a as i128) * (b as i128);
    saturate(quotient_of(wide, 4294967296))
}

fn fraction(p: i128, f: i128) -> (r: i128)
    requires
        0 <= p <= 0x100_0000_0000,
        0 <= f < ONE_BITS,
    ensures
        r == fraction_of(p as int, f as int),
        0 <= r <= p,
{
    assert(0 <= p * f <= p * 4294967296) by (nonlinear_arith)
        requires
            0 <= p,
            0 <= f < 4294967296,
    ;
    (p * f) / 4294967296
}

fn exp2_of_fraction(f: i128) -> (r: i128)
    requires
        0 <= f < ONE_BITS,
    ensures
        r == exp2_fraction(f as int),
        0 <= r < 0x4_0000_0000,
{
    let sum10: i128 = 30;
    let sum9: i128 = 437 + fraction(sum10, f);
    let sum8: i128 = 5676 + fraction(sum9, f);
    let sum7: i128 = 65510 + fraction(sum8, f);
    let sum6: i128 = 661577 + fraction(sum7, f);
    let sum5: i128 = 5726720 + fraction(sum6, f);
    let sum4: i128 = 41309550 + fraction(sum5, f);
    let sum3: i128 = 238388332 + fraction(sum4, f);
    let sum2: i128 = 1031764991 + fraction(sum3, f);
    let sum1: i128 = 2977044472 + fraction(sum2, f);
    4294967296 + fraction(sum1, f)
}

fn power_of_two(e: u32) -> (r: i128)
    requires
        e <= 34,
    ensures
        r == pow2(e as nat),
        1 <= r <= 0x4_0000_0000,
{
    let mut r: i128 = 1;
    let mut i: u32 = 0;
    proof {
        vstd::arithmetic::power2::lemma2_to64();
        vstd::arithmetic::power2::lemma2_to64_rest();
    }
    while i < e
        invariant
            i <= e <= 34,
            r == pow2(i as nat),
            1 <= r,
            pow2(34) == 0x4_0000_0000,
            i < 34 ==> r < 0x4_0000_0000,
            i == 34 ==> r == 0x4_0000_0000,
        decreases e - i,
    {
        proof {
            vstd::arithmetic::power2::lemma_pow2_unfold((i + 1) as nat);
            if i + 1 < 34 {
                vstd::arithmetic::power2::lemma_pow2_strictly_increases((i + 1) as nat, 34);
            }
        }
        r = r * 2;
        i += 1;
    }
    r
}

fn exp10_of(a: i64) -> (r: i64)
    ensures
        r == exp10_bits(a as int),
{
    assert(-0x4000_0000_0000_0000_0000_0000_0000_0000 <= a * LOG2_OF_TEN
        <= 0x4000_0000_0000_0000_0000_0000_0000_0000) by (nonlinear_arith)
        requires
            -0x8000_0000_0000_0000 <= a <= 0x7fff_ffff_ffff_ffff,
            LOG2_OF_TEN == 14267572527,
    ;
    let exponent: i128 = quotient_of((a as i128) * 14267572527, 4294967296);
    let whole: i128 = if exponent >= 0 {
        exponent / 4294967296
    } else {
        -((-exponent + 4294967295) / 4294967296)
    };
    let rest: i128 = exponent - whole * 4294967296;
    assert(whole == (exponent as int) / (ONE_BITS as int));
    assert(rest == (exponent as int) % (ONE_BITS as int));
    let part: i128 = exp2_of_fraction(rest);
    if whole >= 31 {
        9223372036854775807
    } else if whole < -34 {
        0
    } else if whole >= 0 {
        let factor: i128 = power_of_two(whole as u32);
        assert(0 <= part * factor <= 0x4_0000_0000 * 0x4_0000_0000) by (nonlinear_arith)
            requires
                0 <= part < 0x4_0000_0000,
                1 <= factor <= 0x4_0000_0000,
        ;
        saturate(part * factor)
    } else {
        let factor: i128 = power_of_two((-whole) as u32);
        let cut: i128 = part / factor;
        assert(0 <= cut <= part) by (nonlinear_arith)
            requires
                cut == part / factor,
                0 <= part,
                1 <= factor,
        ;
        cut as i64
    }
}

impl Sample for Fixed {
    open spec fn ratio_spec(num: i64, den: i64) -> Self {
        Fixed { bits: divided(num as int, den as int) }
    }

    open spec fn plus_spec(self, rhs: Self) -> Self {
        Fixed { bits: saturated(self.bits + rhs.bits) }
    }

    open spec fn minus_spec(self, rhs: Self) -> Self {
        Fixed { bits: saturated(self.bits - rhs.bits) }
    }

    open spec fn times_spec(self, rhs: Self) -> Self {
        Fixed { bits: multiplied(self.bits as int, rhs.bits as int) }
    }

    open spec fn over_spec(self, rhs: Self) -> Self {
        Fixed { bits: divided(self.bits as int, rhs.bits as int) }
    }

    open spec fn exp10_spec(self) -> Self {
        Fixed { bits: exp10_bits(self.bits as int) }
    }

    open spec fn round_spec(self) -> Self {
        Fixed { bits: nearest_whole(self.bits as int) }
    }

    open spec fn truncate_spec(self) -> usize {
        whole_part(self.bits as int)
    }

    open spec fn lt_spec(self, rhs: Self) -> bool {
        self.bits < rhs.bits
    }

    fn ratio(num: i64, den: i64) -> (r: Self) {
        Fixed { bits: divide(num, den) }
    }

    fn plus(self, rhs: Self) -> (r: Self) {
        Fixed { bits: saturate(self.bits as i128 + rhs.bits as i128) }
    }

    fn minus(self, rhs: Self) -> (r: Self) {
        Fixed { bits: saturate(self.bits as i128 - rhs.bits as i128) }
    }

    fn times(self, rhs: Self) -> (r: Self) {
        Fixed { bits: multiply(self.bits, rhs.bits) }
    }

    fn over(self, rhs: Self) -> (r: Self) {
        Fixed { bits: divide(self.bits, rhs.bits) }
    }

    fn exp10(self) -> (r: Self) {
        Fixed { bits: exp10_of(self.bits) }
    }

    fn round(self) -> (r: Self) {
        let size: i128 = if self.bits < 0 {
            -(self.bits as i128)
        } else {
            self.bits as i128
        };
        let whole: i128 = (size + 2147483648) / 4294967296 * 4294967296;
        Fixed {
            bits: saturate(
                if self.bits < 0 {
                    -whole
                } else {
                    whole
                },
            ),
        }
    }

    fn truncate(self) -> (r: usize) {
        if self.bits < 0 {
            0
        } else {
            (self.bits / 4294967296) as usize
        }
    }

    fn lt(self, rhs: Self) -> (r: bool) {
        self.bits < rhs.bits
    }
}

/// Ten to the power of zero is one, exactly.
pub proof fn lemma_exp10_of_zero()
    ensures
        exp10_bits(0) == ONE_BITS,
{
    vstd::arithmetic::power2::lemma2_to64();
    lemma_fraction_of_nothing();
    let exponent = quotient(0int * LOG2_OF_TEN, ONE_BITS as int);
    assert(exponent == 0);
    assert(exp2_fraction(0) == ONE_BITS);
    assert(pow2(0) == 1);
    assert(exp2_fraction(0) * pow2(0) == ONE_BITS);
}

/// No part of anything is zero.
proof fn lemma_fraction_of_nothing()
    ensures
        forall|p: int| #[trigger] fraction_of(p, 0) == 0,
{
    assert forall|p: int| #[trigger] fraction_of(p, 0) == 0 by {
        assert(p * 0 == 0);
    }
}

/// A fraction of a part is no more than the part.
proof fn lemma_fraction_is_less(p: int, f: int)
    requires
        0 <= p,
        0 <= f < ONE_BITS,
    ensures
        0 <= fraction_of(p, f) <= p,
{
    assert(0 <= p * f <= p * 4294967296) by (nonlinear_arith)
        requires
            0 <= p,
            0 <= f < 4294967296,
    ;
}

/// Two to the power of a fraction lies between one and two.
proof fn lemma_exp2_fraction_bounds(f: int)
    requires
        0 <= f < ONE_BITS,
    ensures
        ONE_BITS <= exp2_fraction(f) < 2 * ONE_BITS,
{
    let sum10 = 30;
    lemma_fraction_is_less(sum10, f);
    let sum9 = 437 + fraction_of(sum10, f);
    lemma_fraction_is_less(sum9, f);
    let sum8 = 5676 + fraction_of(sum9, f);
    lemma_fraction_is_less(sum8, f);
    let sum7 = 65510 + fraction_of(sum8, f);
    lemma_fraction_is_less(sum7, f);
    let sum6 = 661577 + fraction_of(sum7, f);
    lemma_fraction_is_less(sum6, f);
    let sum5 = 5726720 + fraction_of(sum6, f);
    lemma_fraction_is_less(sum5, f);
    let sum4 = 41309550 + fraction_of(sum5, f);
    lemma_fraction_is_less(sum4, f);
    let sum3 = 238388332 + fraction_of(sum4, f);
    lemma_fraction_is_less(sum3, f);
    let sum2 = 1031764991 + fraction_of(sum3, f);
    lemma_fraction_is_less(sum2, f);
    let sum1 = 2977044472 + fraction_of(sum2, f);
    lemma_fraction_is_less(sum1, f);
}

/// Ten to a power that is not above zero is not above one, and not below
/// zero.
pub proof fn lemma_exp10_of_nonpositive(a: int)
    requires
        i64::MIN <= a <= 0,
    ensures
        0 <= exp10_bits(a) <= ONE_BITS,
{
    let wide = a * LOG2_OF_TEN;
    assert(wide <= 0) by (nonlinear_arith)
        requires
            a <= 0,
            wide == a * 14267572527,
    ;
    let exponent = quotient(wide, ONE_BITS as int);
    assert(exponent <= 0);
    let whole = exponent / (ONE_BITS as int);
    let rest = exponent % (ONE_BITS as int);
    let part = exp2_fraction(rest);
    lemma_exp2_fraction_bounds(rest);
    vstd::arithmetic::power2::lemma2_to64();
    if whole >= 0 {
        assert(exponent == 0);
        lemma_fraction_of_nothing();
        assert(part == ONE_BITS);
    } else if whole >= -34 {
        let factor = pow2((-whole) as nat) as int;
        assert(factor >= 2) by {
            if -whole > 1 {
                vstd::arithmetic::power2::lemma_pow2_strictly_increases(1, (-whole) as nat);
            }
        }
        assert(0 <= part / factor <= part / 2) by (nonlinear_arith)
            requires
                0 <= part,
                factor >= 2,
        ;
    }
}

/// Of two numbers divided by the same positive number, the lesser gives the
/// lesser quotient.
pub proof fn lemma_quotient_is_ordered(n1: int, n2: int, d: int)
    requires
        d > 0,
        n1 <= n2,
    ensures
        quotient(n1, d) <= quotient(n2, d),
{
    lemma_quotient_sign(n1, d);
    lemma_quotient_sign(n2, d);
    if n1 >= 0 {
        vstd::arithmetic::div_mod::lemma_div_is_ordered(n1, n2, d);
    } else if n2 < 0 {
        vstd::arithmetic::div_mod::lemma_div_is_ordered(-n2, -n1, d);
    }
}

/// The lesser part of the lesser fraction is the lesser.
proof fn lemma_fraction_is_ordered(part1: int, f1: int, part2: int, f2: int)
    requires
        0 <= part1 <= part2,
        0 <= f1 <= f2,
    ensures
        0 <= fraction_of(part1, f1) <= fraction_of(part2, f2),
{
    assert(0 <= part1 * f1 <= part2 * f2) by (nonlinear_arith)
        requires
            0 <= part1 <= part2,
            0 <= f1 <= f2,
    ;
    vstd::arithmetic::div_mod::lemma_div_is_ordered(part1 * f1, part2 * f2, ONE_BITS as int);
}

/// Two to the power of the lesser fraction is the lesser.
proof fn lemma_exp2_fraction_is_ordered(f1: int, f2: int)
    requires
        0 <= f1 <= f2,
    ensures
        exp2_fraction(f1) <= exp2_fraction(f2),
{
    lemma_fraction_is_ordered(30, f1, 30, f2);
    let a9 = 437 + fraction_of(30, f1);
    let b9 = 437 + fraction_of(30, f2);
    lemma_fraction_is_ordered(a9, f1, b9, f2);
    let a8 = 5676 + fraction_of(a9, f1);
    let b8 = 5676 + fraction_of(b9, f2);
    lemma_fraction_is_ordered(a8, f1, b8, f2);
    let a7 = 65510 + fraction_of(a8, f1);
    let b7 = 65510 + fraction_of(b8, f2);
    lemma_fraction_is_ordered(a7, f1, b7, f2);
    let a6 = 661577 + fraction_of(a7, f1);
    let b6 = 661577 + fraction_of(b7, f2);
    lemma_fraction_is_ordered(a6, f1, b6, f2);
    let a5 = 5726720 + fraction_of(a6, f1);
    let b5 = 5726720 + fraction_of(b6, f2);
    lemma_fraction_is_ordered(a5, f1, b5, f2);
    let a4 = 41309550 + fraction_of(a5, f1);
    let b4 = 41309550 + fraction_of(b5, f2);
    lemma_fraction_is_ordered(a4, f1, b4, f2);
    let a3 = 238388332 + fraction_of(a4, f1);
    let b3 = 238388332 + fraction_of(b4, f2);
    lemma_fraction_is_ordered(a3, f1, b3, f2);
    let a2 = 1031764991 + fraction_of(a3, f1);
    let b2 = 1031764991 + fraction_of(b3, f2);
    lemma_fraction_is_ordered(a2, f1, b2, f2);
    let a1 = 2977044472 + fraction_of(a2, f1);
    let b1 = 2977044472 + fraction_of(b2, f2);
    lemma_fraction_is_ordered(a1, f1, b1, f2);
}

/// The greater power of two is the greater, and none is below one.
proof fn lemma_pow2_is_ordered(e1: nat, e2: nat)
    requires
        e1 <= e2,
    ensures
        1 <= pow2(e1) <= pow2(e2),
{
    vstd::arithmetic::power2::lemma_pow2_pos(e1);
    if e1 < e2 {
        vstd::arithmetic::power2::lemma_pow2_strictly_increases(e1, e2);
    }
}

/// What is doubled no more often, and is no greater where it is doubled as
/// often, comes out no greater. This holds of parts between one and two.
proof fn lemma_doubled_is_ordered(part1: int, w1: int, part2: int, w2: int)
    requires
        ONE_BITS <= part1 < 2 * ONE_BITS,
        ONE_BITS <= part2 < 2 * ONE_BITS,
        w1 < w2 || (w1 == w2 && part1 <= part2),
    ensures
        0 <= doubled(part1, w1) <= doubled(part2, w2),
{
    lemma_doubled_is_not_negative(part1, w1);
    lemma_doubled_is_not_negative(part2, w2);
    if w2 >= 31 || w1 < -34 {
    } else if w1 == w2 {
        if w1 >= 0 {
            let f = pow2(w1 as nat) as int;
            lemma_pow2_is_ordered(0, w1 as nat);
            assert(part1 * f <= part2 * f) by (nonlinear_arith)
                requires
                    part1 <= part2,
                    f >= 1,
            ;
        } else {
            let f = pow2((-w1) as nat) as int;
            lemma_pow2_is_ordered(0, (-w1) as nat);
            vstd::arithmetic::div_mod::lemma_div_is_ordered(part1, part2, f);
        }
    } else if w1 >= 0 {
        let f1 = pow2(w1 as nat) as int;
        let f2 = pow2(w2 as nat) as int;
        vstd::arithmetic::power2::lemma_pow2_unfold((w1 + 1) as nat);
        lemma_pow2_is_ordered((w1 + 1) as nat, w2 as nat);
        lemma_pow2_is_ordered(0, w1 as nat);
        assert(part1 * f1 <= part2 * f2) by (nonlinear_arith)
            requires
                0 <= part1 < 2 * 4294967296,
                4294967296 <= part2,
                1 <= f1,
                2 * f1 <= f2,
        ;
    } else if w2 >= 0 {
        let f1 = pow2((-w1) as nat) as int;
        let f2 = pow2(w2 as nat) as int;
        lemma_pow2_is_ordered(1, (-w1) as nat);
        lemma_pow2_is_ordered(0, w2 as nat);
        vstd::arithmetic::power2::lemma2_to64();
        vstd::arithmetic::div_mod::lemma_div_is_ordered_by_denominator(part1, 2, f1);
        assert(part1 / 2 < ONE_BITS);
        assert(part2 * f2 >= part2) by (nonlinear_arith)
            requires
                part2 >= 0,
                f2 >= 1,
        ;
    } else {
        let k1 = (-w1) as nat;
        let k2 = (-w2) as nat;
        let f1 = pow2(k1) as int;
        let f2 = pow2(k2) as int;
        let half = pow2((k1 - 1) as nat) as int;
        vstd::arithmetic::power2::lemma_pow2_unfold(k1);
        lemma_pow2_is_ordered(k2, (k1 - 1) as nat);
        lemma_pow2_is_ordered(0, k2);
        assert(f1 == 2 * half);
        vstd::arithmetic::div_mod::lemma_div_is_ordered(part1, 2 * ONE_BITS, f1);
        vstd::arithmetic::div_mod::lemma_div_denominator(2 * ONE_BITS, 2, half);
        assert((2 * ONE_BITS) / 2 == ONE_BITS);
        assert((2 * ONE_BITS) / f1 == (ONE_BITS as int) / half);
        vstd::arithmetic::div_mod::lemma_div_is_ordered_by_denominator(ONE_BITS as int, f2, half);
        vstd::arithmetic::div_mod::lemma_div_is_ordered(ONE_BITS as int, part2, f2);
    }
}

/// What is doubled or halved is not negative.
proof fn lemma_doubled_is_not_negative(part: int, whole: int)
    requires
        0 <= part < 2 * ONE_BITS,
    ensures
        0 <= doubled(part, whole),
        -34 <= whole < 0 ==> doubled(part, whole) == part / (pow2((-whole) as nat) as int),
{
    if whole >= 31 || whole < -34 {
    } else if whole >= 0 {
        let f = pow2(whole as nat) as int;
        assert(part * f >= 0) by (nonlinear_arith)
            requires
                part >= 0,
                f >= 0,
        ;
    } else {
        let f = pow2((-whole) as nat) as int;
        lemma_pow2_is_ordered(0, (-whole) as nat);
        vstd::arithmetic::div_mod::lemma_div_basics_5(part, f);
        vstd::arithmetic::div_mod::lemma_div_basics_4(part, f);
    }
}

/// Ten to the lesser power is the lesser.
pub proof fn lemma_exp10_is_ordered(a: int, b: int)
    requires
        a <= b,
    ensures
        exp10_bits(a) <= exp10_bits(b),
{
    assert(a * LOG2_OF_TEN <= b * LOG2_OF_TEN) by (nonlinear_arith)
        requires
            a <= b,
            LOG2_OF_TEN == 14267572527,
    ;
    lemma_quotient_is_ordered(a * LOG2_OF_TEN, b * LOG2_OF_TEN, ONE_BITS as int);
    let e1 = quotient(a * LOG2_OF_TEN, ONE_BITS as int);
    let e2 = quotient(b * LOG2_OF_TEN, ONE_BITS as int);
    let w1 = e1 / (ONE_BITS as int);
    let w2 = e2 / (ONE_BITS as int);
    let r1 = e1 % (ONE_BITS as int);
    let r2 = e2 % (ONE_BITS as int);
    lemma_exp2_fraction_bounds(r1);
    lemma_exp2_fraction_bounds(r2);
    if w1 == w2 {
        lemma_exp2_fraction_is_ordered(r1, r2);
    }
    lemma_doubled_is_ordered(exp2_fraction(r1), w1, exp2_fraction(r2), w2);
}

/// Of two numbers within the range, the lesser stays the lesser when both
/// are brought into 64 bits.
pub proof fn lemma_saturated_is_ordered(v1: int, v2: int)
    requires
        v1 <= v2,
    ensures
        saturated(v1) <= saturated(v2),
{
}

/// A quotient by a positive number has the sign of what is divided.
pub proof fn lemma_quotient_sign(n: int, d: int)
    requires
        d > 0,
    ensures
        n <= 0 ==> quotient(n, d) <= 0,
        n >= 0 ==> quotient(n, d) >= 0,
{
    vstd::arithmetic::div_mod::lemma_div_basics_4(magnitude(n), d);
}

/// In fixed point, zero and one are what they are among the numbers.
pub proof fn lemma_fixed_has_neutral_elements()
    ensures
        has_neutral_elements::<Fixed>(),
{
    assert(zero::<Fixed>().bits == 0);
    assert(one::<Fixed>().bits == ONE_BITS) by {
        assert(quotient(1 * ONE_BITS, 1) == 4294967296int / 1);
    }
    assert forall|a: Fixed| #[trigger] a.times_spec(one::<Fixed>()) == a by {
        let size = magnitude(a.bits as int);
        assert(magnitude(a.bits * ONE_BITS) == size * ONE_BITS);
        assert((size * ONE_BITS) / (ONE_BITS as int) == size);
    }
    assert forall|a: Fixed| #[trigger] a.times_spec(zero::<Fixed>()) == zero::<Fixed>() by {
        assert(a.bits * 0 == 0);
    }
    assert forall|a: Fixed| #[trigger] zero::<Fixed>().times_spec(a) == zero::<Fixed>() by {
        assert(0 * a.bits == 0);
    }
}

} // verus!
