//! Parameter and signal values in plain units, held as IEEE-754 binary32 bit
//! patterns.
//!
//! Every non-NaN value is an exact multiple of `2^-149`, so its mathematical
//! value is modelled by an integer: [`Plain::scaled`] is the value times
//! `2^149`. The infinities fit the same formula, above and below every finite
//! value. Comparison, clamping, rounding and the conversions from and to
//! integers are exact functions of that integer and are implemented here on the
//! bits; rounded arithmetic is in [`crate::fpu`].
use crate::nums::{F0_25, F0_75, F12, F16, F5, F8, FOUR, HALF, MINUS_ONE, ONE, TWO, ZERO};
use vstd::arithmetic::{div_mod, mul, power2};
use vstd::bits;
use vstd::prelude::*;

verus! {

/// Weight of the sign bit.
pub const SIGN: u32 = 0x8000_0000;

/// Weight of one step of the exponent field.
pub const EXPONENT: u32 = 0x0080_0000;

/// Magnitude bits of an infinity; anything above is not a number.
pub const INFINITE: u32 = 0x7f80_0000;

/// A binary32 value, by its bit pattern.
#[derive(Clone, Copy, Debug, PartialEq, Eq, Structural)]
pub struct Plain {
    pub bits: u32,
}

pub open spec fn spec_num(bits: u32) -> Plain {
    Plain { bits }
}

/// The value with the given bits.
#[verifier::when_used_as_spec(spec_num)]
pub fn num(bits: u32) -> (r: Plain)
    ensures
        r == num(bits),
{
    Plain { bits }
}

/// The value times `2^149` of the non-negative number with magnitude bits `mag`.
#[verifier::opaque]
pub open spec fn mag_scaled(mag: int) -> int {
    if mag < EXPONENT {
        mag
    } else {
        (EXPONENT + mag % EXPONENT as int) * power2::pow2((mag / EXPONENT as int - 1) as nat)
    }
}

proof fn lemma_mag_scaled_step(mag: int)
    requires
        0 <= mag,
    ensures
        mag_scaled(mag) < mag_scaled(mag + 1),
{
    reveal(mag_scaled);
    let w: int = EXPONENT as int;
    let e: int = mag / w;
    let f: int = mag % w;
    if mag >= w {
        let p: int = power2::pow2((e - 1) as nat) as int;
        power2::lemma_pow2_pos((e - 1) as nat);
        assert(mag_scaled(mag) == (w + f) * p);
        if f + 1 < w {
            assert((mag + 1) / w == e && (mag + 1) % w == f + 1);
            assert(mag_scaled(mag + 1) == (w + f + 1) * p);
            assert((w + f) * p < (w + f + 1) * p) by (nonlinear_arith)
                requires
                    p > 0,
            ;
        } else {
            assert((mag + 1) / w == e + 1 && (mag + 1) % w == 0);
            power2::lemma_pow2_unfold(e as nat);
            assert(mag_scaled(mag + 1) == w * (2 * p));
            assert((w + f) * p < w * (2 * p)) by (nonlinear_arith)
                requires
                    p > 0,
                    f < w,
            ;
        }
    } else if mag + 1 == w {
        assert((mag + 1) / w == 1 && (mag + 1) % w == 0);
        assert(power2::pow2(0) == 1) by {
            power2::lemma2_to64();
        }
        assert(mag_scaled(mag + 1) == w * 1);
    }
}

/// Magnitude bits order values as the values themselves are ordered.
pub proof fn lemma_mag_scaled_increases(a: int, b: int)
    requires
        0 <= a < b,
    ensures
        mag_scaled(a) < mag_scaled(b),
    decreases b - a,
{
    reveal(mag_scaled);
    if a + 1 < b {
        lemma_mag_scaled_increases(a, b - 1);
    }
    lemma_mag_scaled_step(b - 1);
}

/// A magnitude is never negative, and zero only for zero bits.
pub proof fn lemma_mag_scaled_sign(mag: int)
    requires
        0 <= mag,
    ensures
        0 <= mag_scaled(mag),
        mag_scaled(mag) == 0 <==> mag == 0,
{
    reveal(mag_scaled);
    if mag > 0 {
        lemma_mag_scaled_increases(0, mag);
    }
}

/// Bits compare as values do.
pub broadcast proof fn lemma_at_most_by_rank(a: Plain, b: Plain)
    ensures
        #[trigger] a.at_most(b) <==> !a.is_nan() && !b.is_nan() && a.rank() <= b.rank(),
{
    Plain::lemma_rank_orders(a, b);
}

/// Bits compare as values do, strictly.
pub broadcast proof fn lemma_less_by_rank(a: Plain, b: Plain)
    ensures
        #[trigger] a.less(b) <==> !a.is_nan() && !b.is_nan() && a.rank() < b.rank(),
{
    Plain::lemma_rank_orders(a, b);
}

/// Equal values have equal ranks: the two zeros, or equal bits.
pub broadcast proof fn lemma_equals_by_rank(a: Plain, b: Plain)
    ensures
        #[trigger] a.equals(b) <==> !a.is_nan() && !b.is_nan() && a.rank() == b.rank(),
{
    Plain::lemma_rank_orders(a, b);
}

/// Comparison by the bits.
pub broadcast group group_by_rank {
    lemma_at_most_by_rank,
    lemma_less_by_rank,
    lemma_equals_by_rank,
}

/// A clamped value lies within the bounds, unless it is a NaN.
pub proof fn lemma_clamp_bounds(x: Plain, low: Plain, high: Plain)
    requires
        low.at_most(high),
    ensures
        x.is_nan() ==> x.clamp(low, high) == x,
        !x.is_nan() ==> low.at_most(x.clamp(low, high)) && x.clamp(low, high).at_most(high),
        low.at_most(x) && x.at_most(high) ==> x.clamp(low, high) == x,
{
}

/// Clamping twice is clamping once.
pub proof fn lemma_clamp_idempotent(x: Plain, low: Plain, high: Plain)
    requires
        low.at_most(high),
    ensures
        x.clamp(low, high).clamp(low, high) == x.clamp(low, high),
{
}

/// A count of at least one is at least one.
pub proof fn lemma_count_at_least_one(n: int)
    requires
        1 <= n,
    ensures
        nearest_count(n) >= 1,
    decreases n,
{
    let k = excess_bits(n);
    let p: int = power2::pow2(k) as int;
    power2::lemma_pow2_pos(k);
    lemma_excess_leaves(n);
    assert(half_even(n, k) >= 1);
    assert(half_even(n, k) * p >= 1) by (nonlinear_arith)
        requires
            half_even(n, k) >= 1,
            p >= 1,
    ;
}

/// Zero is at most any finite value without a sign.
pub proof fn lemma_count_not_negative(p: Plain)
    requires
        !p.negative(),
        p.is_finite(),
    ensures
        num(0).at_most(p),
{
    reveal(mag_scaled);
    lemma_mag_scaled_sign(p.mag() as int);
}

/// One is at most any count of at least one.
pub proof fn lemma_one_at_most_count(p: Plain, n: int)
    requires
        is_count(p, false, n),
        1 <= n,
    ensures
        num(0x3f80_0000).at_most(p),
{
    lemma_count_at_least_one(n);
    lemma_assemble(EXPONENT as int, 126);
    lemma_pow2_small();
    power2::lemma_pow2_adds(23, 126);
    let c: int = nearest_count(n);
    assert(c * unit() >= unit()) by (nonlinear_arith)
        requires
            c >= 1,
            unit() >= 0,
    ;
}

proof fn lemma_excess_leaves(n: int)
    requires
        1 <= n,
    ensures
        n / (power2::pow2(excess_bits(n)) as int) >= 1,
    decreases n,
{
    lemma_pow2_small();
    if n >= 0x100_0000 {
        let k = excess_bits(n / 2);
        lemma_excess_leaves(n / 2);
        power2::lemma_pow2_unfold(k + 1);
        power2::lemma_pow2_pos(k);
        div_mod::lemma_div_denominator(n, 2, power2::pow2(k) as int);
        assert(excess_bits(n) == k + 1);
    } else {
        assert(excess_bits(n) == 0);
        assert(n / 1 == n);
    }
}

/// What is left of a count without its excess bits fills a significand.
proof fn lemma_excess_fills(n: int)
    requires
        0x80_0000 <= n,
    ensures
        0x80_0000 <= n / (power2::pow2(excess_bits(n)) as int) < 0x100_0000,
    decreases n,
{
    lemma_pow2_small();
    if n >= 0x100_0000 {
        let k = excess_bits(n / 2);
        lemma_excess_fills(n / 2);
        power2::lemma_pow2_unfold(k + 1);
        power2::lemma_pow2_pos(k);
        div_mod::lemma_div_denominator(n, 2, power2::pow2(k) as int);
        assert(excess_bits(n) == k + 1);
    } else {
        assert(excess_bits(n) == 0);
        assert(n / 1 == n);
    }
}

/// A larger count has no fewer excess bits.
proof fn lemma_excess_grows(a: int, b: int)
    requires
        0 <= a <= b,
    ensures
        excess_bits(a) <= excess_bits(b),
    decreases b,
{
    if a >= 0x100_0000 {
        lemma_excess_grows(a / 2, b / 2);
    }
}

/// Rounding keeps the order of counts.
pub proof fn lemma_nearest_ordered(a: int, b: int)
    requires
        0 <= a <= b,
    ensures
        nearest_count(a) <= nearest_count(b),
{
    let (j, k) = (excess_bits(a), excess_bits(b));
    lemma_excess_grows(a, b);
    lemma_pow2_small();
    power2::lemma_pow2_pos(j);
    power2::lemma_pow2_pos(k);
    let (x, y) = (power2::pow2(j) as int, power2::pow2(k) as int);
    if j == k {
        div_mod::lemma_div_is_ordered(a, b, x);
        div_mod::lemma_fundamental_div_mod(a, x);
        div_mod::lemma_fundamental_div_mod(b, x);
        div_mod::lemma_mod_bound(a, x);
        div_mod::lemma_mod_bound(b, x);
        assert(half_even(a, j) <= half_even(b, k));
        mul::lemma_mul_inequality(half_even(a, j), half_even(b, k), x);
    } else {
        assert(a < 0x100_0000 ==> excess_bits(a) == 0);
        assert(half_even(a, j) <= 0x100_0000) by {
            if a >= 0x80_0000 {
                lemma_excess_fills(a);
            } else {
                assert(j == 0);
                assert(a / 1 == a && a % 1 == 0);
            }
        }
        assert(b >= 0x100_0000);
        lemma_excess_fills(b);
        assert(half_even(b, k) >= 0x80_0000);
        power2::lemma_pow2_unfold(j + 1);
        lemma_pow2_ordered(j + 1, k);
        assert(half_even(a, j) * x <= half_even(b, k) * y) by (nonlinear_arith)
            requires
                half_even(a, j) <= 0x100_0000,
                half_even(b, k) >= 0x80_0000,
                x > 0,
                y >= 2 * x,
        ;
    }
}

/// The magnitude bits of a count that a significand holds with bits to spare, `m` being
/// the count moved up by `s` bits.
proof fn lemma_narrow_mag(n: int, m: int, s: nat) -> (mag: int)
    requires
        0 < n < 0x80_0000,
        0 < m < 0x100_0000,
        s <= 23,
        m == n * power2::pow2(s),
    ensures
        0 <= mag < INFINITE,
        mag_scaled(mag) == n * unit(),
    decreases 0x100_0000 - m,
{
    reveal(mag_scaled);
    if m >= 0x80_0000 {
        let e: nat = (149 - s) as nat;
        lemma_assemble(m, e);
        power2::lemma_pow2_adds(s, e);
        let (p, q) = (power2::pow2(s) as int, power2::pow2(e) as int);
        assert((n * p) * q == n * (p * q)) by (nonlinear_arith);
        e * EXPONENT + m
    } else {
        power2::lemma_pow2_unfold(s + 1);
        let p: int = power2::pow2(s) as int;
        assert(n * (2 * p) == 2 * (n * p)) by (nonlinear_arith);
        if s == 23 {
            lemma_pow2_small();
            assert(n * 0x80_0000 >= 0x80_0000) by (nonlinear_arith)
                requires
                    n > 0,
            ;
        }
        lemma_narrow_mag(n, 2 * m, s + 1)
    }
}

/// Every count that fits 64 bits is held by some value, rounded.
pub proof fn lemma_count_exists(n: int)
    requires
        0 <= n <= u64::MAX,
    ensures
        is_count(count(false, n), false, n),
{
    reveal(mag_scaled);
    lemma_pow2_small();
    let mag: int = if n == 0 {
        lemma_exact_count(0);
        assert(0 * unit() == 0);
        0
    } else if n < 0x80_0000 {
        lemma_exact_count(n);
        assert(n * power2::pow2(0) == n);
        lemma_narrow_mag(n, n, 0)
    } else {
        let k = excess_bits(n);
        lemma_excess_fills(n);
        power2::lemma_pow2_pos(k);
        let q = half_even(n, k);
        let e: nat = k + 149;
        lemma_assemble(q, e);
        power2::lemma_pow2_adds(k, 149);
        let (a, b) = (power2::pow2(k) as int, unit());
        assert(q * (a * b) == (q * a) * b) by (nonlinear_arith);
        assert(k <= 41) by {
            div_mod::lemma_fundamental_div_mod(n, a);
            div_mod::lemma_mod_bound(n, a);
            assert(a * 0x80_0000 <= n) by (nonlinear_arith)
                requires
                    n == a * (n / a) + n % a,
                    n / a >= 0x80_0000,
                    n % a >= 0,
                    a > 0,
            ;
            if k > 41 {
                lemma_pow2_ordered(41, k);
                power2::lemma_pow2_adds(18, 23);
                power2::lemma2_to64();
                power2::lemma2_to64_rest();
            }
        }
        e * EXPONENT + q
    };
    let p = Plain { bits: mag as u32 };
    assert(p.mag() == mag && !p.negative()) by {
        assert(mag < INFINITE);
    }
    assert(is_count(p, false, n));
}

/// An index is held as the count it is, rounded, and indices keep their order.
pub proof fn lemma_index_order(a: usize, b: usize)
    requires
        a <= b,
    ensures
        is_count(Plain::from_index(a), false, a as int),
        is_count(Plain::from_index(b), false, b as int),
        Plain::from_index(a).at_most(Plain::from_index(b)),
{
    lemma_count_exists(a as int);
    lemma_count_exists(b as int);
    lemma_nearest_ordered(a as int, b as int);
    power2::lemma_pow2_pos(149);
    mul::lemma_mul_inequality(nearest_count(a as int), nearest_count(b as int), unit());
}

/// An index below `2^24` is held exactly, and comes back.
pub proof fn lemma_exact_index(n: usize)
    requires
        n < 0x100_0000,
    ensures
        Plain::from_index(n).to_index() == n,
{
    reveal(mag_scaled);
    reveal(mag_units);
    lemma_count_exists(n as int);
    lemma_exact_count(n as int);
    power2::lemma_pow2_pos(149);
    div_mod::lemma_div_by_multiple(n as int, unit());
}

/// One, on the scale of [`Plain::scaled`].
pub open spec fn unit() -> int {
    power2::pow2(149) as int
}

/// Bits a count has beyond the 24 that a significand holds.
pub open spec fn excess_bits(n: int) -> nat
    decreases n,
{
    if n < 0x100_0000 {
        0
    } else {
        1 + excess_bits(n / 2)
    }
}

/// `n` divided by `2^k`, to the nearest integer, ties to the even one.
pub open spec fn half_even(n: int, k: nat) -> int {
    let q = n / (power2::pow2(k) as int);
    let r = 2 * (n % (power2::pow2(k) as int));
    if r > power2::pow2(k) || (r == power2::pow2(k) && q % 2 == 1) {
        q + 1
    } else {
        q
    }
}

/// The count nearest to `n` that a significand can hold, ties to even.
pub open spec fn nearest_count(n: int) -> int {
    half_even(n, excess_bits(n)) * power2::pow2(excess_bits(n))
}

/// Whether `p` is the count `n`, rounded, with the given sign.
pub open spec fn is_count(p: Plain, negative: bool, n: int) -> bool {
    p.negative() == negative && p.is_finite() && mag_scaled(p.mag() as int) == nearest_count(n)
        * unit()
}

/// The count `n` with the given sign, as the conversion from an integer rounds it.
pub open spec fn count(negative: bool, n: int) -> Plain {
    choose|p: Plain| is_count(p, negative, n)
}

/// Two values with the same sign and magnitude are the same value.
pub proof fn lemma_same_value(a: Plain, b: Plain)
    requires
        a.negative() == b.negative(),
        mag_scaled(a.mag() as int) == mag_scaled(b.mag() as int),
    ensures
        a == b,
{
    reveal(mag_scaled);
    let (x, y) = (a.mag() as int, b.mag() as int);
    if x < y {
        lemma_mag_scaled_increases(x, y);
    } else if y < x {
        lemma_mag_scaled_increases(y, x);
    }
}

/// Only one value is the count `n` with a given sign.
pub proof fn lemma_count(p: Plain, negative: bool, n: int)
    requires
        is_count(p, negative, n),
    ensures
        count(negative, n) == p,
{
    lemma_same_value(count(negative, n), p);
}

/// Zero is nothing on the scale of values.
pub proof fn lemma_zero_scaled(z: Plain)
    requires
        z.is_zero(),
    ensures
        z.scaled() == 0,
{
    reveal(mag_scaled);
}

/// A fraction has no whole part.
pub proof fn lemma_fraction_floor(x: Plain)
    requires
        !x.negative(),
        x.less(num(ONE)),
    ensures
        x.floor() == num(ZERO),
{
    reveal(mag_scaled);
    reveal(mag_units);
    lemma_less_by_rank(x, num(ONE));
    let mag = x.mag() as int;
    assert(mag < 127 * EXPONENT);
    lemma_mag_scaled_sign(mag);
    lemma_mag_scaled_increases(mag, 127 * EXPONENT);
    lemma_assemble(EXPONENT as int, 126);
    lemma_pow2_small();
    power2::lemma_pow2_adds(23, 126);
    assert(mag_scaled(mag) < unit());
    div_mod::lemma_basic_div(mag_scaled(mag), unit());
    assert(nearest_count(0) == 0) by {
        power2::lemma2_to64();
        reveal_with_fuel(excess_bits, 1);
    }
    assert(is_count(num(ZERO), false, 0));
    lemma_count(num(ZERO), false, 0);
}

proof fn lemma_assemble(q: int, e: nat)
    requires
        EXPONENT <= q <= 2 * EXPONENT,
    ensures
        mag_scaled(e * EXPONENT + q) == q * power2::pow2(e),
{
    reveal(mag_scaled);
    reveal(mag_units);
    let w: int = EXPONENT as int;
    let mag: int = e * w + q;
    if q < 2 * w {
        assert(mag / w == e + 1 && mag % w == q - w);
        assert(mag_scaled(mag) == q * power2::pow2(e));
    } else {
        assert(mag / w == e + 2 && mag % w == 0);
        power2::lemma_pow2_unfold((e + 1) as nat);
        assert(mag_scaled(mag) == w * power2::pow2((e + 1) as nat));
        assert(w * (2 * power2::pow2(e)) == (2 * w) * power2::pow2(e)) by (nonlinear_arith);
    }
}

/// The powers of two on the scale of values, by the exponent field.
pub proof fn lemma_power_scaled(e: int)
    requires
        1 <= e <= 254,
    ensures
        ({
            let p = Plain { bits: (e * EXPONENT) as u32 };
            &&& p.is_number()
            &&& p.scaled() == power2::pow2((e + 22) as nat)
            &&& e >= 127 ==> p.scaled() == power2::pow2((e - 127) as nat) * unit()
            &&& e <= 127 ==> p.scaled() * power2::pow2((127 - e) as nat) == unit()
        }),
{
    lemma_assemble(EXPONENT as int, (e - 1) as nat);
    lemma_pow2_small();
    power2::lemma_pow2_adds(23, (e - 1) as nat);
    assert((e - 1) * EXPONENT + EXPONENT == e * EXPONENT) by (nonlinear_arith);
    if e >= 127 {
        power2::lemma_pow2_adds((e - 127) as nat, 149);
    }
    if e <= 127 {
        power2::lemma_pow2_adds((e + 22) as nat, (127 - e) as nat);
    }
}

/// Some values on the scale of values.
pub proof fn lemma_small_values()
    ensures
        unit() > 0,
        num(ZERO).scaled() == 0,
        num(ONE).scaled() == unit(),
        num(MINUS_ONE).scaled() == -unit(),
        num(TWO).scaled() == 2 * unit(),
        num(FOUR).scaled() == 4 * unit(),
        num(F8).scaled() == 8 * unit(),
        num(F16).scaled() == 16 * unit(),
        2 * num(HALF).scaled() == unit(),
        4 * num(F0_25).scaled() == unit(),
        4 * num(F0_75).scaled() == 3 * unit(),
        num(F12).scaled() == 12 * unit(),
        num(F5).scaled() == 5 * unit(),
{
    power2::lemma_pow2_pos(149);
    lemma_zero_scaled(num(ZERO));
    lemma_pow2_small();
    power2::lemma2_to64();
    lemma_power_scaled(125);
    lemma_power_scaled(126);
    lemma_power_scaled(127);
    lemma_power_scaled(128);
    lemma_power_scaled(129);
    lemma_power_scaled(130);
    lemma_power_scaled(131);
    power2::lemma_pow2_unfold(149);
    power2::lemma_pow2_unfold(148);
    lemma_assemble(0xc0_0000, 125);
    power2::lemma_pow2_adds(22, 125);
    power2::lemma_pow2_adds(147, 2);
    lemma_assemble(0xc0_0000, 129);
    power2::lemma_pow2_adds(22, 129);
    power2::lemma_pow2_adds(149, 2);
    lemma_assemble(0xa0_0000, 128);
    power2::lemma_pow2_adds(21, 128);
}

/// A whole number on the scale of values, by its significand of `n` times `2^k`.
pub proof fn lemma_whole_value(bits: u32, n: int, k: nat)
    requires
        k <= 23,
        EXPONENT <= n * power2::pow2(k) < 2 * EXPONENT,
        bits == (149 - k) * EXPONENT + n * power2::pow2(k),
    ensures
        num(bits).scaled() == n * unit(),
        num(bits).is_number(),
{
    let e = (149 - k) as nat;
    lemma_assemble(n * power2::pow2(k), e);
    power2::lemma_pow2_adds(k, e);
    let (a, b) = (power2::pow2(k) as int, power2::pow2(e) as int);
    assert((n * a) * b == n * (a * b)) by (nonlinear_arith);
}

/// Negation on the scale of values.
pub proof fn lemma_neg_scaled(x: Plain)
    ensures
        x.neg().scaled() == -x.scaled(),
        x.neg().rank() == -x.rank(),
        x.neg().mag() == x.mag(),
{
}

/// The sign of a value is that of its place on the scale of values.
pub proof fn lemma_scaled_sign(x: Plain)
    ensures
        x.rank() > 0 <==> x.scaled() > 0,
        x.rank() == 0 <==> x.scaled() == 0,
        x.rank() < 0 <==> x.scaled() < 0,
        x.is_zero() <==> x.scaled() == 0,
        x.abs().scaled() == (if x.scaled() < 0 { -x.scaled() } else { x.scaled() }),
{
    lemma_mag_scaled_sign(x.mag() as int);
}

/// What lies between finite values is finite.
pub proof fn lemma_between_finite(low: Plain, x: Plain, high: Plain)
    requires
        low.is_finite(),
        high.is_finite(),
        low.at_most(x),
        x.at_most(high),
    ensures
        x.is_finite(),
        low.scaled() <= x.scaled() <= high.scaled(),
{
    lemma_at_most_by_rank(low, x);
    lemma_at_most_by_rank(x, high);
}

/// Equal values have the same place on the scale.
pub proof fn lemma_equal_scaled(x: Plain, y: Plain)
    ensures
        x.rank() == y.rank() <==> x.scaled() == y.scaled(),
        x.rank() <= y.rank() <==> x.scaled() <= y.scaled(),
        x.rank() < y.rank() <==> x.scaled() < y.scaled(),
        x.rank() == y.rank() ==> x.mag() == y.mag(),
{
    Plain::lemma_rank_orders(x, y);
    Plain::lemma_rank_orders(y, x);
}

/// A step of the exponent field doubles a normal magnitude.
proof fn lemma_exponent_doubles(mag: int, k: nat)
    requires
        EXPONENT <= mag,
    ensures
        mag_scaled(mag + k * EXPONENT) == mag_scaled(mag) * power2::pow2(k),
{
    reveal(mag_scaled);
    let w: int = EXPONENT as int;
    let (e, f) = (mag / w, mag % w);
    assert((mag + k * w) / w == e + k && (mag + k * w) % w == f) by (nonlinear_arith)
        requires
            w == 0x80_0000,
            e == mag / w,
            f == mag % w,
    ;
    power2::lemma_pow2_adds((e - 1) as nat, k);
    let (q, r, s) = (w + f, power2::pow2((e - 1) as nat) as int, power2::pow2(k) as int);
    assert(q * (r * s) == (q * r) * s) by (nonlinear_arith);
    assert(mag + k * w >= w) by (nonlinear_arith)
        requires
            mag >= w,
            w > 0,
    ;
}

/// Twice a number, where that is a number.
pub open spec fn twice(x: Plain) -> Plain {
    if x.is_zero() {
        x
    } else {
        Plain { bits: (x.bits + EXPONENT) as u32 }
    }
}

pub proof fn lemma_twice(x: Plain)
    requires
        x.is_number(),
        x.mag() < INFINITE - EXPONENT,
    ensures
        twice(x).is_number(),
        twice(x).scaled() == 2 * x.scaled(),
{
    if x.is_zero() {
        lemma_zero_scaled(x);
    } else {
        lemma_exponent_doubles(x.mag() as int, 1);
        lemma_pow2_small();
    }
}

/// A number `k` octaves up.
pub proof fn lemma_octaves_up(x: Plain, k: nat)
    requires
        x.is_normal() && !x.negative(),
        x.mag() + k * EXPONENT < INFINITE,
    ensures
        ({
            let r = Plain { bits: (x.bits + k * EXPONENT) as u32 };
            &&& r.is_number()
            &&& r.scaled() == x.scaled() * power2::pow2(k)
        }),
{
    lemma_exponent_doubles(x.mag() as int, k);
}

/// A whole number is its own whole part, and comes back as an integer.
pub proof fn lemma_whole_floor(x: Plain, n: int)
    requires
        x.is_finite(),
        x.scaled() == n * unit(),
        -0x100_0000 < n < 0x100_0000,
    ensures
        x.floor() == x,
        x.to_int(false) == n,
{
    reveal(mag_units);
    power2::lemma_pow2_pos(149);
    let m = if n < 0 {
        -n
    } else {
        n
    };
    let u = unit();
    lemma_scaled_sign(x);
    assert(n < 0 ==> n * u < 0) by (nonlinear_arith)
        requires
            u > 0,
    ;
    assert(n > 0 ==> n * u > 0) by (nonlinear_arith)
        requires
            u > 0,
    ;
    assert((-n) * u == -(n * u)) by (nonlinear_arith);
    assert(mag_scaled(x.mag() as int) == m * u) by {
        if n == 0 {
            assert(0 * u == 0) by (nonlinear_arith);
            lemma_mag_scaled_sign(x.mag() as int);
        }
    }
    div_mod::lemma_div_by_multiple(m, u);
    div_mod::lemma_mod_multiples_basic(m, u);
    lemma_exact_count(m);
    assert(is_count(x, x.negative(), m));
    lemma_count(x, x.negative(), m);
    lemma_pow2_small();
    lemma_power_scaled(151);
    if x.mag() >= 150 * EXPONENT {
        assert(x.floor() == x);
    }
}

/// An integer as a value has its sign, and is no larger than `2^63`.
pub proof fn lemma_int_bounds(n: i64)
    ensures
        ({
            let x = Plain::from_int(n);
            let top = Plain { bits: 0x5f00_0000 }.scaled();
            &&& x.is_finite()
            &&& -top <= x.scaled() <= top
            &&& n >= 0 ==> x.scaled() >= 0
            &&& n <= 0 ==> x.scaled() <= 0
        }),
{
    let m: int = if n < 0 {
        -n
    } else {
        n as int
    };
    let half: int = 0x8000_0000_0000_0000;
    lemma_pow2_small();
    lemma_power_scaled(190);
    power2::lemma_pow2_pos(149);
    let u = unit();
    lemma_count_exists(m);
    lemma_count_exists(half);
    lemma_nearest_ordered(m, half);
    lemma_nearest_ordered(0, m);
    lemma_exact_count(0);
    let (a, b) = (nearest_count(m), nearest_count(half));
    lemma_nearest_of_power();
    let top = Plain { bits: 0x5f00_0000 };
    assert(190 * EXPONENT == 0x5f00_0000);
    assert(top.scaled() == b * u);
    assert(a * u <= b * u && 0 <= a * u) by (nonlinear_arith)
        requires
            0 <= a <= b,
            u > 0,
    ;
    if n < 0 {
        let c = count(false, m);
        assert(is_count(c.neg(), true, m)) by {
            lemma_neg_scaled(c);
        }
        lemma_count(c.neg(), true, m);
    }
    assert(0 * u == 0) by (nonlinear_arith);
    let x = Plain::from_int(n);
    assert(is_count(x, n < 0, m));
    lemma_mag_scaled_sign(x.mag() as int);
}

/// The largest integer that is a power of two is held exactly.
proof fn lemma_nearest_of_power()
    ensures
        nearest_count(0x8000_0000_0000_0000) == 0x8000_0000_0000_0000,
{
    lemma_pow2_small();
    power2::lemma2_to64();
    power2::lemma2_to64_rest();
    reveal_with_fuel(excess_bits, 42);
    assert(excess_bits(0x8000_0000_0000_0000) == 40);
    assert(half_even(0x8000_0000_0000_0000, 40) == 0x80_0000);
}

/// A whole number is not rounded.
pub proof fn lemma_whole_round(x: Plain, n: int)
    requires
        x.is_finite(),
        x.scaled() == n * unit(),
        -0x100_0000 < n < 0x100_0000,
    ensures
        x.round() == x,
{
    reveal(mag_units);
    power2::lemma_pow2_pos(149);
    power2::lemma_pow2_pos(148);
    power2::lemma_pow2_unfold(149);
    let m = if n < 0 {
        -n
    } else {
        n
    };
    let u = unit();
    lemma_scaled_sign(x);
    assert((-n) * u == -(n * u)) by (nonlinear_arith);
    assert((n < 0 ==> n * u < 0) && (n > 0 ==> n * u > 0) && (n == 0 ==> n * u == 0))
        by (nonlinear_arith)
        requires
            u > 0,
    ;
    lemma_mag_scaled_sign(x.mag() as int);
    let h = power2::pow2(148) as int;
    assert((m * u + h) / u == m) by (nonlinear_arith)
        requires
            u == 2 * h,
            h > 0,
    ;
    lemma_exact_count(m);
    assert(is_count(x, x.negative(), m));
    lemma_count(x, x.negative(), m);
}

/// A small integer is held exactly.
pub proof fn lemma_exact_int(n: i64)
    requires
        -0x100_0000 < n < 0x100_0000,
    ensures
        Plain::from_int(n).is_number(),
        Plain::from_int(n).scaled() == n * unit(),
{
    let m: int = if n < 0 {
        -n
    } else {
        n as int
    };
    lemma_count_exists(m);
    lemma_exact_count(m);
    let c = count(false, m);
    let u = unit();
    power2::lemma_pow2_pos(149);
    assert((-(n as int)) * u == -(n * u)) by (nonlinear_arith);
    if n < 0 {
        lemma_neg_scaled(c);
        assert(is_count(c.neg(), true, m));
        lemma_count(c.neg(), true, m);
    }
    let x = Plain::from_int(n);
    assert(is_count(x, n < 0, m));
    lemma_mag_scaled_sign(x.mag() as int);
    if m == 0 {
        assert(0 * u == 0) by (nonlinear_arith);
    } else {
        assert(m * u >= u) by (nonlinear_arith)
            requires
                m >= 1,
                u > 0,
        ;
        lemma_power_scaled(127);
        lemma_pow2_small();
        if (x.mag() as int) < 127 * EXPONENT {
            lemma_mag_scaled_increases(x.mag() as int, 127 * EXPONENT);
        }
    }
}

/// A power of two, and half as much again.
pub proof fn lemma_half_again(e: int)
    requires
        1 <= e <= 254,
    ensures
        ({
            let p = Plain { bits: (e * EXPONENT) as u32 };
            let d = Plain { bits: (e * EXPONENT + 0x40_0000) as u32 };
            &&& p.is_number() && d.is_number()
            &&& 2 * d.scaled() == 3 * p.scaled()
        }),
{
    lemma_power_scaled(e);
    lemma_pow2_small();
    lemma_assemble(0xc0_0000, (e - 1) as nat);
    assert((e - 1) * EXPONENT + 0xc0_0000 == e * EXPONENT + 0x40_0000) by (nonlinear_arith)
        requires
            EXPONENT == 0x80_0000,
    ;
    power2::lemma_pow2_adds(23, (e - 1) as nat);
    let w = power2::pow2((e - 1) as nat) as int;
    assert(2 * (0xc0_0000 * w) == 3 * (0x80_0000 * w)) by (nonlinear_arith);
}

/// A whole number as an index, rounded.
pub proof fn lemma_whole_index(x: Plain, n: int)
    requires
        x.is_finite(),
        x.scaled() == n * unit(),
        0 <= n < 0x100_0000,
    ensures
        x.round_index() == n,
        x.to_index() == n,
{
    reveal(mag_units);
    power2::lemma_pow2_pos(149);
    power2::lemma_pow2_pos(148);
    power2::lemma_pow2_unfold(149);
    lemma_pow2_small();
    let u = unit();
    lemma_scaled_sign(x);
    lemma_mag_scaled_sign(x.mag() as int);
    assert(n > 0 ==> n * u > 0) by (nonlinear_arith)
        requires
            u > 0,
    ;
    assert(n == 0 ==> n * u == 0) by (nonlinear_arith);
    let h = power2::pow2(148) as int;
    assert((n * u + h) / u == n) by (nonlinear_arith)
        requires
            u == 2 * h,
            h > 0,
    ;
    assert((n * u) / u == n) by (nonlinear_arith)
        requires
            u > 0,
    ;
}

/// Whether a value is `n` steps of `2^-23`, the steps between one and two.
pub open spec fn is_steps(p: Plain, n: int) -> bool {
    &&& p.is_number()
    &&& !p.negative()
    &&& p.scaled() == n * power2::pow2(126)
}

/// The value of `n` steps of `2^-23`.
pub open spec fn steps(n: int) -> Plain {
    choose|p: Plain| is_steps(p, n)
}

/// Up to two, every count of steps is a number.
pub proof fn lemma_steps(n: int)
    requires
        0 <= n < 0x100_0000,
    ensures
        is_steps(steps(n), n),
        0x80_0000 * power2::pow2(126) == unit(),
{
    lemma_pow2_small();
    power2::lemma_pow2_adds(23, 126);
    if n == 0 {
        lemma_zero_scaled(num(ZERO));
        assert(is_steps(num(ZERO), 0));
    } else {
        lemma_count_exists(n);
        lemma_exact_count(n);
        let c = count(false, n);
        let m = c.mag() as int;
        lemma_power_scaled(127);
        lemma_pow2_small();
        power2::lemma_pow2_pos(149);
        assert(n * unit() >= unit()) by (nonlinear_arith)
            requires
                n >= 1,
                unit() > 0,
        ;
        if m < 127 * EXPONENT {
            lemma_mag_scaled_increases(m, 127 * EXPONENT);
        }
        lemma_exponent_doubles(m - 23 * EXPONENT, 23);
        let s = mag_scaled(m - 23 * EXPONENT);
        let w = power2::pow2(126) as int;
        assert(s == n * w) by (nonlinear_arith)
            requires
                s * 0x80_0000 == n * (0x80_0000 * w),
        ;
        assert(is_steps(Plain { bits: (c.bits - 23 * EXPONENT) as u32 }, n));
    }
}

/// From one up to two the whole part is one.
pub proof fn lemma_one_floor(x: Plain)
    requires
        num(ONE).at_most(x),
        x.less(num(TWO)),
    ensures
        x.floor() == num(ONE),
{
    reveal(mag_units);
    lemma_at_most_by_rank(num(ONE), x);
    lemma_less_by_rank(x, num(TWO));
    lemma_small_values();
    Plain::lemma_rank_orders(num(ONE), x);
    Plain::lemma_rank_orders(x, num(TWO));
    let s = mag_scaled(x.mag() as int);
    assert(unit() <= s < 2 * unit());
    assert(s / unit() == 1) by (nonlinear_arith)
        requires
            0 < unit() <= s < 2 * unit(),
    ;
    lemma_exact_count(1);
    assert(is_count(num(ONE), false, 1));
    lemma_count(num(ONE), false, 1);
}

/// A magnitude in units of one, rounded down, or to nearest with halves up.
#[verifier::opaque]
pub open spec fn mag_units(mag: int, half: bool) -> int {
    if half {
        (mag_scaled(mag) + power2::pow2(148)) / unit()
    } else {
        mag_scaled(mag) / unit()
    }
}

/// Magnitudes under a half.
proof fn lemma_below_half(mag: int)
    requires
        0 <= mag < 126 * EXPONENT,
    ensures
        0 <= mag_scaled(mag) < power2::pow2(148),
{
    reveal(mag_scaled);
    lemma_mag_scaled_sign(mag);
    lemma_mag_scaled_increases(mag, 126 * EXPONENT);
    lemma_assemble(EXPONENT as int, 125);
    lemma_pow2_small();
    power2::lemma_pow2_adds(23, 125);
}

/// A significand `m` over `2^k` in units of one.
proof fn lemma_units_between(m: int, k: nat, half: bool)
    requires
        EXPONENT <= m < 2 * EXPONENT,
        1 <= k <= 24,
    ensures
        mag_units((149 - k) * EXPONENT + m, half) == (m + if half {
            power2::pow2((k - 1) as nat) as int
        } else {
            0
        }) / power2::pow2(k) as int,
{
    reveal(mag_scaled);
    reveal(mag_units);
    let e: nat = (149 - k) as nat;
    let p: int = power2::pow2(e) as int;
    let d: int = power2::pow2(k) as int;
    let h: int = if half {
        power2::pow2((k - 1) as nat) as int
    } else {
        0
    };
    power2::lemma_pow2_pos(e);
    power2::lemma_pow2_pos(k);
    lemma_assemble(m, e);
    power2::lemma_pow2_adds(e, k);
    power2::lemma_pow2_adds(e, (k - 1) as nat);
    assert(m * p + p * (h) == (m + h) * p) by (nonlinear_arith);
    div_mod::lemma_div_denominator((m + h) * p, p, d);
    div_mod::lemma_div_by_multiple(m + h, p);
    assert(p * 0 == 0);
}

/// A significand `m` times `2^s` in units of one.
proof fn lemma_units_above(m: int, s: nat, half: bool)
    requires
        EXPONENT <= m < 2 * EXPONENT,
    ensures
        mag_units((s + 149) * EXPONENT + m, half) == m * power2::pow2(s),
{
    reveal(mag_scaled);
    reveal(mag_units);
    let u: int = unit();
    let h: int = power2::pow2(148) as int;
    let x: int = m * power2::pow2(s);
    power2::lemma_pow2_pos(148);
    power2::lemma_pow2_unfold(149);
    lemma_assemble(m, (s + 149) as nat);
    power2::lemma_pow2_adds(s, 149);
    let p: int = power2::pow2(s) as int;
    assert(m * (p * u) == (m * p) * u) by (nonlinear_arith);
    div_mod::lemma_div_by_multiple(x, u);
    div_mod::lemma_fundamental_div_mod_converse(x * u + h, u, x, h);
}

proof fn lemma_pow2_small()
    ensures
        power2::pow2(0) == 1,
        power2::pow2(1) == 2,
        power2::pow2(23) == 0x80_0000,
        power2::pow2(24) == 0x100_0000,
        power2::pow2(63) == 0x8000_0000_0000_0000,
{
    power2::lemma2_to64();
    power2::lemma2_to64_rest();
}

/// From `2^23` on, values are whole.
proof fn lemma_whole_above(mag: int)
    requires
        150 * EXPONENT <= mag,
    ensures
        mag_scaled(mag) % unit() == 0,
{
    reveal(mag_scaled);
    let w: int = EXPONENT as int;
    let e: nat = (mag / w - 1) as nat;
    let m: int = w + mag % w;
    let s: nat = (e - 149) as nat;
    power2::lemma_pow2_adds(s, 149);
    let (p, u) = (power2::pow2(s) as int, unit());
    assert(m * (p * u) == (m * p) * u) by (nonlinear_arith);
    power2::lemma_pow2_pos(149);
    div_mod::lemma_mod_multiples_basic(m * p, u);
}

/// Values under `2^23` are under `2^23` units.
proof fn lemma_units_bound(mag: int, half: bool)
    requires
        0 <= mag < 150 * EXPONENT,
    ensures
        0 <= mag_units(mag, half) <= 0x80_0000,
{
    reveal(mag_scaled);
    reveal(mag_units);
    let u: int = unit();
    let s: int = mag_scaled(mag);
    lemma_mag_scaled_sign(mag);
    lemma_mag_scaled_increases(mag, 150 * EXPONENT);
    lemma_assemble(EXPONENT as int, 149);
    power2::lemma_pow2_pos(148);
    power2::lemma_pow2_unfold(149);
    div_mod::lemma_div_by_multiple(0x80_0000, u);
    div_mod::lemma_fundamental_div_mod_converse(
        0x80_0000 * u + power2::pow2(148),
        u,
        0x80_0000,
        power2::pow2(148) as int,
    );
    div_mod::lemma_div_is_ordered(s, 0x80_0000 * u, u);
    div_mod::lemma_div_is_ordered(s + power2::pow2(148), 0x80_0000 * u + power2::pow2(148), u);
    div_mod::lemma_div_pos_is_pos(s, u);
    div_mod::lemma_div_pos_is_pos(s + power2::pow2(148), u);
}

/// Counts up to `2^24` are held exactly.
pub proof fn lemma_exact_count(n: int)
    requires
        0 <= n < 0x100_0000,
    ensures
        nearest_count(n) == n,
{
    lemma_pow2_small();
    assert(excess_bits(n) == 0);
    assert(n / 1 == n && n % 1 == 0);
    assert(half_even(n, 0) == n);
}

proof fn lemma_pow2_ordered(a: nat, b: nat)
    requires
        a <= b,
    ensures
        power2::pow2(a) <= power2::pow2(b),
{
    if a < b {
        power2::lemma_pow2_strictly_increases(a, b);
    }
}

/// The power of two with exponent `k`.
fn power(k: u32) -> (r: u64)
    requires
        k < 64,
    ensures
        r == power2::pow2(k as nat),
        r > 0,
{
    proof {
        bits::lemma_u64_pow2_no_overflow(k as nat);
        bits::lemma_u64_shl_is_mul(1, k as u64);
        power2::lemma_pow2_pos(k as nat);
    }
    1u64 << (k as u64)
}

impl Plain {
    pub open spec fn spec_negative(&self) -> bool {
        self.bits >= SIGN
    }

    pub open spec fn spec_mag(&self) -> u32 {
        if self.bits >= SIGN {
            (self.bits - SIGN) as u32
        } else {
            self.bits
        }
    }

    pub open spec fn spec_is_nan(&self) -> bool {
        self.mag() > INFINITE
    }

    pub open spec fn spec_is_finite(&self) -> bool {
        self.mag() < INFINITE
    }

    /// The value times `2^149`. Means nothing of a NaN.
    pub open spec fn scaled(&self) -> int {
        if self.negative() {
            -mag_scaled(self.mag() as int)
        } else {
            mag_scaled(self.mag() as int)
        }
    }

    pub open spec fn spec_less(&self, other: Plain) -> bool {
        !self.is_nan() && !other.is_nan() && self.scaled() < other.scaled()
    }

    pub open spec fn spec_at_most(&self, other: Plain) -> bool {
        !self.is_nan() && !other.is_nan() && self.scaled() <= other.scaled()
    }

    pub open spec fn spec_equals(&self, other: Plain) -> bool {
        !self.is_nan() && !other.is_nan() && self.scaled() == other.scaled()
    }

    pub open spec fn spec_clamp(&self, low: Plain, high: Plain) -> Plain {
        if self.less(low) {
            low
        } else if high.less(*self) {
            high
        } else {
            *self
        }
    }

    /// Whether the sign bit is set.
    #[verifier::when_used_as_spec(spec_negative)]
    pub fn negative(&self) -> (r: bool)
        ensures
            r == self.negative(),
    {
        self.bits >= SIGN
    }

    /// The bits without the sign bit.
    #[verifier::when_used_as_spec(spec_mag)]
    pub fn mag(&self) -> (r: u32)
        ensures
            r == self.mag(),
    {
        if self.bits >= SIGN {
            self.bits - SIGN
        } else {
            self.bits
        }
    }

    #[verifier::when_used_as_spec(spec_is_nan)]
    pub fn is_nan(&self) -> (r: bool)
        ensures
            r == self.is_nan(),
    {
        self.mag() > INFINITE
    }

    #[verifier::when_used_as_spec(spec_is_finite)]
    pub fn is_finite(&self) -> (r: bool)
        ensures
            r == self.is_finite(),
    {
        self.mag() < INFINITE
    }

    /// The sign-and-magnitude rank of the bits, in which both zeros are zero.
    pub open spec fn rank(&self) -> int {
        if self.negative() {
            -(self.mag() as int)
        } else {
            self.mag() as int
        }
    }

    /// Values are ordered as the ranks of their bits.
    pub proof fn lemma_rank_orders(a: Plain, b: Plain)
        ensures
            a.rank() < b.rank() <==> a.scaled() < b.scaled(),
            a.rank() == b.rank() <==> a.scaled() == b.scaled(),
    {
        reveal(mag_scaled);
        let (x, y) = (a.mag() as int, b.mag() as int);
        lemma_mag_scaled_sign(x);
        lemma_mag_scaled_sign(y);
        if x < y {
            lemma_mag_scaled_increases(x, y);
        } else if y < x {
            lemma_mag_scaled_increases(y, x);
        }
    }

    fn order_rank(&self) -> (r: i64)
        ensures
            r == self.rank(),
    {
        if self.bits >= SIGN {
            -(self.mag() as i64)
        } else {
            self.mag() as i64
        }
    }

    /// `self < other`; false when either is a NaN.
    #[verifier::when_used_as_spec(spec_less)]
    pub fn less(&self, other: Plain) -> (r: bool)
        ensures
            r == self.less(other),
    {
        proof {
            Plain::lemma_rank_orders(*self, other);
        }
        !self.is_nan() && !other.is_nan() && self.order_rank() < other.order_rank()
    }

    /// `self <= other`; false when either is a NaN.
    #[verifier::when_used_as_spec(spec_at_most)]
    pub fn at_most(&self, other: Plain) -> (r: bool)
        ensures
            r == self.at_most(other),
    {
        proof {
            Plain::lemma_rank_orders(*self, other);
        }
        !self.is_nan() && !other.is_nan() && self.order_rank() <= other.order_rank()
    }

    /// Numeric equality: the two zeros are equal, and a NaN equals nothing.
    #[verifier::when_used_as_spec(spec_equals)]
    pub fn equals(&self, other: Plain) -> (r: bool)
        ensures
            r == self.equals(other),
    {
        proof {
            Plain::lemma_rank_orders(*self, other);
        }
        !self.is_nan() && !other.is_nan() && self.order_rank() == other.order_rank()
    }

    /// The nearest value of `[low, high]`; a NaN is returned as it is.
    #[verifier::when_used_as_spec(spec_clamp)]
    pub fn clamp(&self, low: Plain, high: Plain) -> (r: Plain)
        requires
            low.at_most(high),
        ensures
            r == self.clamp(low, high),
    {
        if self.less(low) {
            low
        } else if high.less(*self) {
            high
        } else {
            *self
        }
    }

    /// The count `n` with the given sign, rounded to nearest, ties to even.
    fn of_count(negative: bool, n: u64) -> (r: Plain)
        ensures
            r == count(negative, n as int),
            is_count(r, negative, n as int),
    {
        let mag: u32 = if n < 0x80_0000 {
            Plain::narrow_count(n)
        } else {
            Plain::wide_count(n)
        };
        let r = Plain { bits: if negative { SIGN + mag } else { mag } };
        proof {
            lemma_count(r, negative, n as int);
        }
        r
    }

    /// Magnitude bits of a count that a significand holds with bits to spare.
    fn narrow_count(n: u64) -> (mag: u32)
        requires
            n < 0x80_0000,
        ensures
            mag < INFINITE,
            mag_scaled(mag as int) == nearest_count(n as int) * unit(),
    {
        proof {
            reveal(mag_scaled);
        }
        proof {
            lemma_pow2_small();
            lemma_exact_count(n as int);
            assert(0 * unit() == 0);
        }
        if n == 0 {
            return 0;
        }
        let mut m: u64 = n;
        let mut s: u32 = 0;
        proof {
            assert(n * power2::pow2(0) == n);
        }
        while m < 0x80_0000
            invariant
                0 < n < 0x80_0000,
                0 < m < 0x100_0000,
                s <= 23,
                m == n * power2::pow2(s as nat),
            decreases 0x100_0000 - m,
        {
            proof {
                power2::lemma_pow2_unfold((s + 1) as nat);
                let p: int = power2::pow2(s as nat) as int;
                assert(n * (2 * p) == 2 * (n * p)) by (nonlinear_arith);
                if s == 23 {
                    lemma_pow2_small();
                    assert(n * 0x80_0000 >= 0x80_0000) by (nonlinear_arith)
                        requires
                            n > 0,
                    ;
                }
            }
            m = m * 2;
            s = s + 1;
        }
        proof {
            let e: nat = (149 - s) as nat;
            lemma_assemble(m as int, e);
            power2::lemma_pow2_adds(s as nat, e);
            let (p, q) = (power2::pow2(s as nat) as int, power2::pow2(e) as int);
            assert((n * p) * q == n * (p * q)) by (nonlinear_arith);
        }
        (149 - s) * EXPONENT + m as u32
    }

    /// Magnitude bits of a count that fills a significand, or overfills it.
    fn wide_count(n: u64) -> (mag: u32)
        requires
            n >= 0x80_0000,
        ensures
            mag < INFINITE,
            mag_scaled(mag as int) == nearest_count(n as int) * unit(),
    {
        proof {
            reveal(mag_scaled);
        }
        let mut m: u64 = n;
        let mut k: u32 = 0;
        let mut p: u64 = 1;
        proof {
            lemma_pow2_small();
        }
        while m >= 0x100_0000
            invariant
                n >= 0x80_0000,
                m >= 0x80_0000,
                k <= 40,
                p == power2::pow2(k as nat),
                p <= n,
                m == n as int / power2::pow2(k as nat) as int,
                excess_bits(n as int) == k + excess_bits(m as int),
            decreases m,
        {
            proof {
                power2::lemma_pow2_pos(k as nat);
                power2::lemma_pow2_unfold((k + 1) as nat);
                div_mod::lemma_div_denominator(n as int, p as int, 2);
                div_mod::lemma_fundamental_div_mod(n as int, p as int);
                assert(p * m >= p * 0x100_0000) by (nonlinear_arith)
                    requires
                        m >= 0x100_0000,
                ;
                if k == 40 {
                    power2::lemma_pow2_adds(40, 23);
                    lemma_pow2_small();
                    assert(power2::pow2(40) * 0x80_0000 == 0x8000_0000_0000_0000);
                }
            }
            m = m / 2;
            k = k + 1;
            p = p * 2;
        }
        proof {
            power2::lemma_pow2_pos(k as nat);
        }
        let r: u64 = n % p;
        proof {
            assert(excess_bits(n as int) == k);
            assert(r == n as int % p as int);
        }
        let up: bool = r > p - r || (r == p - r && m % 2 == 1);
        let q: u64 = if up {
            m + 1
        } else {
            m
        };
        proof {
            assert(q == half_even(n as int, k as nat));
            let e: nat = (k + 149) as nat;
            lemma_assemble(q as int, e);
            power2::lemma_pow2_adds(k as nat, 149);
            let (a, b) = (power2::pow2(k as nat) as int, unit());
            assert(q * (a * b) == (q * a) * b) by (nonlinear_arith);
        }
        (k + 149) * EXPONENT + q as u32
    }

    /// The magnitude in units of one, rounded down, or up from halves when
    /// `half` is set; held at `u64::MAX`.
    fn whole_mag(mag: u32, half: bool) -> (r: u64)
        requires
            mag <= INFINITE,
        ensures
            r == (if mag_units(mag as int, half) < u64::MAX {
                mag_units(mag as int, half)
            } else {
                u64::MAX as int
            }),
    {
        proof {
            reveal(mag_scaled);
            reveal(mag_units);
        }
        let e: u32 = mag / EXPONENT;
        let m: u64 = (EXPONENT + mag % EXPONENT) as u64;
        proof {
            lemma_pow2_small();
            power2::lemma_pow2_pos(148);
            power2::lemma_pow2_unfold(149);
        }
        if e < 126 {
            proof {
                lemma_below_half(mag as int);
                div_mod::lemma_basic_div(mag_scaled(mag as int), unit());
                div_mod::lemma_basic_div(mag_scaled(mag as int) + power2::pow2(148), unit());
            }
            return 0;
        }
        if e < 150 {
            let k: u32 = 150 - e;
            let d: u64 = power(k);
            let h: u64 = if half { power(k - 1) } else { 0 };
            proof {
                lemma_units_between(m as int, k as nat, half);
                lemma_pow2_ordered(k as nat, 24);
                lemma_pow2_ordered((k - 1) as nat, 24);
            }
            return (m + h) / d;
        }
        let s: u32 = e - 150;
        proof {
            lemma_units_above(m as int, s as nat, half);
            power2::lemma_pow2_adds(40, 23);
            power2::lemma_pow2_unfold(41);
            if s <= 40 {
                lemma_pow2_ordered(s as nat, 40);
                let p: int = power2::pow2(s as nat) as int;
                assert(m * p <= 0xff_ffff * power2::pow2(40)) by (nonlinear_arith)
                    requires
                        m <= 0xff_ffff,
                        0 <= p <= power2::pow2(40),
                ;
                power2::lemma_pow2_pos(s as nat);
            } else {
                lemma_pow2_ordered(41, s as nat);
                let p: int = power2::pow2(s as nat) as int;
                assert(m * p >= 0x80_0000 * power2::pow2(41)) by (nonlinear_arith)
                    requires
                        m >= 0x80_0000,
                        p >= power2::pow2(41),
                ;
            }
        }
        if s <= 40 {
            m * power(s)
        } else {
            u64::MAX
        }
    }

    pub open spec fn spec_from_int(n: i64) -> Plain {
        if n < 0 {
            count(true, -n)
        } else {
            count(false, n as int)
        }
    }

    pub open spec fn spec_from_index(n: usize) -> Plain {
        count(false, n as int)
    }

    pub open spec fn spec_to_index(&self) -> usize {
        if self.is_nan() || self.negative() {
            0
        } else if mag_units(self.mag() as int, false) < usize::MAX {
            mag_units(self.mag() as int, false) as usize
        } else {
            usize::MAX
        }
    }

    pub open spec fn spec_round_index(&self) -> usize {
        if self.is_nan() || self.negative() {
            0
        } else if mag_units(self.mag() as int, true) < usize::MAX {
            mag_units(self.mag() as int, true) as usize
        } else {
            usize::MAX
        }
    }

    pub open spec fn spec_to_int(&self, half: bool) -> i64 {
        let n = mag_units(self.mag() as int, half);
        if self.is_nan() {
            0
        } else if self.negative() {
            if n <= i64::MAX {
                (-n) as i64
            } else {
                i64::MIN
            }
        } else {
            if n <= i64::MAX {
                n as i64
            } else {
                i64::MAX
            }
        }
    }

    /// The integer `n` as a value, rounded to nearest, ties to even.
    #[verifier::when_used_as_spec(spec_from_int)]
    pub fn from_int(n: i64) -> (r: Plain)
        ensures
            r == Plain::from_int(n),
            is_count(r, n < 0, if n < 0 { -n } else { n as int }),
    {
        if n < 0 {
            Plain::of_count(true, (-(n + 1)) as u64 + 1)
        } else {
            Plain::of_count(false, n as u64)
        }
    }

    /// An index or length as a value, rounded to nearest, ties to even.
    #[verifier::when_used_as_spec(spec_from_index)]
    pub fn from_index(n: usize) -> (r: Plain)
        ensures
            r == Plain::from_index(n),
            is_count(r, false, n as int),
    {
        Plain::of_count(false, n as u64)
    }

    /// The value as an index: rounded toward zero, with zero for negative values
    /// and NaN and `usize::MAX` for what is too large.
    #[verifier::when_used_as_spec(spec_to_index)]
    pub fn to_index(&self) -> (r: usize)
        ensures
            r == self.to_index(),
    {
        if self.is_nan() || self.negative() {
            0
        } else {
            let n: u64 = Plain::whole_mag(self.mag(), false);
            if n < usize::MAX as u64 {
                n as usize
            } else {
                usize::MAX
            }
        }
    }

    /// As [`Plain::to_index`], but to the nearest index, halves away from zero.
    #[verifier::when_used_as_spec(spec_round_index)]
    pub fn round_index(&self) -> (r: usize)
        ensures
            r == self.round_index(),
    {
        proof {
            reveal(mag_scaled);
            reveal(mag_units);
        }
        if self.is_nan() || self.negative() {
            0
        } else {
            let n: u64 = Plain::whole_mag(self.mag(), true);
            if n < usize::MAX as u64 {
                n as usize
            } else {
                usize::MAX
            }
        }
    }

    pub open spec fn spec_ceil_index(&self) -> usize {
        let n = mag_units(self.mag() as int, false) + if mag_scaled(self.mag() as int) % unit()
            == 0 {
            0int
        } else {
            1
        };
        if self.is_nan() || self.negative() {
            0
        } else if n < usize::MAX {
            n as usize
        } else {
            usize::MAX
        }
    }

    /// As [`Plain::to_index`], but to the next index up.
    #[verifier::when_used_as_spec(spec_ceil_index)]
    pub fn ceil_index(&self) -> (r: usize)
        ensures
            r == self.ceil_index(),
    {
        proof {
            reveal(mag_scaled);
            reveal(mag_units);
        }
        if self.is_nan() || self.negative() {
            return 0;
        }
        let mag: u32 = self.mag();
        let w: u64 = Plain::whole_mag(mag, false);
        let up: bool;
        if mag >= 150 * EXPONENT {
            proof {
                lemma_whole_above(mag as int);
            }
            up = false;
        } else {
            proof {
                lemma_units_bound(mag as int, false);
            }
            let down = Plain::of_count(false, w);
            proof {
                let s: int = mag_scaled(mag as int);
                lemma_exact_count(w as int);
                power2::lemma_pow2_pos(149);
                div_mod::lemma_fundamental_div_mod(s, unit());
                mul::lemma_mul_is_commutative(w as int, unit());
                if s % unit() == 0 {
                    lemma_same_value(down, *self);
                }
            }
            up = down.mag() != mag;
        }
        if w >= usize::MAX as u64 {
            usize::MAX
        } else if up {
            w as usize + 1
        } else {
            w as usize
        }
    }

    /// The value as an integer: toward zero, or to nearest with halves away from
    /// zero when `half` is set. Zero for NaN, the nearest bound when too large.
    #[verifier::when_used_as_spec(spec_to_int)]
    pub fn to_int(&self, half: bool) -> (r: i64)
        ensures
            r == self.to_int(half),
    {
        proof {
            reveal(mag_scaled);
            reveal(mag_units);
        }
        if self.is_nan() {
            return 0;
        }
        let n: u64 = Plain::whole_mag(self.mag(), half);
        if self.negative() {
            if n <= i64::MAX as u64 {
                -(n as i64)
            } else {
                i64::MIN
            }
        } else {
            if n <= i64::MAX as u64 {
                n as i64
            } else {
                i64::MAX
            }
        }
    }

    pub open spec fn spec_trunc(&self) -> Plain {
        if self.mag() >= 150 * EXPONENT {
            *self
        } else {
            count(self.negative(), mag_units(self.mag() as int, false))
        }
    }

    pub open spec fn spec_floor(&self) -> Plain {
        if self.mag() >= 150 * EXPONENT {
            *self
        } else if self.negative() && mag_scaled(self.mag() as int) % unit() != 0 {
            count(true, mag_units(self.mag() as int, false) + 1)
        } else {
            count(self.negative(), mag_units(self.mag() as int, false))
        }
    }

    pub open spec fn spec_round(&self) -> Plain {
        if self.mag() >= 150 * EXPONENT {
            *self
        } else {
            count(self.negative(), mag_units(self.mag() as int, true))
        }
    }

    /// The integral value toward zero. From `2^23` on every value is integral.
    #[verifier::when_used_as_spec(spec_trunc)]
    pub fn trunc(&self) -> (r: Plain)
        ensures
            r == self.trunc(),
    {
        if self.mag() >= 150 * EXPONENT {
            return *self;
        }
        proof {
            lemma_units_bound(self.mag() as int, false);
        }
        Plain::of_count(self.negative(), Plain::whole_mag(self.mag(), false))
    }

    /// The largest integral value not above this one.
    #[verifier::when_used_as_spec(spec_floor)]
    pub fn floor(&self) -> (r: Plain)
        ensures
            r == self.floor(),
    {
        proof {
            reveal(mag_scaled);
            reveal(mag_units);
        }
        let mag: u32 = self.mag();
        if mag >= 150 * EXPONENT {
            return *self;
        }
        proof {
            lemma_units_bound(mag as int, false);
        }
        let w: u64 = Plain::whole_mag(mag, false);
        let down = Plain::of_count(self.negative(), w);
        proof {
            let s: int = mag_scaled(mag as int);
            lemma_exact_count(w as int);
            power2::lemma_pow2_pos(149);
            div_mod::lemma_fundamental_div_mod(s, unit());
            mul::lemma_mul_is_commutative(w as int, unit());
            if down.mag() == mag {
                assert(s % unit() == 0);
            }
            if s % unit() == 0 {
                lemma_same_value(down, *self);
            }
        }
        if self.negative() && down.mag() != mag {
            Plain::of_count(true, w + 1)
        } else {
            down
        }
    }

    /// The nearest integral value, halves away from zero.
    #[verifier::when_used_as_spec(spec_round)]
    pub fn round(&self) -> (r: Plain)
        ensures
            r == self.round(),
    {
        if self.mag() >= 150 * EXPONENT {
            return *self;
        }
        proof {
            lemma_units_bound(self.mag() as int, true);
        }
        Plain::of_count(self.negative(), Plain::whole_mag(self.mag(), true))
    }

    pub open spec fn spec_neg(&self) -> Plain {
        if self.negative() {
            Plain { bits: (self.bits - SIGN) as u32 }
        } else {
            Plain { bits: (self.bits + SIGN) as u32 }
        }
    }

    pub open spec fn spec_abs(&self) -> Plain {
        Plain { bits: self.mag() }
    }

    pub open spec fn spec_max(&self, other: Plain) -> Plain {
        if self.is_nan() || self.less(other) {
            other
        } else {
            *self
        }
    }

    pub open spec fn spec_min(&self, other: Plain) -> Plain {
        if self.is_nan() || other.less(*self) {
            other
        } else {
            *self
        }
    }

    pub open spec fn spec_is_normal(&self) -> bool {
        EXPONENT <= self.mag() < INFINITE
    }

    /// One of the two zeros.
    pub open spec fn is_zero(&self) -> bool {
        self.mag() == 0
    }

    /// A number that arithmetic keeps at full precision: zero or normal.
    pub open spec fn is_number(&self) -> bool {
        self.is_zero() || self.is_normal()
    }

    /// The value with the opposite sign.
    #[verifier::when_used_as_spec(spec_neg)]
    pub fn neg(&self) -> (r: Plain)
        ensures
            r == self.neg(),
    {
        if self.bits >= SIGN {
            Plain { bits: self.bits - SIGN }
        } else {
            Plain { bits: self.bits + SIGN }
        }
    }

    /// The value without its sign.
    #[verifier::when_used_as_spec(spec_abs)]
    pub fn abs(&self) -> (r: Plain)
        ensures
            r == self.abs(),
    {
        Plain { bits: self.mag() }
    }

    /// The larger of two values; the other one when either is a NaN.
    #[verifier::when_used_as_spec(spec_max)]
    pub fn max(&self, other: Plain) -> (r: Plain)
        ensures
            r == self.max(other),
    {
        if self.is_nan() || self.less(other) {
            other
        } else {
            *self
        }
    }

    /// The smaller of two values; the other one when either is a NaN.
    #[verifier::when_used_as_spec(spec_min)]
    pub fn min(&self, other: Plain) -> (r: Plain)
        ensures
            r == self.min(other),
    {
        if self.is_nan() || other.less(*self) {
            other
        } else {
            *self
        }
    }

    /// Whether the value is neither zero, subnormal, infinite nor NaN.
    #[verifier::when_used_as_spec(spec_is_normal)]
    pub fn is_normal(&self) -> (r: bool)
        ensures
            r == self.is_normal(),
    {
        let m: u32 = self.mag();
        EXPONENT <= m && m < INFINITE
    }
}

} // verus!
