//! Fast approximations of elementary functions.
use crate::fpu::{Fpu, Op};
use crate::nums::{
    F0_00133336, F0_00961813, F0_05550411, F0_225, F0_2402265, F0_25, F0_75, F1024, F10395, F12, F1260, F128, F16,
    F21, F210, F2_5, F4725, F8, F8_175799, FOUR, HALF, LN_2, MINUS_F150, MINUS_F2_5, MINUS_ONE, ONE,
    TAU, TWO, ZERO,
};
use crate::plain::{self, num, Plain, EXPONENT, INFINITE};
use vstd::prelude::*;

verus! {

broadcast use crate::plain::group_by_rank;

/// Points in the sine table.
pub const SINE_POINTS: usize = 1024;

/// The quiet NaN.
pub const NOT_A_NUMBER: u32 = 0x7fc0_0000;

pub open spec fn spec_fast_tanh<A: Fn(Op, Plain, Plain) -> Plain>(fpu: &Fpu<A>, x: Plain) -> Plain {
    if num(F2_5).at_most(x) {
        num(ONE)
    } else if x.at_most(num(MINUS_F2_5)) {
        num(MINUS_ONE)
    } else {
        let x2 = fpu.mul(x, x);
        let x4 = fpu.mul(x2, x2);
        let x6 = fpu.mul(x4, x2);
        let upper = fpu.mul(
            x,
            fpu.add(fpu.add(num(F10395), fpu.mul(num(F1260), x2)), fpu.mul(num(F21), x4)),
        );
        let lower = fpu.add(
            fpu.add(fpu.add(num(F10395), fpu.mul(num(F4725), x2)), fpu.mul(num(F210), x4)),
            fpu.mul(num(FOUR), x6),
        );
        fpu.div(upper, lower)
    }
}

/// Rational (Padé degree-5/6) approximation to `tanh`, saturating to ±1 for
/// `|x| ≥ 2.5`.
#[verifier::when_used_as_spec(spec_fast_tanh)]
pub fn fast_tanh<A: Fn(Op, Plain, Plain) -> Plain>(fpu: &Fpu<A>, x: Plain) -> (r: Plain)
    requires
        fpu.valid(),
    ensures
        r == fast_tanh(fpu, x),
{
    if num(F2_5).at_most(x) {
        num(ONE)
    } else if x.at_most(num(MINUS_F2_5)) {
        num(MINUS_ONE)
    } else {
        let x2 = fpu.mul(x, x);
        let x4 = fpu.mul(x2, x2);
        let x6 = fpu.mul(x4, x2);
        let upper = fpu.mul(
            x,
            fpu.add(fpu.add(num(F10395), fpu.mul(num(F1260), x2)), fpu.mul(num(F21), x4)),
        );
        let lower = fpu.add(
            fpu.add(fpu.add(num(F10395), fpu.mul(num(F4725), x2)), fpu.mul(num(F210), x4)),
            fpu.mul(num(FOUR), x6),
        );
        fpu.div(upper, lower)
    }
}

/// The squares, fourth and sixth powers that the saturation works with stay small.
pub proof fn lemma_tanh_powers<A: Fn(Op, Plain, Plain) -> Plain>(fpu: &Fpu<A>, x: Plain)
    requires
        fpu.rounds(),
        x.is_finite(),
        -4 * plain::unit() <= x.scaled() <= 4 * plain::unit(),
    ensures
        ({
            let x2 = fpu.mul(x, x);
            let x4 = fpu.mul(x2, x2);
            let x6 = fpu.mul(x4, x2);
            let top = fpu.add(
                fpu.add(num(F10395), fpu.mul(num(F1260), x2)),
                fpu.mul(num(F21), x4),
            );
            let lower = fpu.add(
                fpu.add(fpu.add(num(F10395), fpu.mul(num(F4725), x2)), fpu.mul(num(F210), x4)),
                fpu.mul(num(FOUR), x6),
            );
            &&& top.is_finite() && top.scaled() > 0
            &&& lower.is_finite() && lower.scaled() >= plain::unit()
            &&& fpu.mul(x, top).is_finite()
            &&& -0x100_0000 * plain::unit() <= fpu.mul(x, top).scaled() <= 0x100_0000
                * plain::unit()
        }),
{
    plain::lemma_small_values();
    let u = plain::unit();
    vstd::arithmetic::power2::lemma2_to64();
    let p12 = num(0x4580_0000);
    let p14 = num(0x4680_0000);
    let p16 = num(0x4780_0000);
    let p20 = num(0x4980_0000);
    let p22 = num(0x4a80_0000);
    let p24 = num(0x4b80_0000);
    let p26 = num(0x4c80_0000);
    plain::lemma_power_scaled(139);
    plain::lemma_power_scaled(141);
    plain::lemma_power_scaled(143);
    plain::lemma_power_scaled(147);
    plain::lemma_power_scaled(149);
    plain::lemma_power_scaled(151);
    plain::lemma_power_scaled(153);
    plain::lemma_power_scaled(135);
    let p8 = num(0x4380_0000);
    plain::lemma_equal_scaled(num(F10395), p14);
    plain::lemma_equal_scaled(num(F1260), p12);
    plain::lemma_equal_scaled(num(F4725), p14);
    plain::lemma_equal_scaled(num(F210), p8);
    plain::lemma_equal_scaled(num(F21), num(0x4200_0000));
    plain::lemma_power_scaled(132);
    plain::lemma_equal_scaled(num(ONE), num(F10395));
    plain::lemma_scaled_sign(num(F10395));
    plain::lemma_scaled_sign(num(F1260));
    plain::lemma_scaled_sign(num(F4725));
    plain::lemma_scaled_sign(num(F210));
    plain::lemma_scaled_sign(num(F21));
    let x2 = fpu.mul(x, x);
    assert((4 * u) * (4 * u) == (16 * u) * u) by (nonlinear_arith);
    fpu.lemma_mul_within(x, x, 4 * u, 4 * u, num(F16));
    let s = x.scaled();
    assert(s * s >= 0 * u) by (nonlinear_arith);
    lemma_product_not_negative(fpu, x, x);
    let x4 = fpu.mul(x2, x2);
    assert((16 * u) * (16 * u) == (256 * u) * u) by (nonlinear_arith);
    fpu.lemma_mul_within(x2, x2, 16 * u, 16 * u, p8);
    let x2s = x2.scaled();
    assert(x2s * x2s >= 0) by (nonlinear_arith);
    lemma_product_not_negative(fpu, x2, x2);
    let x6 = fpu.mul(x4, x2);
    assert((256 * u) * (16 * u) == (4096 * u) * u) by (nonlinear_arith);
    fpu.lemma_mul_within(x4, x2, 256 * u, 16 * u, p12);
    lemma_product_of_positives(fpu, x4, x2);
    let a = fpu.mul(num(F1260), x2);
    assert((4096 * u) * (16 * u) == (65536 * u) * u) by (nonlinear_arith);
    fpu.lemma_mul_within(num(F1260), x2, 4096 * u, 16 * u, p16);
    lemma_product_of_positives(fpu, num(F1260), x2);
    let b = fpu.mul(num(F21), x4);
    assert((32 * u) * (256 * u) <= p16.scaled() * u) by (nonlinear_arith)
        requires
            p16.scaled() == 65536 * u,
            u > 0,
    ;
    fpu.lemma_mul_within(num(F21), x4, 32 * u, 256 * u, p16);
    lemma_product_of_positives(fpu, num(F21), x4);
    let c = fpu.mul(num(F4725), x2);
    assert((16384 * u) * (16 * u) <= p20.scaled() * u) by (nonlinear_arith)
        requires
            p20.scaled() == 1048576 * u,
            u > 0,
    ;
    fpu.lemma_mul_within(num(F4725), x2, 16384 * u, 16 * u, p20);
    lemma_product_of_positives(fpu, num(F4725), x2);
    let d = fpu.mul(num(F210), x4);
    assert((256 * u) * (256 * u) == (65536 * u) * u) by (nonlinear_arith);
    fpu.lemma_mul_within(num(F210), x4, 256 * u, 256 * u, p16);
    lemma_product_of_positives(fpu, num(F210), x4);
    let e = fpu.mul(num(FOUR), x6);
    assert((4 * u) * (4096 * u) == (16384 * u) * u) by (nonlinear_arith);
    fpu.lemma_mul_within(num(FOUR), x6, 4 * u, 4096 * u, p14);
    lemma_product_of_positives(fpu, num(FOUR), x6);
    let t1 = fpu.add(num(F10395), a);
    fpu.lemma_add_within(num(F10395), a, p14.scaled(), p16.scaled(), p20);
    fpu.lemma_add_side(num(F10395), a, num(F10395));
    plain::lemma_equal_scaled(num(F10395), t1);
    let top = fpu.add(t1, b);
    fpu.lemma_add_within(t1, b, p20.scaled(), p16.scaled(), p22);
    fpu.lemma_add_side(t1, b, num(F10395));
    plain::lemma_equal_scaled(num(F10395), top);
    let l1 = fpu.add(num(F10395), c);
    fpu.lemma_add_within(num(F10395), c, p14.scaled(), p20.scaled(), p22);
    fpu.lemma_add_side(num(F10395), c, num(F10395));
    plain::lemma_equal_scaled(num(F10395), l1);
    let l2 = fpu.add(l1, d);
    fpu.lemma_add_within(l1, d, p22.scaled(), p16.scaled(), p24);
    fpu.lemma_add_side(l1, d, num(F10395));
    plain::lemma_equal_scaled(num(F10395), l2);
    let lower = fpu.add(l2, e);
    assert(p24.scaled() + p14.scaled() <= p26.scaled()) by (nonlinear_arith)
        requires
            p14.scaled() == 16384 * u,
            p24.scaled() == 16777216 * u,
            p26.scaled() == 67108864 * u,
            u > 0,
    ;
    fpu.lemma_add_within(l2, e, p24.scaled(), p14.scaled(), p26);
    fpu.lemma_add_side(l2, e, num(F10395));
    plain::lemma_equal_scaled(num(F10395), lower);
    assert((4 * u) * p22.scaled() == p24.scaled() * u) by (nonlinear_arith)
        requires
            p22.scaled() == 4194304 * u,
            p24.scaled() == 16777216 * u,
    ;
    fpu.lemma_mul_within(x, top, 4 * u, p22.scaled(), p24);
}

/// A product of factors of one sign is not negative.
proof fn lemma_product_not_negative<A: Fn(Op, Plain, Plain) -> Plain>(
    fpu: &Fpu<A>,
    a: Plain,
    b: Plain,
)
    requires
        fpu.rounds(),
        a.is_finite() && b.is_finite(),
        a.scaled() * b.scaled() >= 0,
    ensures
        fpu.mul(a, b).scaled() >= 0,
{
    plain::lemma_small_values();
    let u = plain::unit();
    assert(0 * u == 0) by (nonlinear_arith);
    fpu.lemma_mul_side(a, b, num(ZERO));
    plain::lemma_equal_scaled(num(ZERO), fpu.mul(a, b));
}

proof fn lemma_product_of_positives<A: Fn(Op, Plain, Plain) -> Plain>(
    fpu: &Fpu<A>,
    a: Plain,
    b: Plain,
)
    requires
        fpu.rounds(),
        a.is_finite() && b.is_finite(),
        a.scaled() >= 0 && b.scaled() >= 0,
    ensures
        fpu.mul(a, b).scaled() >= 0,
{
    let (s, t) = (a.scaled(), b.scaled());
    assert(s * t >= 0) by (nonlinear_arith)
        requires
            s >= 0,
            t >= 0,
    ;
    lemma_product_not_negative(fpu, a, b);
}

/// The saturation keeps the sign of a sample, passes silence, and never leaves the range from
/// minus one to one far outside it: beyond two and a half either way it is flat.
pub proof fn lemma_tanh_keeps_sign<A: Fn(Op, Plain, Plain) -> Plain>(fpu: &Fpu<A>, x: Plain)
    requires
        fpu.rounds(),
        x.is_finite(),
    ensures
        x.scaled() >= 0 ==> fast_tanh(fpu, x).scaled() >= 0,
        x.scaled() <= 0 ==> fast_tanh(fpu, x).scaled() <= 0,
        x.is_zero() ==> fast_tanh(fpu, x).is_zero(),
        num(F2_5).at_most(x) ==> fast_tanh(fpu, x) == num(ONE),
        x.at_most(num(MINUS_F2_5)) ==> fast_tanh(fpu, x) == num(MINUS_ONE),
{
    plain::lemma_small_values();
    plain::lemma_equal_scaled(num(F2_5), num(FOUR));
    plain::lemma_neg_scaled(num(FOUR));
    plain::lemma_equal_scaled(num(MINUS_F2_5), num(FOUR).neg());
    plain::lemma_equal_scaled(x, num(F2_5));
    plain::lemma_equal_scaled(x, num(MINUS_F2_5));
    plain::lemma_scaled_sign(num(F2_5));
    plain::lemma_scaled_sign(num(MINUS_F2_5));
    plain::lemma_scaled_sign(x);
    if !num(F2_5).at_most(x) && !x.at_most(num(MINUS_F2_5)) {
        lemma_tanh_powers(fpu, x);
        let x2 = fpu.mul(x, x);
        let x4 = fpu.mul(x2, x2);
        let x6 = fpu.mul(x4, x2);
        let top = fpu.add(
            fpu.add(num(F10395), fpu.mul(num(F1260), x2)),
            fpu.mul(num(F21), x4),
        );
        let lower = fpu.add(
            fpu.add(fpu.add(num(F10395), fpu.mul(num(F4725), x2)), fpu.mul(num(F210), x4)),
            fpu.mul(num(FOUR), x6),
        );
        let upper = fpu.mul(x, top);
        let (s, t, u) = (x.scaled(), top.scaled(), plain::unit());
        assert(0 * u == 0) by (nonlinear_arith);
        assert((s >= 0 ==> s * t >= 0) && (s <= 0 ==> s * t <= 0)) by (nonlinear_arith)
            requires
                t > 0,
        ;
        fpu.lemma_mul_side(x, top, num(ZERO));
        plain::lemma_equal_scaled(upper, num(ZERO));
        let (n, l) = (upper.scaled(), lower.scaled());
        assert(0 * l == 0 && (n >= 0 ==> n * u >= 0) && (n <= 0 ==> n * u <= 0))
            by (nonlinear_arith)
            requires
                u > 0,
        ;
        fpu.lemma_div_side(upper, lower, num(ZERO));
        let r = fpu.div(upper, lower);
        plain::lemma_equal_scaled(r, num(ZERO));
        plain::lemma_scaled_sign(r);
    }
}

/// A saturated sample is finite.
pub proof fn lemma_tanh_bounds<A: Fn(Op, Plain, Plain) -> Plain>(fpu: &Fpu<A>, x: Plain)
    requires
        fpu.rounds(),
        x.is_finite(),
    ensures
        fast_tanh(fpu, x).is_finite(),
        -0x100_0000 * plain::unit() <= fast_tanh(fpu, x).scaled() <= 0x100_0000 * plain::unit(),
{
    plain::lemma_small_values();
    plain::lemma_equal_scaled(num(F2_5), num(FOUR));
    plain::lemma_neg_scaled(num(FOUR));
    plain::lemma_equal_scaled(num(MINUS_F2_5), num(FOUR).neg());
    plain::lemma_equal_scaled(x, num(F2_5));
    plain::lemma_equal_scaled(x, num(MINUS_F2_5));
    if !num(F2_5).at_most(x) && !x.at_most(num(MINUS_F2_5)) {
        lemma_tanh_powers(fpu, x);
        let x2 = fpu.mul(x, x);
        let x4 = fpu.mul(x2, x2);
        let x6 = fpu.mul(x4, x2);
        let top = fpu.add(
            fpu.add(num(F10395), fpu.mul(num(F1260), x2)),
            fpu.mul(num(F21), x4),
        );
        let lower = fpu.add(
            fpu.add(fpu.add(num(F10395), fpu.mul(num(F4725), x2)), fpu.mul(num(F210), x4)),
            fpu.mul(num(FOUR), x6),
        );
        let upper = fpu.mul(x, top);
        let p24 = num(0x4b80_0000);
        plain::lemma_power_scaled(151);
        vstd::arithmetic::power2::lemma2_to64();
        let (n, l, u) = (p24.scaled(), lower.scaled(), plain::unit());
        assert(n * u <= n * l) by (nonlinear_arith)
            requires
                0 < u <= l,
                n >= 0,
        ;
        fpu.lemma_div_within(upper, lower, n, p24);
    }
}

/// Whether the saturation keeps the order of the sizes of two samples. It does by its curve;
/// where the curve is flat, rounding may not.
pub open spec fn tanh_keeps_order<A: Fn(Op, Plain, Plain) -> Plain>(
    fpu: &Fpu<A>,
    x: Plain,
    y: Plain,
) -> bool {
    x.mag() <= y.mag() ==> fast_tanh(fpu, x).mag() <= fast_tanh(fpu, y).mag()
}

/// The saturation treats both polarities alike.
pub proof fn lemma_tanh_is_odd<A: Fn(Op, Plain, Plain) -> Plain>(fpu: &Fpu<A>, x: Plain)
    requires
        fpu.rounds(),
        x.is_finite(),
    ensures
        fast_tanh(fpu, x.neg()).rank() == -fast_tanh(fpu, x).rank(),
{
    plain::lemma_small_values();
    let y = x.neg();
    plain::lemma_neg_scaled(x);
    plain::lemma_equal_scaled(num(F2_5), num(FOUR));
    plain::lemma_neg_scaled(num(FOUR));
    plain::lemma_equal_scaled(num(MINUS_F2_5), num(FOUR).neg());
    plain::lemma_equal_scaled(x, num(F2_5));
    plain::lemma_equal_scaled(x, num(MINUS_F2_5));
    if !num(F2_5).at_most(x) && !x.at_most(num(MINUS_F2_5)) {
        lemma_tanh_powers(fpu, x);
        lemma_tanh_powers(fpu, y);
        fpu.lemma_one_square(x);
        let x2 = fpu.mul(x, x);
        let x4 = fpu.mul(x2, x2);
        let x6 = fpu.mul(x4, x2);
        let top = fpu.add(
            fpu.add(num(F10395), fpu.mul(num(F1260), x2)),
            fpu.mul(num(F21), x4),
        );
        let lower = fpu.add(
            fpu.add(fpu.add(num(F10395), fpu.mul(num(F4725), x2)), fpu.mul(num(F210), x4)),
            fpu.mul(num(FOUR), x6),
        );
        fpu.lemma_mul_opposite(x, top, y, top);
        let (p, q) = (fpu.mul(x, top), fpu.mul(y, top));
        plain::lemma_neg_scaled(p);
        plain::lemma_equal_scaled(q, p.neg());
        fpu.lemma_div_turns(p, lower);
        let (n, l) = (q.scaled(), lower.scaled());
        fpu.lemma_div_order(q, lower, p.neg(), lower);
        fpu.lemma_div_order(p.neg(), lower, q, lower);
    }
}

pub open spec fn spec_sine_entry<A: Fn(Op, Plain, Plain) -> Plain>(
    fpu: &Fpu<A>,
    i: usize,
) -> Plain {
    fpu.sin(fpu.mul(fpu.div(Plain::from_index(i), num(F1024)), num(TAU)))
}

/// Entry `i` of the sine table.
#[verifier::when_used_as_spec(spec_sine_entry)]
fn sine_entry<A: Fn(Op, Plain, Plain) -> Plain>(fpu: &Fpu<A>, i: usize) -> (r: Plain)
    requires
        fpu.valid(),
    ensures
        r == sine_entry(fpu, i),
{
    fpu.sin(fpu.mul(fpu.div(Plain::from_index(i), num(F1024)), num(TAU)))
}

/// One period of a sine, at 1024 equally spaced phases.
pub struct SineTable {
    values: Vec<Plain>,
}

impl SineTable {
    pub closed spec fn view(&self) -> Seq<Plain> {
        self.values@
    }

    /// The table that this arithmetic computes.
    pub open spec fn tabulates<A: Fn(Op, Plain, Plain) -> Plain>(&self, fpu: &Fpu<A>) -> bool {
        self@ == Seq::new(SINE_POINTS as nat, |i: int| spec_sine_entry(fpu, i as usize))
    }

    pub fn new<A: Fn(Op, Plain, Plain) -> Plain>(fpu: &Fpu<A>) -> (r: SineTable)
        requires
            fpu.valid(),
        ensures
            r.tabulates(fpu),
    {
        let mut values: Vec<Plain> = Vec::new();
        for i in 0..SINE_POINTS
            invariant
                fpu.valid(),
                values@ == Seq::new(i as nat, |j: int| spec_sine_entry(fpu, j as usize)),
        {
            values.push(sine_entry(fpu, i));
        }
        SineTable { values }
    }

    /// Entry `i`, counted round the period.
    fn at(&self, i: usize) -> (r: Plain)
        requires
            self@.len() == SINE_POINTS,
        ensures
            r == self@[i as int % SINE_POINTS as int],
    {
        self.values[i % SINE_POINTS]
    }
}

/// The table read at `phase` of a period, interpolated between neighbours.
pub open spec fn sine_at<A: Fn(Op, Plain, Plain) -> Plain>(
    fpu: &Fpu<A>,
    phase: Plain,
) -> Plain {
    let index = fpu.mul(phase, num(F1024));
    let whole = index.to_index();
    let frac = fpu.sub(index, Plain::from_index(whole));
    let i = whole as int % SINE_POINTS as int;
    let a = spec_sine_entry(fpu, i as usize);
    let b = spec_sine_entry(fpu, ((i + 1) % SINE_POINTS as int) as usize);
    fpu.add(a, fpu.mul(fpu.sub(b, a), frac))
}

/// Linearly interpolated lookup in the sine table. `phase` in `[0, 1)`.
pub fn lookup_sine<A: Fn(Op, Plain, Plain) -> Plain>(
    fpu: &Fpu<A>,
    table: &SineTable,
    phase: Plain,
) -> (r: Plain)
    requires
        fpu.valid(),
        table.tabulates(fpu),
    ensures
        r == sine_at(fpu, phase),
{
    let index = fpu.mul(phase, num(F1024));
    let whole: usize = index.to_index();
    let frac = fpu.sub(index, Plain::from_index(whole));
    let a = table.at(whole);
    let b = table.at(whole % SINE_POINTS + 1);
    fpu.add(a, fpu.mul(fpu.sub(b, a), frac))
}

pub open spec fn spec_fast_sine<A: Fn(Op, Plain, Plain) -> Plain>(
    fpu: &Fpu<A>,
    phase: Plain,
) -> Plain {
    let x1 = fpu.sub(phase, num(HALF));
    let x2 = fpu.mul(fpu.mul(x1, num(F16)), fpu.sub(x1.abs(), num(HALF)));
    fpu.add(x2, fpu.mul(fpu.mul(num(F0_225), x2), fpu.sub(x2.abs(), num(ONE))))
}

/// Bhaskara-I + Moser polynomial sine. `phase` in `[0, 1)`.
#[verifier::when_used_as_spec(spec_fast_sine)]
pub fn fast_sine<A: Fn(Op, Plain, Plain) -> Plain>(fpu: &Fpu<A>, phase: Plain) -> (r: Plain)
    requires
        fpu.valid(),
    ensures
        r == fast_sine(fpu, phase),
{
    let x1 = fpu.sub(phase, num(HALF));
    let x2 = fpu.mul(fpu.mul(x1, num(F16)), fpu.sub(x1.abs(), num(HALF)));
    fpu.add(x2, fpu.mul(fpu.mul(num(F0_225), x2), fpu.sub(x2.abs(), num(ONE))))
}

/// A place in a cycle.
pub open spec fn is_phase(p: Plain) -> bool {
    p.is_finite() && 0 <= p.scaled() <= plain::unit()
}

/// The ramp of a cycle: one unit below zero at its start, one above at its end.
pub open spec fn ramp<A: Fn(Op, Plain, Plain) -> Plain>(fpu: &Fpu<A>, p: Plain) -> Plain {
    fpu.sub(fpu.mul(num(TWO), p), num(ONE))
}

/// A ramp stays between minus one and one, and twice the phase is finite.
pub proof fn lemma_ramp_bounds<A: Fn(Op, Plain, Plain) -> Plain>(fpu: &Fpu<A>, p: Plain)
    requires
        fpu.rounds(),
        is_phase(p),
    ensures
        fpu.mul(num(TWO), p).is_finite(),
        num(ZERO).at_most(fpu.mul(num(TWO), p)),
        num(MINUS_ONE).at_most(ramp(fpu, p)),
        ramp(fpu, p).at_most(num(ONE)),
{
    plain::lemma_small_values();
    let (u, s) = (plain::unit(), p.scaled());
    let m = fpu.mul(num(TWO), p);
    assert(0 * u <= (2 * u) * s && (2 * u) * s <= (2 * u) * u) by (nonlinear_arith)
        requires
            0 <= s <= u,
            u > 0,
    ;
    fpu.lemma_mul_side(num(TWO), p, num(ZERO));
    fpu.lemma_mul_side(num(TWO), p, num(TWO));
    plain::lemma_between_finite(num(ZERO), m, num(TWO));
    fpu.lemma_sub_side(m, num(ONE), num(MINUS_ONE));
    fpu.lemma_sub_side(m, num(ONE), num(ONE));
}

/// A ramp rises through the cycle.
pub proof fn lemma_ramp_rises<A: Fn(Op, Plain, Plain) -> Plain>(fpu: &Fpu<A>, p: Plain, q: Plain)
    requires
        fpu.rounds(),
        is_phase(p) && is_phase(q),
        p.at_most(q),
    ensures
        ramp(fpu, p).at_most(ramp(fpu, q)),
{
    plain::lemma_small_values();
    lemma_ramp_bounds(fpu, p);
    lemma_ramp_bounds(fpu, q);
    fpu.lemma_scaling_rises(p, q, num(TWO));
    plain::lemma_equal_scaled(fpu.mul(num(TWO), p), fpu.mul(num(TWO), q));
    fpu.lemma_sub_order(fpu.mul(num(TWO), p), num(ONE), fpu.mul(num(TWO), q), num(ONE));
}

/// Twice a phase is exact.
proof fn lemma_twice_phase<A: Fn(Op, Plain, Plain) -> Plain>(fpu: &Fpu<A>, p: Plain)
    requires
        fpu.rounds(),
        is_phase(p) && p.is_number(),
    ensures
        fpu.mul(num(TWO), p).is_finite(),
        fpu.mul(num(TWO), p).scaled() == 2 * p.scaled(),
{
    plain::lemma_small_values();
    plain::lemma_equal_scaled(p, num(ONE));
    plain::lemma_scaled_sign(p);
    plain::lemma_twice(p);
    let (u, s) = (plain::unit(), p.scaled());
    assert((2 * u) * s == (2 * s) * u) by (nonlinear_arith);
    fpu.lemma_mul_side(num(TWO), p, plain::twice(p));
    plain::lemma_equal_scaled(fpu.mul(num(TWO), p), plain::twice(p));
}

/// A ramp reads twice the phase less one, wherever that is a number.
pub proof fn lemma_ramp_value<A: Fn(Op, Plain, Plain) -> Plain>(fpu: &Fpu<A>, p: Plain, r: Plain)
    requires
        fpu.rounds(),
        is_phase(p) && p.is_number(),
        r.is_number(),
        r.scaled() == 2 * p.scaled() - plain::unit(),
    ensures
        ramp(fpu, p).equals(r),
{
    plain::lemma_small_values();
    lemma_twice_phase(fpu, p);
    fpu.lemma_sub_side(fpu.mul(num(TWO), p), num(ONE), r);
}

/// The triangle of a cycle: up to its middle and down again.
pub open spec fn tent<A: Fn(Op, Plain, Plain) -> Plain>(fpu: &Fpu<A>, p: Plain) -> Plain {
    fpu.sub(num(ONE), fpu.mul(num(FOUR), fpu.sub(p, num(HALF)).abs()))
}

/// The distance from the middle of the cycle, and four times it.
proof fn lemma_from_middle<A: Fn(Op, Plain, Plain) -> Plain>(fpu: &Fpu<A>, p: Plain)
    requires
        fpu.rounds(),
        is_phase(p),
    ensures
        ({
            let d = fpu.sub(p, num(HALF));
            &&& d.is_finite()
            &&& -plain::unit() <= 2 * d.scaled() <= plain::unit()
            &&& 2 * p.scaled() <= plain::unit() ==> d.scaled() <= 0
            &&& 2 * p.scaled() >= plain::unit() ==> d.scaled() >= 0
            &&& d.abs().is_finite()
            &&& fpu.mul(num(FOUR), d.abs()).is_finite()
            &&& 0 <= fpu.mul(num(FOUR), d.abs()).scaled() <= 2 * plain::unit()
        }),
{
    plain::lemma_small_values();
    let d = fpu.sub(p, num(HALF));
    plain::lemma_neg_scaled(num(HALF));
    fpu.lemma_sub_side(p, num(HALF), num(HALF));
    fpu.lemma_sub_side(p, num(HALF), num(HALF).neg());
    fpu.lemma_sub_side(p, num(HALF), num(ZERO));
    plain::lemma_between_finite(num(HALF).neg(), d, num(HALF));
    plain::lemma_equal_scaled(d, num(ZERO));
    plain::lemma_scaled_sign(d);
    let (u, s) = (plain::unit(), d.abs().scaled());
    assert(0 * u <= (4 * u) * s && (4 * u) * s <= (2 * u) * u) by (nonlinear_arith)
        requires
            0 <= 2 * s <= u,
            u > 0,
    ;
    fpu.lemma_mul_side(num(FOUR), d.abs(), num(ZERO));
    fpu.lemma_mul_side(num(FOUR), d.abs(), num(TWO));
    plain::lemma_between_finite(num(ZERO), fpu.mul(num(FOUR), d.abs()), num(TWO));
}

/// A triangle stays between minus one and one.
pub proof fn lemma_tent_bounds<A: Fn(Op, Plain, Plain) -> Plain>(fpu: &Fpu<A>, p: Plain)
    requires
        fpu.rounds(),
        is_phase(p),
    ensures
        num(MINUS_ONE).at_most(tent(fpu, p)),
        tent(fpu, p).at_most(num(ONE)),
{
    plain::lemma_small_values();
    lemma_from_middle(fpu, p);
    let m = fpu.mul(num(FOUR), fpu.sub(p, num(HALF)).abs());
    fpu.lemma_sub_side(num(ONE), m, num(MINUS_ONE));
    fpu.lemma_sub_side(num(ONE), m, num(ONE));
}

/// The nearer to the middle of the cycle, the higher a triangle reads.
proof fn lemma_tent_order<A: Fn(Op, Plain, Plain) -> Plain>(fpu: &Fpu<A>, p: Plain, q: Plain)
    requires
        fpu.rounds(),
        is_phase(p) && is_phase(q),
        fpu.sub(q, num(HALF)).abs().scaled() <= fpu.sub(p, num(HALF)).abs().scaled(),
    ensures
        tent(fpu, p).at_most(tent(fpu, q)),
{
    plain::lemma_small_values();
    lemma_from_middle(fpu, p);
    lemma_from_middle(fpu, q);
    let (a, b) = (fpu.sub(p, num(HALF)).abs(), fpu.sub(q, num(HALF)).abs());
    plain::lemma_equal_scaled(b, a);
    fpu.lemma_scaling_rises(b, a, num(FOUR));
    plain::lemma_equal_scaled(fpu.mul(num(FOUR), b), fpu.mul(num(FOUR), a));
    fpu.lemma_sub_order(num(ONE), fpu.mul(num(FOUR), a), num(ONE), fpu.mul(num(FOUR), b));
}

/// A triangle rises through the first half of the cycle and falls through the second.
pub proof fn lemma_tent_rises_and_falls<A: Fn(Op, Plain, Plain) -> Plain>(
    fpu: &Fpu<A>,
    p: Plain,
    q: Plain,
)
    requires
        fpu.rounds(),
        is_phase(p) && is_phase(q),
        p.at_most(q),
    ensures
        2 * q.scaled() <= plain::unit() ==> tent(fpu, p).at_most(tent(fpu, q)),
        2 * p.scaled() >= plain::unit() ==> tent(fpu, q).at_most(tent(fpu, p)),
{
    plain::lemma_small_values();
    lemma_from_middle(fpu, p);
    lemma_from_middle(fpu, q);
    let (a, b) = (fpu.sub(p, num(HALF)), fpu.sub(q, num(HALF)));
    fpu.lemma_sub_order(p, num(HALF), q, num(HALF));
    plain::lemma_equal_scaled(a, b);
    plain::lemma_scaled_sign(a);
    plain::lemma_scaled_sign(b);
    if 2 * q.scaled() <= plain::unit() {
        lemma_tent_order(fpu, p, q);
    }
    if 2 * p.scaled() >= plain::unit() {
        lemma_tent_order(fpu, q, p);
    }
}

/// A triangle reads the same at equal distances from the middle of the cycle.
pub proof fn lemma_tent_is_even<A: Fn(Op, Plain, Plain) -> Plain>(fpu: &Fpu<A>, p: Plain, q: Plain)
    requires
        fpu.rounds(),
        is_phase(p) && is_phase(q),
        p.scaled() + q.scaled() == plain::unit(),
    ensures
        tent(fpu, p).equals(tent(fpu, q)),
{
    plain::lemma_small_values();
    lemma_from_middle(fpu, p);
    lemma_from_middle(fpu, q);
    let h = num(HALF);
    let (a, b) = (fpu.sub(p, h), fpu.sub(q, h));
    fpu.lemma_sub_turns(q, h);
    fpu.lemma_sub_order(p, h, h, q);
    fpu.lemma_sub_order(h, q, p, h);
    plain::lemma_neg_scaled(b);
    plain::lemma_equal_scaled(a, b.neg());
    plain::lemma_scaled_sign(a);
    plain::lemma_scaled_sign(b);
    lemma_tent_order(fpu, p, q);
    lemma_tent_order(fpu, q, p);
}

/// A triangle reads one less four times the distance from the middle of the cycle, wherever
/// the distance, four times it and the reading are numbers.
pub proof fn lemma_tent_value<A: Fn(Op, Plain, Plain) -> Plain>(
    fpu: &Fpu<A>,
    p: Plain,
    d: Plain,
    r: Plain,
)
    requires
        fpu.rounds(),
        is_phase(p),
        d.is_number(),
        r.is_number(),
        2 * d.scaled() == 2 * p.scaled() - plain::unit() || 2 * d.scaled() == plain::unit() - 2
            * p.scaled(),
        d.scaled() >= 0,
        r.scaled() == plain::unit() - 4 * d.scaled(),
    ensures
        tent(fpu, p).equals(r),
{
    plain::lemma_small_values();
    lemma_from_middle(fpu, p);
    let h = num(HALF);
    let a = fpu.sub(p, h);
    plain::lemma_neg_scaled(d);
    fpu.lemma_sub_side(p, h, d);
    fpu.lemma_sub_side(p, h, d.neg());
    plain::lemma_equal_scaled(a, d);
    plain::lemma_equal_scaled(a, d.neg());
    plain::lemma_scaled_sign(a);
    plain::lemma_scaled_sign(d);
    assert(a.abs().scaled() == d.scaled());
    plain::lemma_equal_scaled(d, num(ONE));
    plain::lemma_twice(d);
    plain::lemma_equal_scaled(plain::twice(d), num(TWO));
    plain::lemma_twice(plain::twice(d));
    let four_d = plain::twice(plain::twice(d));
    let (u, s) = (plain::unit(), d.scaled());
    assert((4 * u) * s == (2 * (2 * s)) * u) by (nonlinear_arith);
    fpu.lemma_mul_side(num(FOUR), a.abs(), four_d);
    plain::lemma_equal_scaled(fpu.mul(num(FOUR), a.abs()), four_d);
    fpu.lemma_sub_side(num(ONE), fpu.mul(num(FOUR), a.abs()), r);
}

/// The parabola that a fast sine starts from.
spec fn arch<A: Fn(Op, Plain, Plain) -> Plain>(fpu: &Fpu<A>, x1: Plain) -> Plain {
    fpu.mul(fpu.mul(x1, num(F16)), fpu.sub(x1.abs(), num(HALF)))
}

/// The steps of a fast sine stay small.
proof fn lemma_arch_bounds<A: Fn(Op, Plain, Plain) -> Plain>(fpu: &Fpu<A>, x1: Plain)
    requires
        fpu.rounds(),
        x1.is_finite(),
        -plain::unit() <= 2 * x1.scaled() <= plain::unit(),
    ensures
        ({
            let x2 = arch(fpu, x1);
            let u = plain::unit();
            &&& fpu.mul(x1, num(F16)).is_finite()
            &&& fpu.sub(x1.abs(), num(HALF)).is_finite()
            &&& x2.is_finite() && -8 * u <= x2.scaled() <= 8 * u
            &&& fpu.mul(num(F0_225), x2).is_finite()
            &&& fpu.sub(x2.abs(), num(ONE)).is_finite()
            &&& fpu.mul(fpu.mul(num(F0_225), x2), fpu.sub(x2.abs(), num(ONE))).is_finite()
        }),
{
    plain::lemma_small_values();
    let u = plain::unit();
    let (eight, one, sixteen) = (num(F8), num(ONE), num(F16));
    let huge = num(0x4300_0000);
    plain::lemma_power_scaled(134);
    vstd::arithmetic::power2::lemma2_to64();
    let h = num(HALF).scaled();
    plain::lemma_scaled_sign(x1);
    assert(h * (16 * u) == (8 * u) * u) by (nonlinear_arith)
        requires
            2 * h == u,
    ;
    fpu.lemma_mul_within(x1, sixteen, h, 16 * u, eight);
    fpu.lemma_add_within(x1.abs(), num(HALF), h, h, one);
    fpu.lemma_mul_within(fpu.mul(x1, sixteen), fpu.sub(x1.abs(), num(HALF)), 8 * u, u, eight);
    let x2 = arch(fpu, x1);
    plain::lemma_scaled_sign(x2);
    plain::lemma_equal_scaled(num(F0_225), one);
    plain::lemma_scaled_sign(num(F0_225));
    assert(u * (8 * u) == (8 * u) * u) by (nonlinear_arith);
    fpu.lemma_mul_within(num(F0_225), x2, u, 8 * u, eight);
    fpu.lemma_add_within(x2.abs(), one, 8 * u, u, sixteen);
    assert((8 * u) * (16 * u) == (128 * u) * u) by (nonlinear_arith);
    fpu.lemma_mul_within(
        fpu.mul(num(F0_225), x2),
        fpu.sub(x2.abs(), one),
        8 * u,
        16 * u,
        huge,
    );
}

/// The second half of a sine is the first turned over: phases at equal distances from the
/// middle of the cycle read opposite values.
pub proof fn lemma_sine_is_odd<A: Fn(Op, Plain, Plain) -> Plain>(fpu: &Fpu<A>, p: Plain, q: Plain)
    requires
        fpu.rounds(),
        is_phase(p) && is_phase(q),
        p.scaled() + q.scaled() == plain::unit(),
    ensures
        fast_sine(fpu, q).rank() == -fast_sine(fpu, p).rank(),
{
    plain::lemma_small_values();
    lemma_from_middle(fpu, p);
    lemma_from_middle(fpu, q);
    let h = num(HALF);
    let (a, b) = (fpu.sub(p, h), fpu.sub(q, h));
    fpu.lemma_sub_turns(q, h);
    fpu.lemma_sub_order(p, h, h, q);
    fpu.lemma_sub_order(h, q, p, h);
    plain::lemma_neg_scaled(b);
    plain::lemma_equal_scaled(a, b.neg());
    assert(a.abs() == b.abs());
    lemma_arch_bounds(fpu, a);
    lemma_arch_bounds(fpu, b);
    let (c, d) = (fpu.mul(a, num(F16)), fpu.mul(b, num(F16)));
    fpu.lemma_mul_opposite(a, num(F16), b, num(F16));
    plain::lemma_neg_scaled(c);
    plain::lemma_equal_scaled(d, c.neg());
    let f = fpu.sub(a.abs(), h);
    fpu.lemma_mul_opposite(c, f, d, f);
    let (x, y) = (arch(fpu, a), arch(fpu, b));
    plain::lemma_neg_scaled(x);
    plain::lemma_equal_scaled(y, x.neg());
    assert(x.abs() == y.abs());
    fpu.lemma_mul_opposite(x, num(F0_225), y, num(F0_225));
    let (v, w) = (fpu.mul(num(F0_225), x), fpu.mul(num(F0_225), y));
    plain::lemma_neg_scaled(v);
    plain::lemma_equal_scaled(w, v.neg());
    let g = fpu.sub(x.abs(), num(ONE));
    fpu.lemma_mul_opposite(v, g, w, g);
    let (k, l) = (fpu.mul(v, g), fpu.mul(w, g));
    plain::lemma_neg_scaled(k);
    plain::lemma_equal_scaled(l, k.neg());
    fpu.lemma_add_opposite(x, k, y, l);
}

/// A sine starts at zero, is one a quarter into the cycle, zero in its middle and minus one at
/// three quarters.
pub proof fn lemma_sine_quarters<A: Fn(Op, Plain, Plain) -> Plain>(fpu: &Fpu<A>)
    requires
        fpu.rounds(),
    ensures
        fast_sine(fpu, num(ZERO)).is_zero(),
        fast_sine(fpu, num(F0_25)) == num(ONE),
        fast_sine(fpu, num(HALF)).is_zero(),
        fast_sine(fpu, num(F0_75)) == num(MINUS_ONE),
{
    plain::lemma_small_values();
    let u = plain::unit();
    let h = num(HALF);
    let q = num(F0_25);
    let (hs, qs) = (h.scaled(), q.scaled());
    // The middle, where the distance is nothing.
    let a = fpu.sub(h, h);
    fpu.lemma_sub_side(h, h, num(ZERO));
    plain::lemma_equal_scaled(a, num(ZERO));
    fpu.lemma_none_of(num(F16), a);
    lemma_arch_bounds(fpu, a);
    fpu.lemma_none_of(fpu.sub(a.abs(), h), fpu.mul(a, num(F16)));
    lemma_flat_sine(fpu, arch(fpu, a));
    // The start, where the parabola meets it.
    let b = fpu.sub(num(ZERO), h);
    plain::lemma_neg_scaled(h);
    fpu.lemma_sub_side(num(ZERO), h, h.neg());
    assert(b == h.neg());
    plain::lemma_scaled_sign(b);
    assert(b.abs() == h);
    lemma_arch_bounds(fpu, b);
    fpu.lemma_none_of(fpu.mul(b, num(F16)), a);
    lemma_flat_sine(fpu, arch(fpu, b));
    // A quarter, where the parabola is one.
    let c = fpu.sub(q, h);
    plain::lemma_neg_scaled(q);
    fpu.lemma_sub_side(q, h, q.neg());
    assert(c == q.neg());
    assert(c.abs() == q);
    lemma_arch_bounds(fpu, c);
    plain::lemma_neg_scaled(num(FOUR));
    let m4 = num(FOUR).neg();
    assert((-qs) * (16 * u) == (-4 * u) * u) by (nonlinear_arith)
        requires
            4 * qs == u,
    ;
    fpu.lemma_mul_side(c, num(F16), m4);
    assert(fpu.mul(c, num(F16)) == m4);
    assert((-4 * u) * (-qs) == u * u) by (nonlinear_arith)
        requires
            4 * qs == u,
    ;
    fpu.lemma_mul_side(m4, c, num(ONE));
    assert(arch(fpu, c) == num(ONE));
    let z = fpu.sub(num(ONE), num(ONE));
    fpu.lemma_sub_side(num(ONE), num(ONE), num(ZERO));
    fpu.lemma_none_of(fpu.mul(num(F0_225), num(ONE)), z);
    fpu.lemma_nothing_added(num(ONE), fpu.mul(fpu.mul(num(F0_225), num(ONE)), z));
    assert(fast_sine(fpu, q) == num(ONE));
    // Three quarters, by symmetry.
    lemma_sine_is_odd(fpu, q, num(F0_75));
}

/// Where the parabola is nothing, so is the sine.
proof fn lemma_flat_sine<A: Fn(Op, Plain, Plain) -> Plain>(fpu: &Fpu<A>, x2: Plain)
    requires
        fpu.rounds(),
        x2.is_zero(),
    ensures
        fpu.add(
            x2,
            fpu.mul(fpu.mul(num(F0_225), x2), fpu.sub(x2.abs(), num(ONE))),
        ).is_zero(),
{
    plain::lemma_small_values();
    plain::lemma_zero_scaled(x2);
    plain::lemma_zero_scaled(x2.abs());
    let w = fpu.mul(num(F0_225), x2);
    fpu.lemma_none_of(num(F0_225), x2);
    fpu.lemma_sub_side(x2.abs(), num(ONE), num(MINUS_ONE));
    fpu.lemma_none_of(fpu.sub(x2.abs(), num(ONE)), w);
    fpu.lemma_nothing_added(x2, fpu.mul(w, fpu.sub(x2.abs(), num(ONE))));
}

pub open spec fn spec_exp2_fraction<A: Fn(Op, Plain, Plain) -> Plain>(
    fpu: &Fpu<A>,
    f: Plain,
) -> Plain {
    let poly = fpu.add(
        fpu.mul(
            fpu.add(
                fpu.mul(
                    fpu.add(
                        fpu.mul(fpu.add(fpu.mul(num(F0_00133336), f), num(F0_00961813)), f),
                        num(F0_05550411),
                    ),
                    f,
                ),
                num(F0_2402265),
            ),
            f,
        ),
        num(LN_2),
    );
    fpu.add(fpu.mul(poly, f), num(ONE))
}

/// Fifth-order polynomial for `2^f` on the fractional part of an exponent.
#[verifier::when_used_as_spec(spec_exp2_fraction)]
fn exp2_fraction<A: Fn(Op, Plain, Plain) -> Plain>(fpu: &Fpu<A>, f: Plain) -> (r: Plain)
    requires
        fpu.valid(),
    ensures
        r == exp2_fraction(fpu, f),
{
    let poly = fpu.add(
        fpu.mul(
            fpu.add(
                fpu.mul(
                    fpu.add(
                        fpu.mul(fpu.add(fpu.mul(num(F0_00133336), f), num(F0_00961813)), f),
                        num(F0_05550411),
                    ),
                    f,
                ),
                num(F0_2402265),
            ),
            f,
        ),
        num(LN_2),
    );
    fpu.add(fpu.mul(poly, f), num(ONE))
}

/// The power of two with a given exponent in the normal range.
pub open spec fn power_of_two(e: int) -> Plain
    recommends
        -127 < e < 128,
{
    num(((e + 127) * EXPONENT) as u32)
}

pub open spec fn spec_fast_exp2<A: Fn(Op, Plain, Plain) -> Plain>(
    fpu: &Fpu<A>,
    x: Plain,
) -> Plain {
    if x.is_nan() {
        num(NOT_A_NUMBER)
    } else if num(F128).at_most(x) {
        num(INFINITE)
    } else if x.at_most(num(MINUS_F150)) {
        num(ZERO)
    } else {
        let i = x.floor();
        let e = i.to_int(false);
        if e <= -127 {
            num(ZERO)
        } else if e >= 128 {
            num(INFINITE)
        } else {
            fpu.mul(power_of_two(e as int), spec_exp2_fraction(fpu, fpu.sub(x, i)))
        }
    }
}

/// Fast `2^x`: the integer part through the exponent field, a polynomial on the
/// fractional part.
#[verifier::when_used_as_spec(spec_fast_exp2)]
pub fn fast_exp2<A: Fn(Op, Plain, Plain) -> Plain>(fpu: &Fpu<A>, x: Plain) -> (r: Plain)
    requires
        fpu.valid(),
    ensures
        r == fast_exp2(fpu, x),
{
    if x.is_nan() {
        return num(NOT_A_NUMBER);
    }
    if num(F128).at_most(x) {
        return num(INFINITE);
    }
    if x.at_most(num(MINUS_F150)) {
        return num(ZERO);
    }
    let i = x.floor();
    let e: i64 = i.to_int(false);
    if e <= -127 {
        return num(ZERO);
    }
    if e >= 128 {
        return num(INFINITE);
    }
    let power = num((e + 127) as u32 * EXPONENT);
    fpu.mul(power, exp2_fraction(fpu, fpu.sub(x, i)))
}

pub open spec fn spec_note_to_hz<A: Fn(Op, Plain, Plain) -> Plain>(
    fpu: &Fpu<A>,
    note: Plain,
) -> Plain {
    fpu.mul(num(F8_175799), fast_exp2(fpu, fpu.div(note, num(F12))))
}

/// Frequency in Hz of a MIDI note number, with fractional cents or bend.
#[verifier::when_used_as_spec(spec_note_to_hz)]
pub fn note_to_hz<A: Fn(Op, Plain, Plain) -> Plain>(fpu: &Fpu<A>, note: Plain) -> (r: Plain)
    requires
        fpu.valid(),
    ensures
        r == note_to_hz(fpu, note),
{
    fpu.mul(num(F8_175799), fast_exp2(fpu, fpu.div(note, num(F12))))
}

pub open spec fn spec_flush_denormal(x: Plain) -> Plain {
    if !x.is_normal() && !x.equals(num(ZERO)) {
        num(ZERO)
    } else {
        x
    }
}

/// Flush a denormal, infinite or NaN value to zero: the guard on filter and delay
/// feedback state that decays into the denormal range.
#[verifier::when_used_as_spec(spec_flush_denormal)]
pub fn flush_denormal(x: Plain) -> (r: Plain)
    ensures
        r == flush_denormal(x),
{
    if !x.is_normal() && !x.equals(num(ZERO)) {
        num(ZERO)
    } else {
        x
    }
}

/// Nothing beyond a whole exponent is a factor of one.
proof fn lemma_no_fraction<A: Fn(Op, Plain, Plain) -> Plain>(fpu: &Fpu<A>, f: Plain)
    requires
        fpu.rounds(),
        f.is_zero(),
    ensures
        spec_exp2_fraction(fpu, f) == num(ONE),
{
    let a = fpu.mul(num(F0_00133336), f);
    fpu.lemma_none_of(num(F0_00133336), f);
    fpu.lemma_nothing_added(num(F0_00961813), a);
    assert(fpu.add(a, num(F0_00961813)) == num(F0_00961813));
    let b = fpu.mul(num(F0_00961813), f);
    fpu.lemma_none_of(num(F0_00961813), f);
    fpu.lemma_nothing_added(num(F0_05550411), b);
    assert(fpu.add(b, num(F0_05550411)) == num(F0_05550411));
    let c = fpu.mul(num(F0_05550411), f);
    fpu.lemma_none_of(num(F0_05550411), f);
    fpu.lemma_nothing_added(num(F0_2402265), c);
    assert(fpu.add(c, num(F0_2402265)) == num(F0_2402265));
    let d = fpu.mul(num(F0_2402265), f);
    fpu.lemma_none_of(num(F0_2402265), f);
    fpu.lemma_nothing_added(num(LN_2), d);
    assert(fpu.add(d, num(LN_2)) == num(LN_2));
    let e = fpu.mul(num(LN_2), f);
    fpu.lemma_none_of(num(LN_2), f);
    fpu.lemma_nothing_added(num(ONE), e);
}

/// Two to a whole power is that power of two, exactly: every whole step doubles.
pub proof fn lemma_exp2_of_whole<A: Fn(Op, Plain, Plain) -> Plain>(
    fpu: &Fpu<A>,
    x: Plain,
    n: int,
)
    requires
        fpu.rounds(),
        x.is_finite(),
        x.scaled() == n * plain::unit(),
        -126 <= n <= 127,
    ensures
        fast_exp2(fpu, x) == power_of_two(n),
{
    plain::lemma_small_values();
    plain::lemma_whole_floor(x, n);
    let u = plain::unit();
    vstd::arithmetic::power2::lemma2_to64();
    plain::lemma_whole_value(F128, 128, 16);
    plain::lemma_whole_value(0x4316_0000, 150, 16);
    plain::lemma_neg_scaled(num(0x4316_0000));
    plain::lemma_equal_scaled(num(F128), x);
    plain::lemma_equal_scaled(x, num(MINUS_F150));
    assert(-150 * u < n * u && n * u < 128 * u) by (nonlinear_arith)
        requires
            -126 <= n <= 127,
            u > 0,
    ;
    let f = fpu.sub(x, x);
    fpu.lemma_sub_side(x, x, num(ZERO));
    lemma_no_fraction(fpu, f);
    plain::lemma_power_scaled(n + 127);
    fpu.lemma_all_of(power_of_two(n));
}

/// Twelve semitones are an octave: a note that many octaves above the lowest has its frequency
/// doubled as often.
pub proof fn lemma_octaves_double_the_frequency<A: Fn(Op, Plain, Plain) -> Plain>(
    fpu: &Fpu<A>,
    note: Plain,
    octaves: nat,
)
    requires
        fpu.rounds(),
        note.is_finite(),
        note.scaled() == 12 * octaves * plain::unit(),
        octaves <= 100,
    ensures
        note_to_hz(fpu, note) == num((F8_175799 + octaves * EXPONENT) as u32),
        note_to_hz(fpu, note).scaled() == num(F8_175799).scaled()
            * vstd::arithmetic::power2::pow2(octaves),
{
    plain::lemma_small_values();
    let u = plain::unit();
    let k = Plain::from_int(octaves as i64);
    plain::lemma_count_exists(octaves as int);
    plain::lemma_exact_count(octaves as int);
    assert(k.scaled() == octaves * u);
    lemma_whole_is_number(k, octaves as int);
    let x = fpu.div(note, num(F12));
    assert((octaves * u) * (12 * u) == (12 * octaves * u) * u) by (nonlinear_arith);
    fpu.lemma_div_side(note, num(F12), k);
    plain::lemma_equal_scaled(x, k);
    lemma_exp2_of_whole(fpu, x, octaves as int);
    let c = num(F8_175799);
    plain::lemma_octaves_up(c, octaves);
    let r = num((F8_175799 + octaves * EXPONENT) as u32);
    plain::lemma_power_scaled(octaves as int + 127);
    let (s, t) = (c.scaled(), vstd::arithmetic::power2::pow2(octaves) as int);
    assert(s * (t * u) == (s * t) * u) by (nonlinear_arith);
    fpu.lemma_mul_side(c, power_of_two(octaves as int), r);
    plain::lemma_scaled_sign(r);
    assert(note_to_hz(fpu, note) == r);
}

/// A whole number is zero or normal.
pub proof fn lemma_whole_is_number(k: Plain, n: int)
    requires
        k.is_finite(),
        k.scaled() == n * plain::unit(),
        n >= 0,
    ensures
        k.is_number(),
{
    plain::lemma_small_values();
    let u = plain::unit();
    if n == 0 {
        assert(0 * u == 0) by (nonlinear_arith);
        plain::lemma_scaled_sign(k);
    } else {
        assert(n * u >= u) by (nonlinear_arith)
            requires
                n >= 1,
                u > 0,
        ;
        plain::lemma_equal_scaled(num(ONE), k);
    }
}

/// Within an octave the factor rises with the fraction, and is one or more.
pub proof fn lemma_exp2_rises_within_octave<A: Fn(Op, Plain, Plain) -> Plain>(
    fpu: &Fpu<A>,
    f: Plain,
    g: Plain,
)
    requires
        fpu.rounds(),
        is_phase(f) && is_phase(g),
        f.at_most(g),
    ensures
        num(ONE).at_most(spec_exp2_fraction(fpu, f)),
        spec_exp2_fraction(fpu, f).at_most(spec_exp2_fraction(fpu, g)),
{
    plain::lemma_small_values();
    vstd::arithmetic::power2::lemma2_to64();
    plain::lemma_whole_value(0x4200_0000, 32, 18);
    let c0 = num(F0_00133336);
    plain::lemma_equal_scaled(c0, num(ONE));
    plain::lemma_scaled_sign(c0);
    lemma_horner_step(fpu, c0, c0, f, g, num(F0_00961813), num(ONE), num(TWO));
    let (a1, b1) = (
        fpu.add(fpu.mul(c0, f), num(F0_00961813)),
        fpu.add(fpu.mul(c0, g), num(F0_00961813)),
    );
    lemma_horner_step(fpu, a1, b1, f, g, num(F0_05550411), num(TWO), num(FOUR));
    let (a2, b2) = (
        fpu.add(fpu.mul(a1, f), num(F0_05550411)),
        fpu.add(fpu.mul(b1, g), num(F0_05550411)),
    );
    lemma_horner_step(fpu, a2, b2, f, g, num(F0_2402265), num(FOUR), num(F8));
    let (a3, b3) = (
        fpu.add(fpu.mul(a2, f), num(F0_2402265)),
        fpu.add(fpu.mul(b2, g), num(F0_2402265)),
    );
    lemma_horner_step(fpu, a3, b3, f, g, num(LN_2), num(F8), num(F16));
    let (a4, b4) = (fpu.add(fpu.mul(a3, f), num(LN_2)), fpu.add(fpu.mul(b3, g), num(LN_2)));
    lemma_horner_step(fpu, a4, b4, f, g, num(ONE), num(F16), num(0x4200_0000));
}

/// One step of a polynomial with coefficients that are not negative, at two fractions.
proof fn lemma_horner_step<A: Fn(Op, Plain, Plain) -> Plain>(
    fpu: &Fpu<A>,
    a: Plain,
    b: Plain,
    f: Plain,
    g: Plain,
    c: Plain,
    most: Plain,
    next: Plain,
)
    requires
        fpu.rounds(),
        is_phase(f) && is_phase(g) && f.at_most(g),
        a.is_finite() && b.is_finite(),
        most.is_number() && next.is_number(),
        plain::unit() <= most.scaled() && next.scaled() == 2 * most.scaled(),
        0 <= a.scaled() <= b.scaled() <= most.scaled(),
        c.is_number() && c.at_most(num(ONE)) && num(ZERO).at_most(c),
    ensures
        ({
            let (x, y) = (fpu.add(fpu.mul(a, f), c), fpu.add(fpu.mul(b, g), c));
            &&& x.is_finite() && y.is_finite()
            &&& c.at_most(x) && x.at_most(y)
            &&& 0 <= x.scaled() <= y.scaled() <= next.scaled()
        }),
{
    plain::lemma_small_values();
    plain::lemma_equal_scaled(c, num(ONE));
    plain::lemma_equal_scaled(num(ZERO), c);
    plain::lemma_equal_scaled(f, g);
    let u = plain::unit();
    let (p, q, r, s, m) = (a.scaled(), b.scaled(), f.scaled(), g.scaled(), most.scaled());
    assert(0 * u <= p * r && p * r <= q * s && q * s <= m * u) by (nonlinear_arith)
        requires
            0 <= p <= q <= m,
            0 <= r <= s <= u,
    ;
    let (v, w) = (fpu.mul(a, f), fpu.mul(b, g));
    fpu.lemma_mul_side(a, f, num(ZERO));
    fpu.lemma_mul_side(b, g, most);
    fpu.lemma_mul_order(a, f, b, g);
    plain::lemma_between_finite(num(ZERO), v, most);
    plain::lemma_between_finite(num(ZERO), w, most);
    plain::lemma_equal_scaled(v, w);
    let (x, y) = (fpu.add(v, c), fpu.add(w, c));
    fpu.lemma_add_side(v, c, c);
    fpu.lemma_add_side(w, c, next);
    fpu.lemma_add_order(v, c, w, c);
    plain::lemma_between_finite(c, x, next);
    plain::lemma_between_finite(c, y, next);
    plain::lemma_equal_scaled(x, y);
}

/// A share `k` of the way from `v` to `t`.
pub open spec fn part_way<A: Fn(Op, Plain, Plain) -> Plain>(
    fpu: &Fpu<A>,
    v: Plain,
    t: Plain,
    k: Plain,
) -> Plain {
    fpu.add(v, fpu.mul(k, fpu.sub(t, v)))
}

/// A share of a way goes in its direction: none of it stays, all of it arrives, and from the
/// target itself there is nowhere to go.
pub proof fn lemma_part_way<A: Fn(Op, Plain, Plain) -> Plain>(
    fpu: &Fpu<A>,
    v: Plain,
    t: Plain,
    k: Plain,
    way: Plain,
)
    requires
        fpu.rounds(),
        v.is_number() && t.is_number() && way.is_number(),
        way.scaled() == t.scaled() - v.scaled(),
        k.is_finite() && 0 <= k.scaled() <= plain::unit(),
    ensures
        v.at_most(t) ==> v.at_most(part_way(fpu, v, t, k)),
        t.at_most(v) ==> part_way(fpu, v, t, k).at_most(v),
        v.equals(t) ==> part_way(fpu, v, t, k).equals(t),
        k.is_zero() ==> part_way(fpu, v, t, k).equals(v),
        k == num(ONE) ==> part_way(fpu, v, t, k).equals(t),
{
    plain::lemma_small_values();
    let u = plain::unit();
    let d = fpu.sub(t, v);
    fpu.lemma_sub_side(t, v, way);
    plain::lemma_equal_scaled(d, way);
    plain::lemma_equal_scaled(v, t);
    plain::lemma_scaled_sign(d);
    let m = fpu.mul(k, d);
    let (s, w) = (k.scaled(), way.scaled());
    assert(0 * u == 0 && (w >= 0 ==> 0 <= s * w) && (w <= 0 ==> s * w <= 0)) by (nonlinear_arith)
        requires
            0 <= s,
    ;
    plain::lemma_scaled_sign(way);
    let a = way.abs();
    assert(u * a.scaled() == a.scaled() * u) by (nonlinear_arith);
    fpu.lemma_mul_within(k, d, u, a.scaled(), a);
    fpu.lemma_mul_side(k, d, num(ZERO));
    plain::lemma_equal_scaled(m, num(ZERO));
    fpu.lemma_add_side(v, m, v);
    if k.is_zero() {
        fpu.lemma_none_of(d, k);
        plain::lemma_zero_scaled(m);
    }
    if w == 0 {
        fpu.lemma_none_of(k, d);
        plain::lemma_zero_scaled(m);
    }
    if k == num(ONE) {
        assert(u * w == w * u) by (nonlinear_arith);
        fpu.lemma_mul_side(k, d, way);
        plain::lemma_equal_scaled(m, way);
        fpu.lemma_add_side(v, m, t);
    }
}

/// A larger share goes no less far.
pub proof fn lemma_larger_share<A: Fn(Op, Plain, Plain) -> Plain>(
    fpu: &Fpu<A>,
    v: Plain,
    t: Plain,
    small: Plain,
    large: Plain,
)
    requires
        fpu.rounds(),
        v.is_finite() && t.is_finite() && small.is_finite() && large.is_finite(),
        small.at_most(large),
        fpu.sub(t, v).is_finite(),
        fpu.mul(small, fpu.sub(t, v)).is_finite() && fpu.mul(large, fpu.sub(t, v)).is_finite(),
    ensures
        v.at_most(t) ==> part_way(fpu, v, t, small).at_most(part_way(fpu, v, t, large)),
        t.at_most(v) ==> part_way(fpu, v, t, large).at_most(part_way(fpu, v, t, small)),
{
    plain::lemma_small_values();
    let d = fpu.sub(t, v);
    plain::lemma_equal_scaled(v, t);
    plain::lemma_equal_scaled(small, large);
    fpu.lemma_sub_side(t, v, num(ZERO));
    plain::lemma_equal_scaled(d, num(ZERO));
    let (a, b, w) = (small.scaled(), large.scaled(), d.scaled());
    assert((w >= 0 ==> a * w <= b * w) && (w <= 0 ==> b * w <= a * w)) by (nonlinear_arith)
        requires
            a <= b,
    ;
    let (m, n) = (fpu.mul(small, d), fpu.mul(large, d));
    plain::lemma_equal_scaled(m, n);
    if w >= 0 {
        fpu.lemma_mul_order(small, d, large, d);
        fpu.lemma_add_order(v, m, v, n);
    }
    if w <= 0 {
        fpu.lemma_mul_order(large, d, small, d);
        fpu.lemma_add_order(v, n, v, m);
    }
}

/// Twice a place less one, which runs from minus one to one, keeps the order of places.
pub proof fn lemma_spread_order<A: Fn(Op, Plain, Plain) -> Plain>(fpu: &Fpu<A>, a: Plain, b: Plain)
    requires
        fpu.rounds(),
        is_phase(a) && is_phase(b),
        a.at_most(b),
    ensures
        fpu.sub(fpu.mul(a, num(TWO)), num(ONE)).at_most(fpu.sub(fpu.mul(b, num(TWO)), num(ONE))),
{
    plain::lemma_small_values();
    let u = plain::unit();
    assert(u * (2 * u) == (2 * u) * u) by (nonlinear_arith);
    fpu.lemma_mul_within(a, num(TWO), u, 2 * u, num(TWO));
    fpu.lemma_mul_within(b, num(TWO), u, 2 * u, num(TWO));
    fpu.lemma_scaling_rises(a, b, num(TWO));
    plain::lemma_equal_scaled(fpu.mul(a, num(TWO)), fpu.mul(b, num(TWO)));
    fpu.lemma_sub_order(fpu.mul(a, num(TWO)), num(ONE), fpu.mul(b, num(TWO)), num(ONE));
}

/// The ends of twice a place less one.
pub proof fn lemma_spread_ends<A: Fn(Op, Plain, Plain) -> Plain>(fpu: &Fpu<A>, z: Plain, o: Plain)
    requires
        fpu.rounds(),
        z.is_zero(),
        o == num(ONE),
    ensures
        fpu.sub(fpu.mul(z, num(TWO)), num(ONE)) == num(MINUS_ONE),
        fpu.sub(fpu.mul(o, num(TWO)), num(ONE)) == num(ONE),
{
    plain::lemma_small_values();
    fpu.lemma_none_of(num(TWO), z);
    plain::lemma_zero_scaled(fpu.mul(z, num(TWO)));
    fpu.lemma_sub_side(fpu.mul(z, num(TWO)), num(ONE), num(MINUS_ONE));
    fpu.lemma_all_of(num(TWO));
    assert(fpu.mul(o, num(TWO)) == num(TWO));
    fpu.lemma_sub_side(num(TWO), num(ONE), num(ONE));
}

/// At the points of its table a looked-up sine is the sine of the phase times a full turn.
pub proof fn lemma_sine_at_table_points<A: Fn(Op, Plain, Plain) -> Plain>(
    fpu: &Fpu<A>,
    phase: Plain,
    i: usize,
)
    requires
        fpu.rounds(),
        i < SINE_POINTS,
        phase.is_number() && !phase.negative(),
        phase.scaled() * 1024 == i * plain::unit(),
        fpu.sin(fpu.mul(phase, num(TAU))).is_number(),
        fpu.sub(
            spec_sine_entry(fpu, ((i + 1) % SINE_POINTS as int) as usize),
            spec_sine_entry(fpu, i),
        ).is_finite(),
        i == 0 ==> phase == num(ZERO) && fpu.div(num(ZERO), num(F1024)) == num(ZERO),
    ensures
        sine_at(fpu, phase).equals(fpu.sin(fpu.mul(phase, num(TAU)))),
{
    plain::lemma_small_values();
    vstd::arithmetic::power2::lemma2_to64();
    plain::lemma_whole_value(F1024, 1024, 13);
    plain::lemma_exact_int(i as i64);
    let u = plain::unit();
    let n = Plain::from_index(i);
    let (s, k) = (phase.scaled(), i as int);
    assert(s * (1024 * u) == (k * u) * u) by (nonlinear_arith)
        requires
            s * 1024 == k * u,
    ;
    fpu.lemma_mul_side(phase, num(F1024), n);
    let index = fpu.mul(phase, num(F1024));
    plain::lemma_equal_scaled(index, n);
    plain::lemma_whole_index(index, k);
    fpu.lemma_sub_side(index, n, num(ZERO));
    let frac = fpu.sub(index, n);
    fpu.lemma_div_side(n, num(F1024), phase);
    let back = fpu.div(n, num(F1024));
    plain::lemma_scaled_sign(phase);
    assert(back == phase) by {
        if i != 0 {
            assert(k * u > 0) by (nonlinear_arith)
                requires
                    k > 0,
                    u > 0,
            ;
        } else {
            plain::lemma_exact_count(0);
            assert(0 * u == 0) by (nonlinear_arith);
            assert(plain::is_count(num(ZERO), false, 0));
            plain::lemma_count(num(ZERO), false, 0);
        }
    }
    let a = spec_sine_entry(fpu, i);
    assert(a == fpu.sin(fpu.mul(phase, num(TAU))));
    vstd::arithmetic::div_mod::lemma_small_mod(i as nat, SINE_POINTS as nat);
    let b = spec_sine_entry(fpu, ((i + 1) % SINE_POINTS as int) as usize);
    fpu.lemma_none_of(fpu.sub(b, a), frac);
    fpu.lemma_nothing_added(a, fpu.mul(fpu.sub(b, a), frac));
}

/// What is flushed is a number, and a number is left as it was.
pub proof fn lemma_flushed(x: Plain)
    ensures
        flush_denormal(x).is_number(),
        x.is_number() ==> flush_denormal(x) == x,
{
}

} // verus!
