//! Phase accumulator and PolyBLEP.
use crate::fpu::{Fpu, Op};
use crate::nums::{F0_999999, MINUS_ONE, ONE, TWO, ZERO};
use crate::plain::{self, num, Plain};
use vstd::prelude::*;

verus! {

broadcast use crate::plain::group_by_rank;

/// Single-voice normalised phase accumulator in `[0, 1)`.
///
/// Knows nothing about frequency or sample rate: the per-sample increment is set
/// directly.
#[derive(Clone, Copy, Debug, PartialEq, Eq, Structural)]
pub struct MonoPhaseAccumulator {
    pub phase: Plain,
    pub phase_increment: Plain,
}

pub open spec fn spec_wrap_unit<A: Fn(Op, Plain, Plain) -> Plain>(fpu: &Fpu<A>, x: Plain) -> Plain {
    let wrap = if num(ONE).at_most(x) {
        num(ONE)
    } else {
        num(ZERO)
    };
    fpu.sub(x, wrap)
}

/// One subtraction of one, when there is one to subtract.
#[verifier::when_used_as_spec(spec_wrap_unit)]
pub fn wrap_unit<A: Fn(Op, Plain, Plain) -> Plain>(fpu: &Fpu<A>, x: Plain) -> (r: Plain)
    requires
        fpu.valid(),
    ensures
        r == wrap_unit(fpu, x),
{
    let wrap = if num(ONE).at_most(x) {
        num(ONE)
    } else {
        num(ZERO)
    };
    fpu.sub(x, wrap)
}

impl MonoPhaseAccumulator {
    pub fn new() -> (r: Self)
        ensures
            r == (MonoPhaseAccumulator { phase: num(ZERO), phase_increment: num(ZERO) }),
    {
        MonoPhaseAccumulator { phase: num(ZERO), phase_increment: num(ZERO) }
    }

    pub fn reset(&mut self)
        ensures
            *final(self) == (MonoPhaseAccumulator { phase: num(ZERO), ..*old(self) }),
    {
        self.phase = num(ZERO);
    }

    /// Set the per-sample increment, held below one so that [`Self::advance`] can
    /// wrap with a single conditional subtraction.
    pub fn set_increment(&mut self, increment: Plain)
        ensures
            *final(self) == (MonoPhaseAccumulator {
                phase_increment: increment.min(num(F0_999999)),
                ..*old(self)
            }),
    {
        self.phase_increment = increment.min(num(F0_999999));
    }

    pub open spec fn advanced<A: Fn(Op, Plain, Plain) -> Plain>(self, fpu: &Fpu<A>) -> Self {
        MonoPhaseAccumulator { phase: wrap_unit(
            fpu,
            fpu.add(self.phase, self.phase_increment),
        ), ..self }
    }

    /// Advance by the increment and wrap to `[0, 1)`.
    pub fn advance<A: Fn(Op, Plain, Plain) -> Plain>(&mut self, fpu: &Fpu<A>)
        requires
            fpu.valid(),
        ensures
            *final(self) == old(self).advanced(fpu),
    {
        self.phase = wrap_unit(fpu, fpu.add(self.phase, self.phase_increment));
    }
}

impl Default for MonoPhaseAccumulator {
    fn default() -> (r: Self)
        ensures
            r == (MonoPhaseAccumulator { phase: num(ZERO), phase_increment: num(ZERO) }),
    {
        MonoPhaseAccumulator::new()
    }
}

pub open spec fn spec_polyblep<A: Fn(Op, Plain, Plain) -> Plain>(
    fpu: &Fpu<A>,
    t: Plain,
    dt: Plain,
) -> Plain {
    if t.less(dt) {
        let s = fpu.div(t, dt);
        fpu.sub(fpu.sub(fpu.mul(num(TWO), s), fpu.mul(s, s)), num(ONE))
    } else if fpu.sub(num(ONE), dt).less(t) {
        let s = fpu.div(fpu.sub(t, num(ONE)), dt);
        fpu.add(fpu.add(fpu.mul(s, s), fpu.mul(num(TWO), s)), num(ONE))
    } else {
        num(ZERO)
    }
}

/// PolyBLEP correction for normalised phase `t` in `[0, 1)` and increment `dt`:
/// smooths the discontinuity near `t = 0` (rising) and `t = 1` (falling).
#[verifier::when_used_as_spec(spec_polyblep)]
pub fn polyblep<A: Fn(Op, Plain, Plain) -> Plain>(fpu: &Fpu<A>, t: Plain, dt: Plain) -> (r: Plain)
    requires
        fpu.valid(),
    ensures
        r == polyblep(fpu, t, dt),
{
    if t.less(dt) {
        let s = fpu.div(t, dt);
        fpu.sub(fpu.sub(fpu.mul(num(TWO), s), fpu.mul(s, s)), num(ONE))
    } else if fpu.sub(num(ONE), dt).less(t) {
        let s = fpu.div(fpu.sub(t, num(ONE)), dt);
        fpu.add(fpu.add(fpu.mul(s, s), fpu.mul(num(TWO), s)), num(ONE))
    } else {
        num(ZERO)
    }
}

/// The correction of a step reaches one sample to either side of it and no further, and at the
/// step itself takes off a whole half of it.
pub proof fn lemma_correction_is_local<A: Fn(Op, Plain, Plain) -> Plain>(
    fpu: &Fpu<A>,
    t: Plain,
    dt: Plain,
)
    requires
        fpu.rounds(),
        t.is_number() && dt.is_finite() && 0 < dt.scaled(),
        t.scaled() >= 0,
    ensures
        dt.scaled() <= t.scaled() && t.scaled() + dt.scaled() <= plain::unit() ==> polyblep(
            fpu,
            t,
            dt,
        ) == num(ZERO),
        t.is_zero() ==> polyblep(fpu, t, dt) == num(MINUS_ONE),
        t == num(ONE) && dt.less(num(ONE)) && fpu.sub(num(ONE), dt).less(num(ONE)) ==> polyblep(
            fpu,
            t,
            dt,
        ) == num(ONE),
{
    plain::lemma_small_values();
    plain::lemma_equal_scaled(dt, t);
    plain::lemma_equal_scaled(t, dt);
    let (u, ds) = (plain::unit(), dt.scaled());
    assert(0 * u == 0 && 0 * ds == 0) by (nonlinear_arith);
    fpu.lemma_sub_side(num(ONE), dt, t);
    if t.is_zero() {
        plain::lemma_zero_scaled(t);
        fpu.lemma_div_side(t, dt, num(ZERO));
        let s = fpu.div(t, dt);
        fpu.lemma_none_of(num(TWO), s);
        fpu.lemma_none_of(s, s);
        fpu.lemma_nothing_added(fpu.mul(num(TWO), s), fpu.mul(s, s));
        let d = fpu.sub(fpu.mul(num(TWO), s), fpu.mul(s, s));
        plain::lemma_zero_scaled(d);
        fpu.lemma_sub_side(d, num(ONE), num(MINUS_ONE));
    }
    if t == num(ONE) && dt.less(num(ONE)) && fpu.sub(num(ONE), dt).less(num(ONE)) {
        fpu.lemma_sub_side(t, num(ONE), num(ZERO));
        let z = fpu.sub(t, num(ONE));
        plain::lemma_equal_scaled(z, num(ZERO));
        fpu.lemma_div_side(z, dt, num(ZERO));
        let s = fpu.div(z, dt);
        fpu.lemma_none_of(num(TWO), s);
        fpu.lemma_none_of(s, s);
        fpu.lemma_nothing_added(fpu.mul(s, s), fpu.mul(num(TWO), s));
        fpu.lemma_nothing_added(num(ONE), fpu.add(fpu.mul(s, s), fpu.mul(num(TWO), s)));
    }
}

/// A phase moves on by its increment, and loses a whole cycle at the end of one.
pub proof fn lemma_accumulates<A: Fn(Op, Plain, Plain) -> Plain>(
    fpu: &Fpu<A>,
    a: MonoPhaseAccumulator,
    r: Plain,
    w: Plain,
)
    requires
        fpu.rounds(),
        a.phase.is_finite() && a.phase_increment.is_finite(),
        r.is_number() && w.is_number(),
        r.scaled() == a.phase.scaled() + a.phase_increment.scaled(),
        w.scaled() == r.scaled() || w.scaled() == r.scaled() - plain::unit(),
        0 <= w.scaled() < plain::unit(),
        0 <= r.scaled(),
    ensures
        a.advanced(fpu).phase.equals(w),
        a.advanced(fpu).phase_increment == a.phase_increment,
{
    plain::lemma_small_values();
    fpu.lemma_add_side(a.phase, a.phase_increment, r);
    let x = fpu.add(a.phase, a.phase_increment);
    plain::lemma_equal_scaled(x, r);
    plain::lemma_equal_scaled(num(ONE), x);
    fpu.lemma_sub_side(x, num(ZERO), w);
    fpu.lemma_sub_side(x, num(ONE), w);
}

/// A wrap takes a whole cycle off where there is one, and nothing else.
pub proof fn lemma_wrap<A: Fn(Op, Plain, Plain) -> Plain>(fpu: &Fpu<A>, x: Plain, r: Plain)
    requires
        fpu.rounds(),
        x.is_number() && r.is_number(),
    ensures
        x.less(num(ONE)) ==> wrap_unit(fpu, x).equals(x),
        num(ONE).at_most(x) && r.scaled() == x.scaled() - plain::unit() ==> wrap_unit(
            fpu,
            x,
        ).equals(r),
{
    plain::lemma_small_values();
    fpu.lemma_nothing_added(x, num(ZERO));
    fpu.lemma_sub_side(x, num(ONE), r);
}

} // verus!
