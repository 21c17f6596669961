//! Low-frequency oscillator.
use crate::fpu::{Fpu, Op};
use crate::math::{self, lookup_sine, SineTable};
use crate::noise::{self, xorshift64};
use crate::nums::{F0_001, F0_25, F40, FOUR, HALF, MINUS_ONE, ONE, TWO, ZERO};
use crate::plain::{self, num, Plain};
use vstd::prelude::*;

verus! {

broadcast use crate::plain::group_by_rank;

/// Low-frequency oscillator shape.
#[derive(Clone, Copy, Debug, PartialEq, Eq, Structural)]
pub enum LfoShape {
    Sine,
    Triangle,
    SawUp,
    SawDown,
    Square,
    Random,
}

impl LfoShape {
    pub open spec fn spec_label(self) -> &'static str {
        match self {
            LfoShape::Sine => "Sine",
            LfoShape::Triangle => "Tri",
            LfoShape::SawUp => "Saw+",
            LfoShape::SawDown => "Saw-",
            LfoShape::Square => "Square",
            LfoShape::Random => "S&H",
        }
    }

    #[verifier::when_used_as_spec(spec_label)]
    pub fn label(self) -> (r: &'static str)
        ensures
            r == self.label(),
    {
        match self {
            LfoShape::Sine => "Sine",
            LfoShape::Triangle => "Tri",
            LfoShape::SawUp => "Saw+",
            LfoShape::SawDown => "Saw-",
            LfoShape::Square => "Square",
            LfoShape::Random => "S&H",
        }
    }

    /// Every shape, in the order of the selector.
    pub fn all() -> (r: [LfoShape; 6])
        ensures
            r@ == seq![
                LfoShape::Sine,
                LfoShape::Triangle,
                LfoShape::SawUp,
                LfoShape::SawDown,
                LfoShape::Square,
                LfoShape::Random,
            ],
    {
        [
            LfoShape::Sine,
            LfoShape::Triangle,
            LfoShape::SawUp,
            LfoShape::SawDown,
            LfoShape::Square,
            LfoShape::Random,
        ]
    }

    pub open spec fn spec_start_phase(self) -> Plain {
        match self {
            LfoShape::Triangle => num(F0_25),
            LfoShape::SawUp | LfoShape::SawDown => num(HALF),
            _ => num(ZERO),
        }
    }

    /// The phase at which the shape crosses zero, where a retrigger lands. The
    /// stepped shapes, which cross no zero, start at the top of their cycle.
    #[verifier::when_used_as_spec(spec_start_phase)]
    pub fn start_phase(self) -> (r: Plain)
        ensures
            r == self.start_phase(),
    {
        match self {
            LfoShape::Triangle => num(F0_25),
            LfoShape::SawUp | LfoShape::SawDown => num(HALF),
            _ => num(ZERO),
        }
    }
}

/// A free-running low-frequency oscillator with a bipolar output. `Random` is a
/// sample-and-hold renewed once per cycle.
#[derive(Clone, Copy, Debug, PartialEq, Eq, Structural)]
pub struct LfoCore {
    pub sample_rate: Plain,
    pub phase: Plain,
    pub phase_increment: Plain,
    pub prng_state: u64,
    pub random_value: Plain,
}

impl LfoCore {
    /// The generator is off its stuck point.
    pub open spec fn wf(&self) -> bool {
        self.prng_state != 0
    }

    pub open spec fn fresh<A: Fn(Op, Plain, Plain) -> Plain>(
        fpu: &Fpu<A>,
        sample_rate: Plain,
        seed: u64,
    ) -> Self {
        LfoCore {
            sample_rate,
            phase: num(ZERO),
            phase_increment: fpu.div(num(ONE), sample_rate),
            prng_state: seed | 1,
            random_value: num(ZERO),
        }
    }

    pub fn new<A: Fn(Op, Plain, Plain) -> Plain>(
        fpu: &Fpu<A>,
        sample_rate: Plain,
        seed: u64,
    ) -> (r: Self)
        requires
            fpu.valid(),
        ensures
            r == LfoCore::fresh(fpu, sample_rate, seed),
            r.wf(),
    {
        assert(seed | 1 != 0) by (bit_vector);
        LfoCore {
            sample_rate,
            phase: num(ZERO),
            phase_increment: fpu.div(num(ONE), sample_rate),
            prng_state: seed | 1,
            random_value: num(ZERO),
        }
    }

    pub fn reset(&mut self)
        ensures
            *final(self) == (LfoCore { phase: num(ZERO), ..*old(self) }),
    {
        self.phase = num(ZERO);
    }

    /// Restart the cycle where `shape` crosses zero.
    pub fn retrigger(&mut self, shape: LfoShape)
        ensures
            *final(self) == (LfoCore { phase: shape.start_phase(), ..*old(self) }),
    {
        self.phase = shape.start_phase();
    }

    pub fn phase(&self) -> (r: Plain)
        ensures
            r == self.phase,
    {
        self.phase
    }

    pub open spec fn with_rate<A: Fn(Op, Plain, Plain) -> Plain>(
        self,
        fpu: &Fpu<A>,
        hz: Plain,
    ) -> Self {
        LfoCore { phase_increment: fpu.div(
            hz.clamp(num(F0_001), num(F40)),
            self.sample_rate,
        ), ..self }
    }

    /// Set the rate in Hz, clamped to a musical range.
    pub fn set_rate<A: Fn(Op, Plain, Plain) -> Plain>(&mut self, fpu: &Fpu<A>, hz: Plain)
        requires
            fpu.valid(),
        ensures
            *final(self) == old(self).with_rate(fpu, hz),
    {
        self.phase_increment = fpu.div(hz.clamp(num(F0_001), num(F40)), self.sample_rate);
    }

    /// The oscillator one sample on. A new cycle draws a new random value.
    pub open spec fn advanced<A: Fn(Op, Plain, Plain) -> Plain>(self, fpu: &Fpu<A>) -> Self {
        let next = fpu.add(self.phase, self.phase_increment);
        if num(ONE).at_most(next) {
            let state = noise::xorshifted(self.prng_state);
            LfoCore {
                phase: fpu.sub(next, num(ONE)),
                prng_state: state,
                random_value: noise::noise_sample(fpu, state),
                ..self
            }
        } else {
            LfoCore { phase: next, ..self }
        }
    }

    /// What `shape` reads at the current phase.
    pub open spec fn reading<A: Fn(Op, Plain, Plain) -> Plain>(
        self,
        fpu: &Fpu<A>,
        shape: LfoShape,
    ) -> Plain {
        let p = self.phase;
        match shape {
            LfoShape::Sine => math::sine_at(fpu, p),
            LfoShape::Triangle => fpu.sub(
                num(ONE),
                fpu.mul(num(FOUR), fpu.sub(p, num(HALF)).abs()),
            ),
            LfoShape::SawUp => fpu.sub(fpu.mul(num(TWO), p), num(ONE)),
            LfoShape::SawDown => fpu.sub(num(ONE), fpu.mul(num(TWO), p)),
            LfoShape::Square => if p.less(num(HALF)) {
                num(ONE)
            } else {
                num(MINUS_ONE)
            },
            LfoShape::Random => self.random_value,
        }
    }

    /// Advance one sample and return the bipolar value of `shape`.
    pub fn next<A: Fn(Op, Plain, Plain) -> Plain>(
        &mut self,
        fpu: &Fpu<A>,
        table: &SineTable,
        shape: LfoShape,
    ) -> (r: Plain)
        requires
            fpu.valid(),
            table.tabulates(fpu),
        ensures
            *final(self) == old(self).advanced(fpu),
            r == final(self).reading(fpu, shape),
            old(self).wf() ==> final(self).wf(),
    {
        let next = fpu.add(self.phase, self.phase_increment);
        if num(ONE).at_most(next) {
            proof {
                noise::lemma_xorshift_never_sticks(self.prng_state);
            }
            self.phase = fpu.sub(next, num(ONE));
            self.random_value = xorshift64(fpu, &mut self.prng_state);
        } else {
            self.phase = next;
        }
        let p = self.phase;
        match shape {
            LfoShape::Sine => lookup_sine(fpu, table, p),
            LfoShape::Triangle => fpu.sub(
                num(ONE),
                fpu.mul(num(FOUR), fpu.sub(p, num(HALF)).abs()),
            ),
            LfoShape::SawUp => fpu.sub(fpu.mul(num(TWO), p), num(ONE)),
            LfoShape::SawDown => fpu.sub(num(ONE), fpu.mul(num(TWO), p)),
            LfoShape::Square => if p.less(num(HALF)) {
                num(ONE)
            } else {
                num(MINUS_ONE)
            },
            LfoShape::Random => self.random_value,
        }
    }
}

/// At one phase the falling saw reads the negative of the rising one.
pub proof fn lemma_saws_are_mirrored<A: Fn(Op, Plain, Plain) -> Plain>(fpu: &Fpu<A>, l: LfoCore)
    requires
        fpu.rounds(),
        math::is_phase(l.phase),
    ensures
        l.reading(fpu, LfoShape::SawDown).rank() == -l.reading(fpu, LfoShape::SawUp).rank(),
{
    plain::lemma_small_values();
    math::lemma_ramp_bounds(fpu, l.phase);
    fpu.lemma_sub_turns(fpu.mul(num(TWO), l.phase), num(ONE));
}

/// Within a cycle a later phase never reads lower on the rising saw, nor higher on the falling
/// one.
pub proof fn lemma_saws_run_one_way<A: Fn(Op, Plain, Plain) -> Plain>(
    fpu: &Fpu<A>,
    early: LfoCore,
    late: LfoCore,
)
    requires
        fpu.rounds(),
        math::is_phase(early.phase) && math::is_phase(late.phase),
        early.phase.at_most(late.phase),
    ensures
        early.reading(fpu, LfoShape::SawUp).at_most(late.reading(fpu, LfoShape::SawUp)),
        late.reading(fpu, LfoShape::SawDown).at_most(early.reading(fpu, LfoShape::SawDown)),
{
    math::lemma_ramp_rises(fpu, early.phase, late.phase);
    math::lemma_ramp_bounds(fpu, early.phase);
    math::lemma_ramp_bounds(fpu, late.phase);
    plain::lemma_small_values();
    let (a, b) = (fpu.mul(num(TWO), early.phase), fpu.mul(num(TWO), late.phase));
    fpu.lemma_scaling_rises(early.phase, late.phase, num(TWO));
    fpu.lemma_sub_order(num(ONE), b, num(ONE), a);
}

/// The rising saw reads twice the phase less one, and the falling saw the negative of that,
/// wherever it is a number.
pub proof fn lemma_saw_values<A: Fn(Op, Plain, Plain) -> Plain>(
    fpu: &Fpu<A>,
    l: LfoCore,
    r: Plain,
)
    requires
        fpu.rounds(),
        math::is_phase(l.phase) && l.phase.is_number(),
        r.is_number(),
        r.scaled() == 2 * l.phase.scaled() - plain::unit(),
    ensures
        l.reading(fpu, LfoShape::SawUp).equals(r),
        l.reading(fpu, LfoShape::SawDown).rank() == -r.rank(),
{
    math::lemma_ramp_value(fpu, l.phase, r);
    lemma_saws_are_mirrored(fpu, l);
}

/// The triangle rises through the first half of the cycle and falls through the second, reads
/// the same at equal distances from the middle, and goes from minus one to one.
pub proof fn lemma_triangle_shape<A: Fn(Op, Plain, Plain) -> Plain>(
    fpu: &Fpu<A>,
    early: LfoCore,
    late: LfoCore,
)
    requires
        fpu.rounds(),
        math::is_phase(early.phase) && math::is_phase(late.phase),
        early.phase.at_most(late.phase),
    ensures
        ({
            let (a, b) = (
                early.reading(fpu, LfoShape::Triangle),
                late.reading(fpu, LfoShape::Triangle),
            );
            &&& 2 * late.phase.scaled() <= plain::unit() ==> a.at_most(b)
            &&& 2 * early.phase.scaled() >= plain::unit() ==> b.at_most(a)
            &&& early.phase.scaled() + late.phase.scaled() == plain::unit() ==> a.equals(b)
            &&& early.phase.scaled() == 0 ==> a.equals(num(MINUS_ONE))
            &&& 2 * early.phase.scaled() == plain::unit() ==> a.equals(num(ONE))
        }),
{
    math::lemma_tent_rises_and_falls(fpu, early.phase, late.phase);
    if early.phase.scaled() + late.phase.scaled() == plain::unit() {
        math::lemma_tent_is_even(fpu, early.phase, late.phase);
    }
    plain::lemma_small_values();
    if early.phase.scaled() == 0 {
        math::lemma_tent_value(fpu, early.phase, num(HALF), num(MINUS_ONE));
    }
    if 2 * early.phase.scaled() == plain::unit() {
        math::lemma_tent_value(fpu, early.phase, num(ZERO), num(ONE));
    }
}

/// The square is high for the first half of the cycle and low for the second.
pub proof fn lemma_square_halves<A: Fn(Op, Plain, Plain) -> Plain>(fpu: &Fpu<A>, l: LfoCore)
    requires
        math::is_phase(l.phase),
    ensures
        2 * l.phase.scaled() < plain::unit() ==> l.reading(fpu, LfoShape::Square) == num(ONE),
        2 * l.phase.scaled() >= plain::unit() ==> l.reading(fpu, LfoShape::Square) == num(
            MINUS_ONE,
        ),
{
    plain::lemma_small_values();
    plain::lemma_equal_scaled(l.phase, num(HALF));
}

/// No shape made of lines leaves the range from minus one to one.
pub proof fn lemma_reading_bounds<A: Fn(Op, Plain, Plain) -> Plain>(
    fpu: &Fpu<A>,
    l: LfoCore,
    shape: LfoShape,
)
    requires
        fpu.rounds(),
        math::is_phase(l.phase),
        shape != LfoShape::Sine && shape != LfoShape::Random,
    ensures
        num(MINUS_ONE).at_most(l.reading(fpu, shape)),
        l.reading(fpu, shape).at_most(num(ONE)),
{
    math::lemma_ramp_bounds(fpu, l.phase);
    math::lemma_tent_bounds(fpu, l.phase);
    lemma_saws_are_mirrored(fpu, l);
    plain::lemma_small_values();
    fpu.lemma_sub_side(num(ONE), fpu.mul(num(TWO), l.phase), num(ONE));
}

/// A retriggered oscillator starts where its shape crosses zero.
pub proof fn lemma_starts_at_zero<A: Fn(Op, Plain, Plain) -> Plain>(
    fpu: &Fpu<A>,
    l: LfoCore,
    shape: LfoShape,
)
    requires
        fpu.rounds(),
        shape == LfoShape::Triangle || shape == LfoShape::SawUp || shape == LfoShape::SawDown,
        l.phase == shape.start_phase(),
    ensures
        l.reading(fpu, shape).is_zero(),
{
    plain::lemma_small_values();
    if shape == LfoShape::Triangle {
        math::lemma_tent_value(fpu, l.phase, num(F0_25), num(ZERO));
    } else {
        lemma_saw_values(fpu, l, num(ZERO));
    }
}

/// The held random value is renewed with a new cycle and not before, and the phase moves on by
/// the increment, less one whole cycle with a wrap.
pub proof fn lemma_held_through_a_cycle<A: Fn(Op, Plain, Plain) -> Plain>(
    fpu: &Fpu<A>,
    l: LfoCore,
    r: Plain,
)
    requires
        fpu.rounds(),
        math::is_phase(l.phase) && math::is_phase(l.phase_increment),
        r.is_number(),
        r.scaled() == l.phase.scaled() + l.phase_increment.scaled(),
    ensures
        r.scaled() < plain::unit() ==> {
            &&& l.advanced(fpu).phase.equals(r)
            &&& l.advanced(fpu).reading(fpu, LfoShape::Random) == l.reading(fpu, LfoShape::Random)
        },
        r.scaled() >= plain::unit() ==> {
            &&& l.advanced(fpu).random_value == noise::noise_sample(
                fpu,
                l.advanced(fpu).prng_state,
            )
            &&& l.advanced(fpu).prng_state == noise::xorshifted(l.prng_state)
            &&& forall|w: Plain|
                w.is_number() && w.scaled() == r.scaled() - plain::unit()
                    ==> l.advanced(fpu).phase.equals(w)
        },
{
    plain::lemma_small_values();
    fpu.lemma_add_side(l.phase, l.phase_increment, r);
    let next = fpu.add(l.phase, l.phase_increment);
    plain::lemma_equal_scaled(next, r);
    plain::lemma_equal_scaled(num(ONE), next);
    assert forall|w: Plain| w.is_number() && w.scaled() == r.scaled() - plain::unit() implies fpu.sub(
        next,
        num(ONE),
    ).equals(w) by {
        fpu.lemma_sub_side(next, num(ONE), w);
    }
}

/// A faster rate moves the phase on by more, and the increment is the rate over the sample
/// rate wherever that is a number.
pub proof fn lemma_rate_speeds_up<A: Fn(Op, Plain, Plain) -> Plain>(
    fpu: &Fpu<A>,
    l: LfoCore,
    slow: Plain,
    fast: Plain,
    r: Plain,
)
    requires
        fpu.rounds(),
        l.sample_rate.is_finite() && l.sample_rate.scaled() > 0,
        slow.at_most(fast),
        num(F0_001).at_most(slow) && fast.at_most(num(F40)),
        r.is_number(),
    ensures
        l.with_rate(fpu, slow).phase_increment.at_most(l.with_rate(fpu, fast).phase_increment),
        r.scaled() * l.sample_rate.scaled() == slow.scaled() * plain::unit() ==> l.with_rate(
            fpu,
            slow,
        ).phase_increment.equals(r),
{
    plain::lemma_equal_scaled(slow, fast);
    let (a, b, s) = (slow.scaled(), fast.scaled(), l.sample_rate.scaled());
    assert(a * s <= b * s) by (nonlinear_arith)
        requires
            a <= b,
            s > 0,
    ;
    fpu.lemma_div_order(slow, l.sample_rate, fast, l.sample_rate);
    fpu.lemma_div_side(slow, l.sample_rate, r);
}

} // verus!
