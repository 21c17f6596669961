//! Anti-aliased waveform oscillator built on [`MonoPhaseAccumulator`].
use crate::fpu::{Fpu, Op};
use crate::math::{self, lookup_sine, SineTable};
use crate::nums::{F0_01, F0_99, F0_999999, FOUR, HALF, MINUS_ONE, ONE, TWO, ZERO};
use crate::phase::{self, polyblep, MonoPhaseAccumulator};
use crate::plain::{self, num, Plain};
use vstd::prelude::*;

verus! {

broadcast use crate::plain::group_by_rank;

/// Selectable oscillator waveform.
#[derive(Clone, Copy, Debug, PartialEq, Eq, Structural)]
pub enum Waveform {
    Sine,
    Triangle,
    Saw,
    /// Square or variable-width pulse.
    Pulse,
}

impl Waveform {
    pub open spec fn spec_label(self) -> &'static str {
        match self {
            Waveform::Sine => "Sine",
            Waveform::Triangle => "Triangle",
            Waveform::Saw => "Saw",
            Waveform::Pulse => "Pulse",
        }
    }

    #[verifier::when_used_as_spec(spec_label)]
    pub fn label(self) -> (r: &'static str)
        ensures
            r == self.label(),
    {
        match self {
            Waveform::Sine => "Sine",
            Waveform::Triangle => "Triangle",
            Waveform::Saw => "Saw",
            Waveform::Pulse => "Pulse",
        }
    }

    /// Every waveform, in the order of the selector.
    pub fn all() -> (r: [Waveform; 4])
        ensures
            r@ == seq![Waveform::Sine, Waveform::Triangle, Waveform::Saw, Waveform::Pulse],
    {
        [Waveform::Sine, Waveform::Triangle, Waveform::Saw, Waveform::Pulse]
    }
}

/// A single anti-aliased oscillator with its own phase.
#[derive(Clone, Copy, Debug, PartialEq, Eq, Structural)]
pub struct Oscillator {
    pub acc: MonoPhaseAccumulator,
    /// Pulse duty cycle in `(0, 1)`. Ignored by the other waveforms.
    pub pulse_width: Plain,
}

pub open spec fn spec_fract<A: Fn(Op, Plain, Plain) -> Plain>(fpu: &Fpu<A>, x: Plain) -> Plain {
    fpu.sub(x, x.trunc())
}

/// The part of `x` behind the point.
#[verifier::when_used_as_spec(spec_fract)]
pub fn fract<A: Fn(Op, Plain, Plain) -> Plain>(fpu: &Fpu<A>, x: Plain) -> (r: Plain)
    requires
        fpu.valid(),
    ensures
        r == fract(fpu, x),
{
    fpu.sub(x, x.trunc())
}

impl Oscillator {
    pub fn new() -> (r: Self)
        ensures
            r == (Oscillator {
                acc: MonoPhaseAccumulator { phase: num(ZERO), phase_increment: num(ZERO) },
                pulse_width: num(HALF),
            }),
    {
        Oscillator { acc: MonoPhaseAccumulator::new(), pulse_width: num(HALF) }
    }

    pub fn reset(&mut self)
        ensures
            final(self).acc == (MonoPhaseAccumulator { phase: num(ZERO), ..old(self).acc }),
            final(self).pulse_width == old(self).pulse_width,
    {
        self.acc.reset();
    }

    /// Set the per-sample phase increment (frequency over sample rate).
    pub fn set_increment(&mut self, increment: Plain)
        ensures
            final(self).acc == (MonoPhaseAccumulator {
                phase_increment: increment.min(num(F0_999999)),
                ..old(self).acc
            }),
            final(self).pulse_width == old(self).pulse_width,
    {
        self.acc.set_increment(increment);
    }

    /// The sample at the current phase. Saw and pulse are corrected by PolyBLEP at
    /// their discontinuities.
    pub open spec fn sample<A: Fn(Op, Plain, Plain) -> Plain>(
        self,
        fpu: &Fpu<A>,
        wave: Waveform,
    ) -> Plain {
        let phase = self.acc.phase;
        let dt = self.acc.phase_increment;
        match wave {
            Waveform::Sine => math::sine_at(fpu, phase),
            Waveform::Triangle => fpu.sub(
                num(ONE),
                fpu.mul(num(FOUR), fpu.sub(phase, num(HALF)).abs()),
            ),
            Waveform::Saw => fpu.sub(
                fpu.sub(fpu.mul(num(TWO), phase), num(ONE)),
                polyblep(fpu, phase, dt),
            ),
            Waveform::Pulse => {
                let pw = self.pulse_width.clamp(num(F0_01), num(F0_99));
                let naive = if phase.less(pw) {
                    num(ONE)
                } else {
                    num(MINUS_ONE)
                };
                let rise = fpu.add(naive, polyblep(fpu, phase, dt));
                let pf = fract(fpu, fpu.add(fpu.sub(phase, pw), num(ONE)));
                fpu.sub(rise, polyblep(fpu, pf, dt))
            },
        }
    }

    /// Produce the next sample and advance the phase.
    pub fn next<A: Fn(Op, Plain, Plain) -> Plain>(
        &mut self,
        fpu: &Fpu<A>,
        table: &SineTable,
        wave: Waveform,
    ) -> (r: Plain)
        requires
            fpu.valid(),
            table.tabulates(fpu),
        ensures
            r == old(self).sample(fpu, wave),
            final(self).acc == old(self).acc.advanced(fpu),
            final(self).pulse_width == old(self).pulse_width,
    {
        let phase = self.acc.phase;
        let dt = self.acc.phase_increment;
        let out = match wave {
            Waveform::Sine => lookup_sine(fpu, table, phase),
            Waveform::Triangle => fpu.sub(
                num(ONE),
                fpu.mul(num(FOUR), fpu.sub(phase, num(HALF)).abs()),
            ),
            Waveform::Saw => fpu.sub(
                fpu.sub(fpu.mul(num(TWO), phase), num(ONE)),
                polyblep(fpu, phase, dt),
            ),
            Waveform::Pulse => {
                let pw = self.pulse_width.clamp(num(F0_01), num(F0_99));
                let naive = if phase.less(pw) {
                    num(ONE)
                } else {
                    num(MINUS_ONE)
                };
                let rise = fpu.add(naive, polyblep(fpu, phase, dt));
                let pf = fract(fpu, fpu.add(fpu.sub(phase, pw), num(ONE)));
                fpu.sub(rise, polyblep(fpu, pf, dt))
            },
        };
        self.acc.advance(fpu);
        out
    }
}

impl Default for Oscillator {
    fn default() -> (r: Self)
        ensures
            r == (Oscillator {
                acc: MonoPhaseAccumulator { phase: num(ZERO), phase_increment: num(ZERO) },
                pulse_width: num(HALF),
            }),
    {
        Oscillator::new()
    }
}

/// Clear of its edges a pulse is high before its width and low from there on. The phase, the
/// width and the phase counted from the width are each at least a sample away from the ends of
/// the cycle.
pub proof fn lemma_pulse_is_high_for_its_width<A: Fn(Op, Plain, Plain) -> Plain>(
    fpu: &Fpu<A>,
    o: Oscillator,
)
    requires
        fpu.rounds(),
        num(F0_01).at_most(o.pulse_width) && o.pulse_width.at_most(num(F0_99)),
        ({
            let (p, dt) = (o.acc.phase, o.acc.phase_increment);
            let pf = fract(fpu, fpu.add(fpu.sub(p, o.pulse_width), num(ONE)));
            &&& p.is_number() && pf.is_number() && dt.is_finite() && 0 < dt.scaled()
            &&& dt.scaled() <= p.scaled() && p.scaled() + dt.scaled() <= plain::unit()
            &&& dt.scaled() <= pf.scaled() && pf.scaled() + dt.scaled() <= plain::unit()
        }),
    ensures
        o.sample(fpu, Waveform::Pulse) == (if o.acc.phase.less(o.pulse_width) {
            num(ONE)
        } else {
            num(MINUS_ONE)
        }),
{
    let (p, dt) = (o.acc.phase, o.acc.phase_increment);
    let pf = fract(fpu, fpu.add(fpu.sub(p, o.pulse_width), num(ONE)));
    phase::lemma_correction_is_local(fpu, p, dt);
    phase::lemma_correction_is_local(fpu, pf, dt);
    let want = if p.less(o.pulse_width) {
        num(ONE)
    } else {
        num(MINUS_ONE)
    };
    fpu.lemma_nothing_added(want, num(ZERO));
    assert(fpu.add(want, num(ZERO)) == want);
}

/// Clear of its edge a saw reads twice the phase less one, wherever that is a number; at the
/// edge it reads the middle of its step.
pub proof fn lemma_saw_value<A: Fn(Op, Plain, Plain) -> Plain>(
    fpu: &Fpu<A>,
    o: Oscillator,
    r: Plain,
)
    requires
        fpu.rounds(),
        math::is_phase(o.acc.phase) && o.acc.phase.is_number(),
        o.acc.phase_increment.is_finite() && 0 < o.acc.phase_increment.scaled(),
        r.is_number(),
        r.scaled() == 2 * o.acc.phase.scaled() - plain::unit(),
    ensures
        ({
            let (p, dt) = (o.acc.phase, o.acc.phase_increment);
            &&& dt.scaled() <= p.scaled() && p.scaled() + dt.scaled() <= plain::unit() ==> o.sample(
                fpu,
                Waveform::Saw,
            ).equals(r)
            &&& p.is_zero() ==> o.sample(fpu, Waveform::Saw).is_zero()
        }),
{
    plain::lemma_small_values();
    let (p, dt) = (o.acc.phase, o.acc.phase_increment);
    phase::lemma_correction_is_local(fpu, p, dt);
    math::lemma_ramp_value(fpu, p, r);
    let x = math::ramp(fpu, p);
    plain::lemma_equal_scaled(x, r);
    fpu.lemma_sub_side(x, num(ZERO), r);
    if p.is_zero() {
        plain::lemma_zero_scaled(p);
        fpu.lemma_sub_side(x, num(MINUS_ONE), num(ZERO));
    }
}

/// A triangle rises to the middle of the cycle and falls from there.
pub proof fn lemma_triangle_shape<A: Fn(Op, Plain, Plain) -> Plain>(
    fpu: &Fpu<A>,
    early: Oscillator,
    late: Oscillator,
)
    requires
        fpu.rounds(),
        math::is_phase(early.acc.phase) && math::is_phase(late.acc.phase),
        early.acc.phase.at_most(late.acc.phase),
    ensures
        ({
            let (p, q) = (early.acc.phase, late.acc.phase);
            let (a, b) = (
                early.sample(fpu, Waveform::Triangle),
                late.sample(fpu, Waveform::Triangle),
            );
            &&& 2 * q.scaled() <= plain::unit() ==> a.at_most(b)
            &&& 2 * p.scaled() >= plain::unit() ==> b.at_most(a)
            &&& p.scaled() == 0 ==> a.equals(num(MINUS_ONE))
            &&& 2 * p.scaled() == plain::unit() ==> a.equals(num(ONE))
        }),
{
    plain::lemma_small_values();
    math::lemma_tent_rises_and_falls(fpu, early.acc.phase, late.acc.phase);
    if early.acc.phase.scaled() == 0 {
        math::lemma_tent_value(fpu, early.acc.phase, num(HALF), num(MINUS_ONE));
    }
    if 2 * early.acc.phase.scaled() == plain::unit() {
        math::lemma_tent_value(fpu, early.acc.phase, num(ZERO), num(ONE));
    }
}

} // verus!
