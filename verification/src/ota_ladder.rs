//! OTA-C ladder lowpass: four one-pole stages, each with its own saturation, and a
//! selectable 2-pole or 4-pole output.
use crate::fpu::{Fpu, Op};
use crate::math::{self, fast_tanh};
use crate::nums::{FOUR, HALF, ONE, TWO, ZERO};
use crate::plain::{self, num, Plain};
use crate::tpt::{self, compute_g, one_pole, sanitize};
use vstd::prelude::*;

verus! {

broadcast use crate::plain::group_by_rank;

/// Filter order: which stage feeds the output. The feedback always comes from the
/// 4th stage, so resonance is the same in both.
#[derive(Clone, Copy, Debug, PartialEq, Eq, Structural)]
pub enum OtaPoles {
    /// 12 dB per octave, read from stage 1.
    Two,
    /// 24 dB per octave, read from stage 3.
    Four,
}

impl OtaPoles {
    pub open spec fn spec_output_tap(self) -> usize {
        match self {
            OtaPoles::Two => 1,
            OtaPoles::Four => 3,
        }
    }

    /// Index of the output stage.
    #[verifier::when_used_as_spec(spec_output_tap)]
    pub fn output_tap(self) -> (r: usize)
        ensures
            r == self.output_tap(),
    {
        match self {
            OtaPoles::Two => 1,
            OtaPoles::Four => 3,
        }
    }
}

/// Coefficients, frozen for one control block.
#[derive(Clone, Copy, Debug, PartialEq, Eq, Structural)]
pub struct OtaLadderCoeffs {
    /// One-pole stage gain in `(0, 1)`.
    pub g: Plain,
    /// Global feedback factor in `[0, 4]`; self-oscillation at 4.
    pub k: Plain,
    /// Input drive applied before the first stage's saturation.
    pub drive: Plain,
}

impl OtaLadderCoeffs {
    pub open spec fn spec_new<A: Fn(Op, Plain, Plain) -> Plain>(
        fpu: &Fpu<A>,
        cutoff_hz: Plain,
        sample_rate: Plain,
        resonance: Plain,
        drive: Plain,
    ) -> Self {
        OtaLadderCoeffs {
            g: compute_g(fpu, cutoff_hz, sample_rate),
            k: fpu.mul(num(FOUR), resonance.clamp(num(ZERO), num(ONE))),
            drive: drive.max(num(ZERO)),
        }
    }

    /// `resonance` in `[0, 1]` is scaled to the `[0, 4]` feedback range.
    #[verifier::when_used_as_spec(spec_new)]
    pub fn new<A: Fn(Op, Plain, Plain) -> Plain>(
        fpu: &Fpu<A>,
        cutoff_hz: Plain,
        sample_rate: Plain,
        resonance: Plain,
        drive: Plain,
    ) -> (r: Self)
        requires
            fpu.valid(),
            tpt::filterable(fpu, sample_rate),
        ensures
            r == OtaLadderCoeffs::new(fpu, cutoff_hz, sample_rate, resonance, drive),
    {
        OtaLadderCoeffs {
            g: compute_g(fpu, cutoff_hz, sample_rate),
            k: fpu.mul(num(FOUR), resonance.clamp(num(ZERO), num(ONE))),
            drive: drive.max(num(ZERO)),
        }
    }
}

pub open spec fn spec_saturating_stage<A: Fn(Op, Plain, Plain) -> Plain>(
    fpu: &Fpu<A>,
    input: Plain,
    state: Plain,
    g: Plain,
) -> (Plain, Plain) {
    one_pole(fpu, fast_tanh(fpu, input), state, g)
}

/// One integrator stage with its own saturation: the next state and the output.
#[verifier::when_used_as_spec(spec_saturating_stage)]
pub fn saturating_stage<A: Fn(Op, Plain, Plain) -> Plain>(
    fpu: &Fpu<A>,
    input: Plain,
    state: Plain,
    g: Plain,
) -> (r: (Plain, Plain))
    requires
        fpu.valid(),
    ensures
        r == saturating_stage(fpu, input, state, g),
{
    one_pole(fpu, fast_tanh(fpu, input), state, g)
}

/// The four integrators of a ladder, and the feedback they hold.
#[derive(Clone, Copy, Debug, PartialEq, Eq, Structural)]
pub struct OtaState {
    pub s0: Plain,
    pub s1: Plain,
    pub s2: Plain,
    pub s3: Plain,
    pub y4_prev: Plain,
}

impl OtaState {
    pub open spec fn silent() -> Self {
        OtaState {
            s0: num(ZERO),
            s1: num(ZERO),
            s2: num(ZERO),
            s3: num(ZERO),
            y4_prev: num(ZERO),
        }
    }

    pub fn new() -> (r: Self)
        ensures
            r == OtaState::silent(),
    {
        OtaState {
            s0: num(ZERO),
            s1: num(ZERO),
            s2: num(ZERO),
            s3: num(ZERO),
            y4_prev: num(ZERO),
        }
    }

    /// One sample through the four stages: the next state and every stage's output.
    pub open spec fn staged<A: Fn(Op, Plain, Plain) -> Plain>(
        self,
        fpu: &Fpu<A>,
        c: OtaLadderCoeffs,
        x: Plain,
    ) -> (Self, (Plain, Plain, Plain, Plain)) {
        let fed = fpu.sub(fpu.mul(c.drive, x), fpu.mul(c.k, self.y4_prev));
        let (s0, y0) = saturating_stage(fpu, fed, self.s0, c.g);
        let (s1, y1) = saturating_stage(fpu, y0, self.s1, c.g);
        let (s2, y2) = saturating_stage(fpu, y1, self.s2, c.g);
        let (s3, y3) = saturating_stage(fpu, y2, self.s3, c.g);
        (OtaState { s0, s1, s2, s3, y4_prev: sanitize(y3) }, (y0, y1, y2, y3))
    }

    /// Run one sample through the four stages and return their outputs.
    pub fn stages<A: Fn(Op, Plain, Plain) -> Plain>(
        &mut self,
        fpu: &Fpu<A>,
        c: OtaLadderCoeffs,
        x: Plain,
    ) -> (r: (Plain, Plain, Plain, Plain))
        requires
            fpu.valid(),
        ensures
            (*final(self), r) == old(self).staged(fpu, c, x),
    {
        let fed = fpu.sub(fpu.mul(c.drive, x), fpu.mul(c.k, self.y4_prev));
        let (s0, y0) = saturating_stage(fpu, fed, self.s0, c.g);
        let (s1, y1) = saturating_stage(fpu, y0, self.s1, c.g);
        let (s2, y2) = saturating_stage(fpu, y1, self.s2, c.g);
        let (s3, y3) = saturating_stage(fpu, y2, self.s3, c.g);
        *self = OtaState { s0, s1, s2, s3, y4_prev: sanitize(y3) };
        (y0, y1, y2, y3)
    }

    /// However the input looks, the state that is carried to the next sample is
    /// finite.
    pub proof fn lemma_state_stays_finite<A: Fn(Op, Plain, Plain) -> Plain>(
        self,
        fpu: &Fpu<A>,
        c: OtaLadderCoeffs,
        x: Plain,
    )
        ensures
            ({
                let next = self.staged(fpu, c, x).0;
                &&& next.s0.is_finite()
                &&& next.s1.is_finite()
                &&& next.s2.is_finite()
                &&& next.s3.is_finite()
                &&& next.y4_prev.is_finite()
            }),
    {
    }
}

/// Single-voice kernel.
#[derive(Clone, Copy, Debug, PartialEq, Eq, Structural)]
pub struct OtaLadderKernel {
    pub coeffs: OtaLadderCoeffs,
    pub poles: OtaPoles,
    pub state: OtaState,
}

impl OtaLadderKernel {
    pub open spec fn fresh() -> Self {
        OtaLadderKernel {
            coeffs: OtaLadderCoeffs { g: num(HALF), k: num(ZERO), drive: num(ONE) },
            poles: OtaPoles::Four,
            state: OtaState::silent(),
        }
    }

    pub fn new() -> (r: Self)
        ensures
            r == OtaLadderKernel::fresh(),
    {
        OtaLadderKernel {
            coeffs: OtaLadderCoeffs { g: num(HALF), k: num(ZERO), drive: num(ONE) },
            poles: OtaPoles::Four,
            state: OtaState::new(),
        }
    }

    /// Replace the coefficients, once per control block. The state stays.
    pub fn set_coeffs(&mut self, c: OtaLadderCoeffs)
        ensures
            *final(self) == (OtaLadderKernel { coeffs: c, ..*old(self) }),
    {
        self.coeffs = c;
    }

    /// Change the output tap. The feedback path is unchanged, so the filter keeps
    /// ringing as it did.
    pub fn set_poles(&mut self, poles: OtaPoles)
        ensures
            *final(self) == (OtaLadderKernel { poles, ..*old(self) }),
    {
        self.poles = poles;
    }

    pub fn poles(&self) -> (r: OtaPoles)
        ensures
            r == self.poles,
    {
        self.poles
    }

    pub fn reset(&mut self)
        ensures
            *final(self) == (OtaLadderKernel { state: OtaState::silent(), ..*old(self) }),
    {
        self.state = OtaState::new();
    }

    pub open spec fn ticked<A: Fn(Op, Plain, Plain) -> Plain>(
        self,
        fpu: &Fpu<A>,
        x: Plain,
    ) -> (Self, Plain) {
        let (state, y) = self.state.staged(fpu, self.coeffs, x);
        let out = match self.poles {
            OtaPoles::Two => y.1,
            OtaPoles::Four => y.3,
        };
        (OtaLadderKernel { state, ..self }, out)
    }

    /// Run one sample and return the selected tap.
    pub fn tick<A: Fn(Op, Plain, Plain) -> Plain>(&mut self, fpu: &Fpu<A>, x: Plain) -> (r: Plain)
        requires
            fpu.valid(),
        ensures
            (*final(self), r) == old(self).ticked(fpu, x),
    {
        let y = self.state.stages(fpu, self.coeffs, x);
        match self.poles {
            OtaPoles::Two => y.1,
            OtaPoles::Four => y.3,
        }
    }

    /// The output tap changes what is heard, never how the filter rings: the state
    /// after a sample is the same in both modes.
    pub proof fn lemma_tap_leaves_loop_alone<A: Fn(Op, Plain, Plain) -> Plain>(
        self,
        fpu: &Fpu<A>,
        poles: OtaPoles,
        x: Plain,
    )
        ensures
            (OtaLadderKernel { poles, ..self }).ticked(fpu, x).0.state == self.ticked(
                fpu,
                x,
            ).0.state,
    {
    }
}

impl Default for OtaLadderKernel {
    fn default() -> (r: Self)
        ensures
            r == OtaLadderKernel::fresh(),
    {
        OtaLadderKernel::new()
    }
}

/// The feedback factor is four times the resonance: nothing at none, four at full resonance,
/// where the loop rings, and strictly more with more resonance between.
pub proof fn lemma_feedback_is_four_times_resonance<A: Fn(Op, Plain, Plain) -> Plain>(
    fpu: &Fpu<A>,
    cutoff_hz: Plain,
    sample_rate: Plain,
    resonance: Plain,
    drive: Plain,
)
    requires
        fpu.rounds(),
        resonance.is_number(),
    ensures
        ({
            let k = OtaLadderCoeffs::new(fpu, cutoff_hz, sample_rate, resonance, drive).k;
            &&& k.is_finite()
            &&& resonance.at_most(num(ZERO)) ==> k.is_zero()
            &&& num(ONE).at_most(resonance) ==> k == num(FOUR)
            &&& 0 <= resonance.scaled() <= plain::unit() ==> k.scaled() == 4 * resonance.scaled()
        }),
{
    plain::lemma_small_values();
    let r = resonance.clamp(num(ZERO), num(ONE));
    plain::lemma_equal_scaled(resonance, num(ZERO));
    plain::lemma_equal_scaled(num(ONE), resonance);
    plain::lemma_equal_scaled(r, num(ONE));
    plain::lemma_equal_scaled(r, num(ZERO));
    plain::lemma_scaled_sign(r);
    plain::lemma_twice(r);
    plain::lemma_equal_scaled(plain::twice(r), num(TWO));
    plain::lemma_twice(plain::twice(r));
    let q = plain::twice(plain::twice(r));
    let (u, s) = (plain::unit(), r.scaled());
    assert((4 * u) * s == (2 * (2 * s)) * u) by (nonlinear_arith);
    fpu.lemma_mul_side(num(FOUR), r, q);
    plain::lemma_equal_scaled(fpu.mul(num(FOUR), r), q);
    plain::lemma_equal_scaled(fpu.mul(num(FOUR), r), num(FOUR));
    plain::lemma_scaled_sign(fpu.mul(num(FOUR), r));
}

/// More resonance is more feedback.
pub proof fn lemma_resonance_raises_feedback<A: Fn(Op, Plain, Plain) -> Plain>(
    fpu: &Fpu<A>,
    cutoff_hz: Plain,
    sample_rate: Plain,
    less: Plain,
    more: Plain,
    drive: Plain,
)
    requires
        fpu.rounds(),
        less.is_number() && more.is_number(),
        num(ZERO).at_most(less) && more.at_most(num(ONE)),
        less.less(more),
    ensures
        OtaLadderCoeffs::new(fpu, cutoff_hz, sample_rate, less, drive).k.less(
            OtaLadderCoeffs::new(fpu, cutoff_hz, sample_rate, more, drive).k,
        ),
{
    plain::lemma_small_values();
    lemma_feedback_is_four_times_resonance(fpu, cutoff_hz, sample_rate, less, drive);
    lemma_feedback_is_four_times_resonance(fpu, cutoff_hz, sample_rate, more, drive);
    plain::lemma_equal_scaled(num(ZERO), less);
    plain::lemma_equal_scaled(less, more);
    plain::lemma_equal_scaled(more, num(ONE));
}

/// The drive is taken as it is, but never below nothing.
pub proof fn lemma_drive_is_not_negative<A: Fn(Op, Plain, Plain) -> Plain>(
    fpu: &Fpu<A>,
    cutoff_hz: Plain,
    sample_rate: Plain,
    resonance: Plain,
    drive: Plain,
)
    requires
        !drive.is_nan(),
    ensures
        ({
            let c = OtaLadderCoeffs::new(fpu, cutoff_hz, sample_rate, resonance, drive);
            &&& num(ZERO).at_most(drive) ==> c.drive == drive
            &&& drive.at_most(num(ZERO)) ==> c.drive.is_zero()
        }),
{
}

/// What a ladder hears of a sample and of its own output: the more drive the more of the
/// sample, and the more feedback the less of an output of the same sign, so long as the
/// saturation keeps the order of the two levels that come of it.
pub proof fn lemma_first_stage_hears_drive_and_feedback<A: Fn(Op, Plain, Plain) -> Plain>(
    fpu: &Fpu<A>,
    s: OtaState,
    weak: OtaLadderCoeffs,
    strong: OtaLadderCoeffs,
    x: Plain,
)
    requires
        fpu.rounds(),
        x.is_finite() && s.s0.is_finite() && s.y4_prev.is_finite(),
        -16 * plain::unit() <= s.s0.scaled() <= 16 * plain::unit(),
        weak.drive.is_finite() && strong.drive.is_finite(),
        weak.k.is_finite() && strong.k.is_finite(),
        weak.g == strong.g && weak.g.is_finite() && 0 <= weak.g.scaled() <= plain::unit(),
        x.scaled() >= 0 && s.y4_prev.scaled() >= 0,
        weak.drive.at_most(strong.drive) && strong.k.at_most(weak.k),
        fpu.mul(weak.drive, x).is_finite() && fpu.mul(strong.drive, x).is_finite(),
        fpu.mul(weak.k, s.y4_prev).is_finite() && fpu.mul(strong.k, s.y4_prev).is_finite(),
        ({
            let a = fpu.sub(fpu.mul(weak.drive, x), fpu.mul(weak.k, s.y4_prev));
            let b = fpu.sub(fpu.mul(strong.drive, x), fpu.mul(strong.k, s.y4_prev));
            &&& a.is_finite() && b.is_finite()
            &&& a.at_most(b) ==> fast_tanh(fpu, a).at_most(fast_tanh(fpu, b))
        }),
    ensures
        s.staged(fpu, weak, x).1.0.at_most(s.staged(fpu, strong, x).1.0),
{
    plain::lemma_small_values();
    vstd::arithmetic::power2::lemma2_to64();
    plain::lemma_power_scaled(152);
    let p25 = num(0x4c00_0000);
    let u = plain::unit();
    assert(p25.scaled() == 0x200_0000 * u && p25.scaled() * u >= 0) by (nonlinear_arith)
        requires
            p25.scaled() == vstd::arithmetic::power2::pow2(25) * u,
            vstd::arithmetic::power2::pow2(25) == 0x200_0000,
            u > 0,
    ;
    let (dw, ds) = (fpu.mul(weak.drive, x), fpu.mul(strong.drive, x));
    let (kw, ks) = (fpu.mul(weak.k, s.y4_prev), fpu.mul(strong.k, s.y4_prev));
    fpu.lemma_scaling_rises(weak.drive, strong.drive, x);
    fpu.lemma_scaling_rises(strong.k, weak.k, s.y4_prev);
    plain::lemma_equal_scaled(dw, ds);
    plain::lemma_equal_scaled(ks, kw);
    fpu.lemma_sub_order(dw, kw, ds, ks);
    let (a, b) = (fpu.sub(dw, kw), fpu.sub(ds, ks));
    math::lemma_tanh_bounds(fpu, a);
    math::lemma_tanh_bounds(fpu, b);
    let (ta, tb) = (fast_tanh(fpu, a), fast_tanh(fpu, b));
    plain::lemma_equal_scaled(ta, tb);
    let (ea, eb) = (fpu.sub(ta, s.s0), fpu.sub(tb, s.s0));
    fpu.lemma_add_within(ta, s.s0, 0x100_0000 * u, 16 * u, p25);
    fpu.lemma_add_within(tb, s.s0, 0x100_0000 * u, 16 * u, p25);
    fpu.lemma_sub_order(ta, s.s0, tb, s.s0);
    plain::lemma_equal_scaled(ea, eb);
    fpu.lemma_mul_within(ea, weak.g, p25.scaled(), u, p25);
    fpu.lemma_mul_within(eb, weak.g, p25.scaled(), u, p25);
    fpu.lemma_scaling_rises(ea, eb, weak.g);
    plain::lemma_equal_scaled(fpu.mul(ea, weak.g), fpu.mul(eb, weak.g));
    fpu.lemma_add_order(fpu.mul(ea, weak.g), s.s0, fpu.mul(eb, weak.g), s.s0);
}

/// Without feedback the ladder does not hear its own output.
pub proof fn lemma_no_feedback_no_loop<A: Fn(Op, Plain, Plain) -> Plain>(
    fpu: &Fpu<A>,
    s: OtaState,
    y4: Plain,
    c: OtaLadderCoeffs,
    x: Plain,
)
    requires
        fpu.rounds(),
        c.k.is_zero(),
        s.y4_prev.is_finite() && y4.is_finite(),
        fpu.mul(c.drive, x).is_normal(),
    ensures
        s.staged(fpu, c, x) == (OtaState { y4_prev: y4, ..s }).staged(fpu, c, x),
{
    let d = fpu.mul(c.drive, x);
    fpu.lemma_none_of(s.y4_prev, c.k);
    fpu.lemma_none_of(y4, c.k);
    fpu.lemma_nothing_added(d, fpu.mul(c.k, s.y4_prev));
    fpu.lemma_nothing_added(d, fpu.mul(c.k, y4));
    assert(fpu.sub(d, fpu.mul(c.k, s.y4_prev)) == d);
    assert(fpu.sub(d, fpu.mul(c.k, y4)) == d);
}

/// A ladder at rest stays silent.
pub proof fn lemma_silence_stays<A: Fn(Op, Plain, Plain) -> Plain>(
    fpu: &Fpu<A>,
    c: OtaLadderCoeffs,
    x: Plain,
)
    requires
        fpu.rounds(),
        c.drive.is_finite() && c.k.is_finite() && c.g.is_finite(),
        x.is_zero(),
    ensures
        ({
            let (next, y) = OtaState::silent().staged(fpu, c, x);
            &&& next.s0.is_zero() && next.s1.is_zero() && next.s2.is_zero() && next.s3.is_zero()
            &&& next.y4_prev.is_zero()
            &&& y.0.is_zero() && y.1.is_zero() && y.2.is_zero() && y.3.is_zero()
        }),
{
    let z = num(ZERO);
    fpu.lemma_none_of(c.drive, x);
    fpu.lemma_none_of(c.k, z);
    let fed = fpu.sub(fpu.mul(c.drive, x), fpu.mul(c.k, z));
    fpu.lemma_nothing_added(fpu.mul(c.drive, x), fpu.mul(c.k, z));
    let y = OtaState::silent().staged(fpu, c, x).1;
    lemma_silent_stage(fpu, fed, c.g);
    lemma_silent_stage(fpu, y.0, c.g);
    lemma_silent_stage(fpu, y.1, c.g);
    lemma_silent_stage(fpu, y.2, c.g);
}

proof fn lemma_silent_stage<A: Fn(Op, Plain, Plain) -> Plain>(
    fpu: &Fpu<A>,
    input: Plain,
    g: Plain,
)
    requires
        fpu.rounds(),
        input.is_zero(),
        g.is_finite(),
    ensures
        saturating_stage(fpu, input, num(ZERO), g).0.is_zero(),
        saturating_stage(fpu, input, num(ZERO), g).1.is_zero(),
{
    math::lemma_tanh_keeps_sign(fpu, input);
    let z = num(ZERO);
    let t = fast_tanh(fpu, input);
    let d = fpu.sub(t, z);
    fpu.lemma_nothing_added(t, z);
    fpu.lemma_none_of(g, d);
    let v = fpu.mul(d, g);
    fpu.lemma_nothing_added(z, v);
    fpu.lemma_nothing_added(fpu.add(v, z), v);
}

/// Two poles tap the second stage, which the later stages do not reach; four poles tap the
/// fourth, which is two more stages of the same filter on.
pub proof fn lemma_slope_taps<A: Fn(Op, Plain, Plain) -> Plain>(
    fpu: &Fpu<A>,
    k: OtaLadderKernel,
    s2: Plain,
    s3: Plain,
    x: Plain,
)
    ensures
        ({
            let two = (OtaLadderKernel { poles: OtaPoles::Two, ..k }).ticked(fpu, x).1;
            let four = (OtaLadderKernel { poles: OtaPoles::Four, ..k }).ticked(fpu, x).1;
            let other = OtaLadderKernel {
                poles: OtaPoles::Two,
                state: OtaState { s2, s3, ..k.state },
                ..k
            };
            let third = saturating_stage(fpu, two, k.state.s2, k.coeffs.g).1;
            &&& other.ticked(fpu, x).1 == two
            &&& four == saturating_stage(fpu, third, k.state.s3, k.coeffs.g).1
        }),
{
}

} // verus!
