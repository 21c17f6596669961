//! Four-pole transistor-ladder lowpass: topology-preserving one-poles, saturation on
//! the feedback path, feedback delayed by one sample.
use crate::fpu::{Fpu, Op};
use crate::math::{self, fast_tanh};
use crate::nums::{F0_00001, F0_0875, F0_95, F0_999, FOUR, HALF, ONE, TWO, ZERO};
use crate::ota_ladder;
use crate::plain::{self, num, Plain};
use crate::tpt::{self, one_pole, raw_gain, sanitize};
use vstd::prelude::*;

verus! {

broadcast use crate::plain::group_by_rank;

/// Coefficient voicing preset.
#[derive(Clone, Copy, Debug, PartialEq, Eq, Structural)]
pub enum LadderVariant {
    /// Sharp resonance peak, unity input scale, unmodified cutoff.
    Sharp,
    /// Softer top and bass compression under resonance.
    Smooth,
}

/// Ladder coefficients, frozen for one control block.
#[derive(Clone, Copy, Debug, PartialEq, Eq, Structural)]
pub struct LadderCoeffs {
    /// One-pole stage gain in `(0, 1)`.
    pub g: Plain,
    /// Global feedback factor in `[0, 4]`; self-oscillation at 4.
    pub k: Plain,
    /// Input drive applied before the feedback saturation.
    pub drive: Plain,
    /// Input scale: bass compression under resonance for the smooth voicing.
    pub scale: Plain,
}

impl LadderCoeffs {
    pub open spec fn spec_new<A: Fn(Op, Plain, Plain) -> Plain>(
        fpu: &Fpu<A>,
        cutoff_hz: Plain,
        sample_rate: Plain,
        resonance: Plain,
        drive: Plain,
        variant: LadderVariant,
    ) -> Self {
        let raw = raw_gain(fpu, cutoff_hz, sample_rate);
        let k = fpu.mul(num(FOUR), resonance.clamp(num(ZERO), num(ONE)));
        match variant {
            LadderVariant::Sharp => LadderCoeffs {
                g: raw.clamp(num(F0_00001), num(F0_999)),
                k,
                drive: drive.max(num(ZERO)),
                scale: num(ONE),
            },
            LadderVariant::Smooth => LadderCoeffs {
                g: fpu.mul(raw, num(F0_95)).clamp(num(F0_00001), num(F0_999)),
                k,
                drive: drive.max(num(ZERO)),
                scale: fpu.sub(num(ONE), fpu.mul(num(F0_0875), k)),
            },
        }
    }

    #[verifier::when_used_as_spec(spec_new)]
    pub fn new<A: Fn(Op, Plain, Plain) -> Plain>(
        fpu: &Fpu<A>,
        cutoff_hz: Plain,
        sample_rate: Plain,
        resonance: Plain,
        drive: Plain,
        variant: LadderVariant,
    ) -> (r: Self)
        requires
            fpu.valid(),
            tpt::filterable(fpu, sample_rate),
        ensures
            r == LadderCoeffs::new(fpu, cutoff_hz, sample_rate, resonance, drive, variant),
    {
        let raw = raw_gain(fpu, cutoff_hz, sample_rate);
        let g = match variant {
            LadderVariant::Sharp => raw,
            LadderVariant::Smooth => fpu.mul(raw, num(F0_95)),
        };
        let k = fpu.mul(num(FOUR), resonance.clamp(num(ZERO), num(ONE)));
        let scale = match variant {
            LadderVariant::Sharp => num(ONE),
            LadderVariant::Smooth => fpu.sub(num(ONE), fpu.mul(num(F0_0875), k)),
        };
        LadderCoeffs { g: g.clamp(
            num(F0_00001),
            num(F0_999),
        ), k, drive: drive.max(num(ZERO)), scale }
    }
}

/// Single-voice ladder kernel.
#[derive(Clone, Copy, Debug, PartialEq, Eq, Structural)]
pub struct LadderKernel {
    pub g: Plain,
    pub k: Plain,
    pub drive: Plain,
    pub scale: Plain,
    pub s0: Plain,
    pub s1: Plain,
    pub s2: Plain,
    pub s3: Plain,
    pub y4_prev: Plain,
}

impl LadderKernel {
    pub open spec fn fresh() -> Self {
        LadderKernel {
            g: num(HALF),
            k: num(ZERO),
            drive: num(ONE),
            scale: num(ONE),
            s0: num(ZERO),
            s1: num(ZERO),
            s2: num(ZERO),
            s3: num(ZERO),
            y4_prev: num(ZERO),
        }
    }

    pub fn new() -> (r: Self)
        ensures
            r == LadderKernel::fresh(),
    {
        LadderKernel {
            g: num(HALF),
            k: num(ZERO),
            drive: num(ONE),
            scale: num(ONE),
            s0: num(ZERO),
            s1: num(ZERO),
            s2: num(ZERO),
            s3: num(ZERO),
            y4_prev: num(ZERO),
        }
    }

    /// Replace the coefficients, once per control block. The state stays.
    pub fn set_coeffs(&mut self, c: LadderCoeffs)
        ensures
            *final(self) == (LadderKernel {
                g: c.g,
                k: c.k,
                drive: c.drive,
                scale: c.scale,
                ..*old(self)
            }),
    {
        self.g = c.g;
        self.k = c.k;
        self.drive = c.drive;
        self.scale = c.scale;
    }

    /// Silence the state. The coefficients stay.
    pub fn reset(&mut self)
        ensures
            *final(self) == (LadderKernel {
                s0: num(ZERO),
                s1: num(ZERO),
                s2: num(ZERO),
                s3: num(ZERO),
                y4_prev: num(ZERO),
                ..*old(self)
            }),
    {
        self.s0 = num(ZERO);
        self.s1 = num(ZERO);
        self.s2 = num(ZERO);
        self.s3 = num(ZERO);
        self.y4_prev = num(ZERO);
    }

    pub open spec fn ticked<A: Fn(Op, Plain, Plain) -> Plain>(
        self,
        fpu: &Fpu<A>,
        x: Plain,
    ) -> (Self, Plain) {
        let u = fast_tanh(
            fpu,
            fpu.sub(fpu.mul(fpu.mul(self.drive, x), self.scale), fpu.mul(self.k, self.y4_prev)),
        );
        let (s0, y0) = one_pole(fpu, u, self.s0, self.g);
        let (s1, y1) = one_pole(fpu, y0, self.s1, self.g);
        let (s2, y2) = one_pole(fpu, y1, self.s2, self.g);
        let (s3, y3) = one_pole(fpu, y2, self.s3, self.g);
        (LadderKernel { s0, s1, s2, s3, y4_prev: sanitize(y3), ..self }, y3)
    }

    /// Run one sample and return the 4th-stage output, 24 dB per octave.
    pub fn tick<A: Fn(Op, Plain, Plain) -> Plain>(&mut self, fpu: &Fpu<A>, x: Plain) -> (r: Plain)
        requires
            fpu.valid(),
        ensures
            (*final(self), r) == old(self).ticked(fpu, x),
    {
        let u = fast_tanh(
            fpu,
            fpu.sub(fpu.mul(fpu.mul(self.drive, x), self.scale), fpu.mul(self.k, self.y4_prev)),
        );
        let (s0, y0) = one_pole(fpu, u, self.s0, self.g);
        self.s0 = s0;
        let (s1, y1) = one_pole(fpu, y0, self.s1, self.g);
        self.s1 = s1;
        let (s2, y2) = one_pole(fpu, y1, self.s2, self.g);
        self.s2 = s2;
        let (s3, y3) = one_pole(fpu, y2, self.s3, self.g);
        self.s3 = s3;
        self.y4_prev = sanitize(y3);
        y3
    }

    /// However the input looks, the state that is carried to the next sample is
    /// finite.
    pub proof fn lemma_state_stays_finite<A: Fn(Op, Plain, Plain) -> Plain>(
        self,
        fpu: &Fpu<A>,
        x: Plain,
    )
        ensures
            ({
                let next = self.ticked(fpu, x).0;
                &&& next.s0.is_finite()
                &&& next.s1.is_finite()
                &&& next.s2.is_finite()
                &&& next.s3.is_finite()
                &&& next.y4_prev.is_finite()
            }),
    {
    }
}

impl Default for LadderKernel {
    fn default() -> (r: Self)
        ensures
            r == LadderKernel::fresh(),
    {
        LadderKernel::new()
    }
}

/// The feedback factor is four times the resonance in both variants: nothing at none, four at
/// full resonance. The sharp one takes its input whole; the smooth one does without resonance,
/// and takes less of it the more resonance there is.
pub proof fn lemma_resonance<A: Fn(Op, Plain, Plain) -> Plain>(
    fpu: &Fpu<A>,
    cutoff_hz: Plain,
    sample_rate: Plain,
    resonance: Plain,
    drive: Plain,
    variant: LadderVariant,
)
    requires
        fpu.rounds(),
        resonance.is_number(),
        !drive.is_nan(),
    ensures
        ({
            let c = LadderCoeffs::new(fpu, cutoff_hz, sample_rate, resonance, drive, variant);
            &&& c.k.is_finite()
            &&& resonance.at_most(num(ZERO)) ==> c.k.is_zero() && c.scale == num(ONE)
            &&& num(ONE).at_most(resonance) ==> c.k == num(FOUR)
            &&& 0 <= resonance.scaled() <= plain::unit() ==> c.k.scaled() == 4 * resonance.scaled()
            &&& variant == LadderVariant::Sharp ==> c.scale == num(ONE)
            &&& c.scale.at_most(num(ONE))
            &&& num(ZERO).at_most(drive) ==> c.drive == drive
            &&& drive.at_most(num(ZERO)) ==> c.drive.is_zero()
        }),
{
    ota_ladder::lemma_feedback_is_four_times_resonance(
        fpu,
        cutoff_hz,
        sample_rate,
        resonance,
        drive,
    );
    plain::lemma_small_values();
    let r = resonance.clamp(num(ZERO), num(ONE));
    plain::lemma_equal_scaled(resonance, num(ZERO));
    plain::lemma_equal_scaled(num(ONE), resonance);
    let k = fpu.mul(num(FOUR), r);
    plain::lemma_scaled_sign(k);
    plain::lemma_scaled_sign(num(F0_0875));
    plain::lemma_scaled_sign(r);
    let u = plain::unit();
    let (s, t) = (num(F0_0875).scaled(), k.scaled());
    assert(t >= 0);
    assert(0 * u <= s * t) by (nonlinear_arith)
        requires
            s >= 0,
            t >= 0,
    ;
    plain::lemma_equal_scaled(num(F0_0875), num(ONE));
    assert(t <= 4 * u);
    assert(u * (4 * u) == (4 * u) * u) by (nonlinear_arith);
    fpu.lemma_mul_within(num(F0_0875), k, u, 4 * u, num(FOUR));
    let m = fpu.mul(num(F0_0875), k);
    fpu.lemma_mul_side(num(F0_0875), k, num(ZERO));
    plain::lemma_equal_scaled(num(ZERO), m);
    fpu.lemma_sub_side(num(ONE), m, num(ONE));
    if resonance.at_most(num(ZERO)) {
        fpu.lemma_none_of(num(F0_0875), k);
        fpu.lemma_nothing_added(num(ONE), m);
    }
}

/// A ladder at rest stays silent.
pub proof fn lemma_silence_stays<A: Fn(Op, Plain, Plain) -> Plain>(
    fpu: &Fpu<A>,
    l: LadderKernel,
    x: Plain,
)
    requires
        fpu.rounds(),
        l.g.is_finite() && l.k.is_finite() && l.drive.is_finite() && l.scale.is_finite(),
        l.s0.is_zero() && l.s1.is_zero() && l.s2.is_zero() && l.s3.is_zero(),
        l.y4_prev.is_zero(),
        x.is_zero(),
    ensures
        l.ticked(fpu, x).1.is_zero(),
        l.ticked(fpu, x).0.y4_prev.is_zero(),
{
    fpu.lemma_none_of(l.drive, x);
    let d = fpu.mul(l.drive, x);
    fpu.lemma_none_of(l.scale, d);
    fpu.lemma_none_of(l.k, l.y4_prev);
    let fed = fpu.sub(fpu.mul(d, l.scale), fpu.mul(l.k, l.y4_prev));
    fpu.lemma_nothing_added(fpu.mul(d, l.scale), fpu.mul(l.k, l.y4_prev));
    math::lemma_tanh_keeps_sign(fpu, fed);
    let u = fast_tanh(fpu, fed);
    tpt::lemma_silent_pole(fpu, u, l.s0, l.g);
    let y0 = one_pole(fpu, u, l.s0, l.g).1;
    tpt::lemma_silent_pole(fpu, y0, l.s1, l.g);
    let y1 = one_pole(fpu, y0, l.s1, l.g).1;
    tpt::lemma_silent_pole(fpu, y1, l.s2, l.g);
    let y2 = one_pole(fpu, y1, l.s2, l.g).1;
    tpt::lemma_silent_pole(fpu, y2, l.s3, l.g);
}

/// Without feedback the ladder does not hear its own output.
pub proof fn lemma_no_feedback_no_loop<A: Fn(Op, Plain, Plain) -> Plain>(
    fpu: &Fpu<A>,
    l: LadderKernel,
    y4: Plain,
    x: Plain,
)
    requires
        fpu.rounds(),
        l.k.is_zero(),
        l.y4_prev.is_finite() && y4.is_finite(),
        fpu.mul(fpu.mul(l.drive, x), l.scale).is_normal(),
    ensures
        l.ticked(fpu, x) == (LadderKernel { y4_prev: y4, ..l }).ticked(fpu, x),
{
    let d = fpu.mul(fpu.mul(l.drive, x), l.scale);
    fpu.lemma_none_of(l.y4_prev, l.k);
    fpu.lemma_none_of(y4, l.k);
    fpu.lemma_nothing_added(d, fpu.mul(l.k, l.y4_prev));
    fpu.lemma_nothing_added(d, fpu.mul(l.k, y4));
    assert(fpu.sub(d, fpu.mul(l.k, l.y4_prev)) == d);
    assert(fpu.sub(d, fpu.mul(l.k, y4)) == d);
}

/// What a ladder hears of a sample and of its own output: the more drive the more of the
/// sample, and the more feedback the less of an output of the same sign, so long as the
/// saturation keeps the order of the two levels that come of it.
pub proof fn lemma_ladder_hears_drive_and_feedback<A: Fn(Op, Plain, Plain) -> Plain>(
    fpu: &Fpu<A>,
    weak: LadderKernel,
    strong: LadderKernel,
    x: Plain,
)
    requires
        fpu.rounds(),
        strong == (LadderKernel { drive: strong.drive, k: strong.k, ..weak }),
        x.is_finite() && weak.s0.is_finite() && weak.y4_prev.is_finite(),
        -16 * plain::unit() <= weak.s0.scaled() <= 16 * plain::unit(),
        weak.drive.is_finite() && strong.drive.is_finite(),
        weak.k.is_finite() && strong.k.is_finite(),
        weak.scale.is_finite() && weak.scale.scaled() >= 0,
        weak.g.is_finite() && 0 <= weak.g.scaled() <= plain::unit(),
        x.scaled() >= 0 && weak.y4_prev.scaled() >= 0,
        weak.drive.at_most(strong.drive) && strong.k.at_most(weak.k),
        fpu.mul(weak.drive, x).is_finite() && fpu.mul(strong.drive, x).is_finite(),
        ({
            let (c, d) = (
                fpu.mul(fpu.mul(weak.drive, x), weak.scale),
                fpu.mul(fpu.mul(strong.drive, x), weak.scale),
            );
            let (e, f) = (fpu.mul(weak.k, weak.y4_prev), fpu.mul(strong.k, weak.y4_prev));
            let (a, b) = (fpu.sub(c, e), fpu.sub(d, f));
            &&& c.is_finite() && d.is_finite() && e.is_finite() && f.is_finite()
            &&& a.is_finite() && b.is_finite()
            &&& a.at_most(b) ==> fast_tanh(fpu, a).at_most(fast_tanh(fpu, b))
        }),
    ensures
        weak.ticked(fpu, x).0.s0.at_most(strong.ticked(fpu, x).0.s0),
{
    plain::lemma_small_values();
    vstd::arithmetic::power2::lemma2_to64();
    plain::lemma_power_scaled(152);
    plain::lemma_power_scaled(153);
    plain::lemma_power_scaled(154);
    let (p25, p26, p27) = (num(0x4c00_0000), num(0x4c80_0000), num(0x4d00_0000));
    let u = plain::unit();
    assert(p25.scaled() == 0x200_0000 * u && p26.scaled() == 2 * p25.scaled() && p27.scaled() == 2
        * p26.scaled()) by (nonlinear_arith)
        requires
            p25.scaled() == vstd::arithmetic::power2::pow2(25) * u,
            p26.scaled() == vstd::arithmetic::power2::pow2(26) * u,
            p27.scaled() == vstd::arithmetic::power2::pow2(27) * u,
            vstd::arithmetic::power2::pow2(25) == 0x200_0000,
            vstd::arithmetic::power2::pow2(26) == 0x400_0000,
            vstd::arithmetic::power2::pow2(27) == 0x800_0000,
    ;
    let (iw, is) = (fpu.mul(weak.drive, x), fpu.mul(strong.drive, x));
    fpu.lemma_scaling_rises(weak.drive, strong.drive, x);
    fpu.lemma_scaling_rises(iw, is, weak.scale);
    let (dw, ds) = (fpu.mul(iw, weak.scale), fpu.mul(is, weak.scale));
    let (kw, ks) = (fpu.mul(weak.k, weak.y4_prev), fpu.mul(strong.k, weak.y4_prev));
    fpu.lemma_scaling_rises(strong.k, weak.k, weak.y4_prev);
    plain::lemma_equal_scaled(dw, ds);
    plain::lemma_equal_scaled(ks, kw);
    fpu.lemma_sub_order(dw, kw, ds, ks);
    let (a, b) = (fpu.sub(dw, kw), fpu.sub(ds, ks));
    math::lemma_tanh_bounds(fpu, a);
    math::lemma_tanh_bounds(fpu, b);
    let (ta, tb) = (fast_tanh(fpu, a), fast_tanh(fpu, b));
    plain::lemma_equal_scaled(ta, tb);
    let s = weak.s0;
    let (ea, eb) = (fpu.sub(ta, s), fpu.sub(tb, s));
    fpu.lemma_add_within(ta, s, 0x100_0000 * u, 16 * u, p25);
    fpu.lemma_add_within(tb, s, 0x100_0000 * u, 16 * u, p25);
    fpu.lemma_sub_order(ta, s, tb, s);
    plain::lemma_equal_scaled(ea, eb);
    let (va, vb) = (fpu.mul(ea, weak.g), fpu.mul(eb, weak.g));
    fpu.lemma_mul_within(ea, weak.g, p25.scaled(), u, p25);
    fpu.lemma_mul_within(eb, weak.g, p25.scaled(), u, p25);
    fpu.lemma_scaling_rises(ea, eb, weak.g);
    plain::lemma_equal_scaled(va, vb);
    let (ya, yb) = (fpu.add(va, s), fpu.add(vb, s));
    fpu.lemma_add_within(va, s, p25.scaled(), 16 * u, p26);
    fpu.lemma_add_within(vb, s, p25.scaled(), 16 * u, p26);
    fpu.lemma_add_order(va, s, vb, s);
    plain::lemma_equal_scaled(ya, yb);
    fpu.lemma_add_within(ya, va, p26.scaled(), p25.scaled(), p27);
    fpu.lemma_add_within(yb, vb, p26.scaled(), p25.scaled(), p27);
    fpu.lemma_add_order(ya, va, yb, vb);
}

/// A stage that is shut holds and puts out its state.
proof fn lemma_shut_pole<A: Fn(Op, Plain, Plain) -> Plain>(
    fpu: &Fpu<A>,
    input: Plain,
    state: Plain,
    g: Plain,
)
    requires
        fpu.rounds(),
        fpu.sub(input, state).is_finite(),
        state.is_number(),
        g.is_zero(),
    ensures
        one_pole(fpu, input, state, g).0.equals(state),
        one_pole(fpu, input, state, g).1.equals(state),
{
    let v = fpu.mul(fpu.sub(input, state), g);
    fpu.lemma_none_of(fpu.sub(input, state), g);
    fpu.lemma_nothing_added(state, v);
    let y = fpu.add(v, state);
    plain::lemma_equal_scaled(y, state);
    plain::lemma_zero_scaled(v);
    fpu.lemma_add_side(y, v, state);
}

/// The ladder is heard at its fourth stage: with every stage shut, what comes out and is fed
/// back is what the fourth one holds.
pub proof fn lemma_fourth_stage_is_heard<A: Fn(Op, Plain, Plain) -> Plain>(
    fpu: &Fpu<A>,
    l: LadderKernel,
    x: Plain,
)
    requires
        fpu.rounds(),
        l.g.is_zero(),
        l.s0.is_number() && l.s1.is_number() && l.s2.is_number() && l.s3.is_number(),
        -plain::unit() <= l.s0.scaled() <= plain::unit(),
        -plain::unit() <= l.s1.scaled() <= plain::unit(),
        -plain::unit() <= l.s2.scaled() <= plain::unit(),
        -plain::unit() <= l.s3.scaled() <= plain::unit(),
        fpu.sub(
            fpu.mul(fpu.mul(l.drive, x), l.scale),
            fpu.mul(l.k, l.y4_prev),
        ).is_finite(),
    ensures
        l.ticked(fpu, x).1.equals(l.s3),
        l.ticked(fpu, x).0.y4_prev.equals(l.s3),
        l.ticked(fpu, x).0.s0.equals(l.s0),
        l.ticked(fpu, x).0.s3.equals(l.s3),
{
    plain::lemma_small_values();
    vstd::arithmetic::power2::lemma2_to64();
    plain::lemma_power_scaled(152);
    let p25 = num(0x4c00_0000);
    let u = plain::unit();
    assert(p25.scaled() == 0x200_0000 * u && 0x100_0000 * u + u <= p25.scaled())
        by (nonlinear_arith)
        requires
            p25.scaled() == vstd::arithmetic::power2::pow2(25) * u,
            vstd::arithmetic::power2::pow2(25) == 0x200_0000,
            u > 0,
    ;
    let fed = fpu.sub(fpu.mul(fpu.mul(l.drive, x), l.scale), fpu.mul(l.k, l.y4_prev));
    math::lemma_tanh_bounds(fpu, fed);
    let v = fast_tanh(fpu, fed);
    fpu.lemma_add_within(v, l.s0, 0x100_0000 * u, u, p25);
    lemma_shut_pole(fpu, v, l.s0, l.g);
    let y0 = one_pole(fpu, v, l.s0, l.g).1;
    plain::lemma_equal_scaled(y0, l.s0);
    fpu.lemma_add_within(y0, l.s1, u, u, num(TWO));
    lemma_shut_pole(fpu, y0, l.s1, l.g);
    let y1 = one_pole(fpu, y0, l.s1, l.g).1;
    plain::lemma_equal_scaled(y1, l.s1);
    fpu.lemma_add_within(y1, l.s2, u, u, num(TWO));
    lemma_shut_pole(fpu, y1, l.s2, l.g);
    let y2 = one_pole(fpu, y1, l.s2, l.g).1;
    plain::lemma_equal_scaled(y2, l.s2);
    fpu.lemma_add_within(y2, l.s3, u, u, num(TWO));
    lemma_shut_pole(fpu, y2, l.s3, l.g);
}

} // verus!
