//! Stereo chorus: a modulated delay line per channel with quadrature modulation.
use crate::delay::{self, dry_wet, DelayLine, Ring};
use crate::fpu::{Fpu, Op};
use crate::math::{self, lookup_sine, SineTable};
use crate::nums::{F0_001, F0_01, F0_25, F12, F25, F5, HALF, ONE, ZERO};
use crate::oscillator::fract;
use crate::plain::{self, num, Plain};
use vstd::arithmetic::power2;
use vstd::prelude::*;

verus! {

broadcast use crate::plain::group_by_rank;

/// The state of a [`StereoChorus`].
#[verifier::ext_equal]
pub struct StereoChorusState {
    pub left: Ring,
    pub right: Ring,
    pub lfo_phase: Plain,
}

/// The parameters of a [`StereoChorus`].
#[derive(Clone, Copy, Debug, PartialEq, Eq, Structural)]
pub struct ChorusParams {
    pub sample_rate: Plain,
    pub lfo_inc: Plain,
    /// Modulation excursion in `[0, 1]`.
    pub depth: Plain,
    pub center_ms: Plain,
    pub mix: Plain,
}

impl ChorusParams {
    /// The parameters of a new chorus.
    pub open spec fn initial<A: Fn(Op, Plain, Plain) -> Plain>(
        fpu: &Fpu<A>,
        sample_rate: Plain,
    ) -> Self {
        ChorusParams {
            sample_rate,
            lfo_inc: fpu.div(num(HALF), sample_rate),
            depth: num(HALF),
            center_ms: fpu.mul(fpu.add(num(F5), num(F25)), num(HALF)),
            mix: num(HALF),
        }
    }
}

impl StereoChorusState {
    pub open spec fn wf(self) -> bool {
        &&& self.left.wf() && self.left.cells.len() >= 4
        &&& self.right.wf() && self.right.cells.len() >= 4
    }

    /// One stereo sample on. The taps are modulated a quarter cycle apart.
    #[verifier::opaque]
    pub open spec fn processed<A: Fn(Op, Plain, Plain) -> Plain>(
        self,
        fpu: &Fpu<A>,
        p: ChorusParams,
        in_l: Plain,
        in_r: Plain,
    ) -> (Self, (Plain, Plain)) {
        let lfo_phase = lfo_advanced(fpu, self.lfo_phase, p.lfo_inc);
        let left = self.left.written(in_l);
        let right = self.right.written(in_r);
        let swing_l = math::sine_at(fpu, lfo_phase);
        let swing_r = math::sine_at(fpu, fract(fpu, fpu.add(lfo_phase, num(F0_25))));
        let wet_l = left.reading(fpu, chorus_delay(fpu, p, swing_l));
        let wet_r = right.reading(fpu, chorus_delay(fpu, p, swing_r));
        (
            StereoChorusState { left, right, lfo_phase },
            (dry_wet(fpu, in_l, wet_l, p.mix), dry_wet(fpu, in_r, wet_r, p.mix)),
        )
    }
}

pub open spec fn spec_lfo_advanced<A: Fn(Op, Plain, Plain) -> Plain>(
    fpu: &Fpu<A>,
    phase: Plain,
    inc: Plain,
) -> Plain {
    let next = fpu.add(phase, inc);
    if num(ONE).at_most(next) {
        fpu.sub(next, num(ONE))
    } else {
        next
    }
}

/// A phase one sample on, wrapped at one.
#[verifier::when_used_as_spec(spec_lfo_advanced)]
pub fn lfo_advanced<A: Fn(Op, Plain, Plain) -> Plain>(
    fpu: &Fpu<A>,
    phase: Plain,
    inc: Plain,
) -> (r: Plain)
    requires
        fpu.valid(),
    ensures
        r == lfo_advanced(fpu, phase, inc),
{
    let next = fpu.add(phase, inc);
    if num(ONE).at_most(next) {
        fpu.sub(next, num(ONE))
    } else {
        next
    }
}

pub open spec fn spec_chorus_delay<A: Fn(Op, Plain, Plain) -> Plain>(
    fpu: &Fpu<A>,
    p: ChorusParams,
    swing: Plain,
) -> Plain {
    let excursion_ms = fpu.mul(fpu.mul(p.depth, fpu.sub(num(F25), num(F5))), num(HALF));
    fpu.mul(fpu.add(p.center_ms, fpu.mul(swing, excursion_ms)), fpu.mul(p.sample_rate, num(F0_001)))
}

/// The delay of a tap in samples, for a swing in `[-1, 1]`.
#[verifier::when_used_as_spec(spec_chorus_delay)]
pub fn chorus_delay<A: Fn(Op, Plain, Plain) -> Plain>(
    fpu: &Fpu<A>,
    p: ChorusParams,
    swing: Plain,
) -> (r: Plain)
    requires
        fpu.valid(),
    ensures
        r == chorus_delay(fpu, p, swing),
{
    let excursion_ms = fpu.mul(fpu.mul(p.depth, fpu.sub(num(F25), num(F5))), num(HALF));
    fpu.mul(fpu.add(p.center_ms, fpu.mul(swing, excursion_ms)), fpu.mul(p.sample_rate, num(F0_001)))
}

/// Stereo chorus: a modulated delay line per channel, in quadrature.
pub struct StereoChorus {
    pub left: DelayLine,
    pub right: DelayLine,
    pub lfo_phase: Plain,
    pub params: ChorusParams,
}

impl View for StereoChorus {
    type V = StereoChorusState;

    open spec fn view(&self) -> StereoChorusState {
        StereoChorusState { left: self.left@, right: self.right@, lfo_phase: self.lfo_phase }
    }
}

pub open spec fn spec_chorus_samples<A: Fn(Op, Plain, Plain) -> Plain>(
    fpu: &Fpu<A>,
    sample_rate: Plain,
) -> usize {
    fpu.mul(fpu.mul(sample_rate, fpu.add(num(F25), num(F5))), num(F0_001)).to_index()
}

/// Samples of the longest tap, with some to spare.
#[verifier::when_used_as_spec(spec_chorus_samples)]
pub fn chorus_samples<A: Fn(Op, Plain, Plain) -> Plain>(
    fpu: &Fpu<A>,
    sample_rate: Plain,
) -> (r: usize)
    requires
        fpu.valid(),
    ensures
        r == chorus_samples(fpu, sample_rate),
{
    fpu.mul(fpu.mul(sample_rate, fpu.add(num(F25), num(F5))), num(F0_001)).to_index()
}

impl StereoChorus {
    pub fn new<A: Fn(Op, Plain, Plain) -> Plain>(fpu: &Fpu<A>, sample_rate: Plain) -> (r: Self)
        requires
            fpu.valid(),
            chorus_samples(fpu, sample_rate) <= usize::MAX / 2 - 5,
        ensures
            r@.wf(),
            delay::is_capacity(
                r@.left.cells.len() as int,
                chorus_samples(fpu, sample_rate) + 6,
            ),
            delay::is_capacity(
                r@.right.cells.len() as int,
                chorus_samples(fpu, sample_rate) + 6,
            ),
            r@ == (StereoChorusState {
                left: Ring::silent(r@.left.cells.len()),
                right: Ring::silent(r@.right.cells.len()),
                lfo_phase: num(ZERO),
            }),
            r.params == ChorusParams::initial(fpu, sample_rate),
    {
        let max: usize = chorus_samples(fpu, sample_rate) + 4;
        StereoChorus {
            left: DelayLine::new(max),
            right: DelayLine::new(max),
            lfo_phase: num(ZERO),
            params: ChorusParams {
                sample_rate,
                lfo_inc: fpu.div(num(HALF), sample_rate),
                depth: num(HALF),
                center_ms: fpu.mul(fpu.add(num(F5), num(F25)), num(HALF)),
                mix: num(HALF),
            },
        }
    }

    pub fn clear(&mut self)
        ensures
            final(self)@ == (StereoChorusState {
                left: Ring::silent(old(self)@.left.cells.len()),
                right: Ring::silent(old(self)@.right.cells.len()),
                lfo_phase: num(ZERO),
            }),
            final(self).params == old(self).params,
            old(self)@.wf() ==> final(self)@.wf(),
    {
        self.left.clear();
        self.right.clear();
        self.lfo_phase = num(ZERO);
    }

    /// Set parameters for the next control block.
    pub fn set_params<A: Fn(Op, Plain, Plain) -> Plain>(
        &mut self,
        fpu: &Fpu<A>,
        rate_hz: Plain,
        depth: Plain,
        mix: Plain,
    )
        requires
            fpu.valid(),
        ensures
            final(self)@ == old(self)@,
            final(self).params == (ChorusParams {
                lfo_inc: fpu.div(rate_hz.clamp(num(F0_01), num(F12)), old(self).params.sample_rate),
                depth: depth.clamp(num(ZERO), num(ONE)),
                mix: mix.clamp(num(ZERO), num(ONE)),
                ..old(self).params
            }),
    {
        self.params.lfo_inc = fpu.div(rate_hz.clamp(num(F0_01), num(F12)), self.params.sample_rate);
        self.params.depth = depth.clamp(num(ZERO), num(ONE));
        self.params.mix = mix.clamp(num(ZERO), num(ONE));
    }

    /// Process one stereo sample.
    pub fn process<A: Fn(Op, Plain, Plain) -> Plain>(
        &mut self,
        fpu: &Fpu<A>,
        table: &SineTable,
        in_l: Plain,
        in_r: Plain,
    ) -> (r: (Plain, Plain))
        requires
            fpu.valid(),
            table.tabulates(fpu),
            old(self)@.wf(),
        ensures
            (final(self)@, r) == old(self)@.processed(fpu, old(self).params, in_l, in_r),
            final(self)@.wf(),
            final(self).params == old(self).params,
    {
        reveal(StereoChorusState::processed);
        let p = self.params;
        self.lfo_phase = lfo_advanced(fpu, self.lfo_phase, p.lfo_inc);
        let swing_l = lookup_sine(fpu, table, self.lfo_phase);
        let swing_r = lookup_sine(fpu, table, fract(fpu, fpu.add(self.lfo_phase, num(F0_25))));
        self.left.write(in_l);
        self.right.write(in_r);
        let wet_l = self.left.read(fpu, chorus_delay(fpu, p, swing_l));
        let wet_r = self.right.read(fpu, chorus_delay(fpu, p, swing_r));
        (dry_wet(fpu, in_l, wet_l, p.mix), dry_wet(fpu, in_r, wet_r, p.mix))
    }
}

/// A phase moves on by its increment, less a whole cycle at the end of one.
pub proof fn lemma_lfo_moves_on<A: Fn(Op, Plain, Plain) -> Plain>(
    fpu: &Fpu<A>,
    phase: Plain,
    inc: Plain,
    r: Plain,
    w: Plain,
)
    requires
        fpu.rounds(),
        phase.is_finite() && inc.is_finite(),
        r.is_number() && w.is_number(),
        r.scaled() == phase.scaled() + inc.scaled(),
        w.scaled() == r.scaled() || w.scaled() == r.scaled() - plain::unit(),
        0 <= w.scaled() < plain::unit(),
        0 <= r.scaled(),
    ensures
        lfo_advanced(fpu, phase, inc).equals(w),
{
    plain::lemma_small_values();
    let next = fpu.add(phase, inc);
    fpu.lemma_add_side(phase, inc, r);
    plain::lemma_equal_scaled(next, r);
    plain::lemma_equal_scaled(num(ONE), next);
    plain::lemma_equal_scaled(r, w);
    fpu.lemma_sub_side(next, num(ONE), w);
}

/// Without depth a tap stands at its centre, wherever the swing is.
pub proof fn lemma_no_depth_no_swing<A: Fn(Op, Plain, Plain) -> Plain>(
    fpu: &Fpu<A>,
    p: ChorusParams,
    swing: Plain,
)
    requires
        fpu.rounds(),
        p.depth.is_zero(),
        p.center_ms.is_normal(),
        swing.is_finite(),
    ensures
        chorus_delay(fpu, p, swing) == fpu.mul(p.center_ms, fpu.mul(p.sample_rate, num(F0_001))),
{
    plain::lemma_small_values();
    lemma_range(fpu);
    let range = fpu.sub(num(F25), num(F5));
    fpu.lemma_none_of(range, p.depth);
    fpu.lemma_none_of(num(HALF), fpu.mul(p.depth, range));
    let e = fpu.mul(fpu.mul(p.depth, range), num(HALF));
    fpu.lemma_none_of(swing, e);
    fpu.lemma_nothing_added(p.center_ms, fpu.mul(swing, e));
    assert(fpu.add(p.center_ms, fpu.mul(swing, e)) == p.center_ms);
}

/// The range that the taps can swing over, in milliseconds.
proof fn lemma_range<A: Fn(Op, Plain, Plain) -> Plain>(fpu: &Fpu<A>)
    requires
        fpu.rounds(),
    ensures
        fpu.sub(num(F25), num(F5)) == num(0x41a0_0000),
        num(0x41a0_0000).scaled() == 20 * plain::unit(),
        num(0x4120_0000).scaled() == 10 * plain::unit(),
{
    plain::lemma_small_values();
    power2::lemma2_to64();
    plain::lemma_whole_value(F25, 25, 19);
    plain::lemma_whole_value(0x41a0_0000, 20, 19);
    plain::lemma_whole_value(0x4120_0000, 10, 20);
    fpu.lemma_sub_side(num(F25), num(F5), num(0x41a0_0000));
}

/// The excursion of a tap is ten milliseconds at full depth.
proof fn lemma_excursion<A: Fn(Op, Plain, Plain) -> Plain>(fpu: &Fpu<A>, depth: Plain)
    requires
        fpu.rounds(),
        depth.is_finite() && 0 <= depth.scaled() <= plain::unit(),
    ensures
        ({
            let e = fpu.mul(fpu.mul(depth, fpu.sub(num(F25), num(F5))), num(HALF));
            &&& e.is_finite() && 0 <= e.scaled() <= 10 * plain::unit()
            &&& depth == num(ONE) ==> e == num(0x4120_0000)
        }),
{
    plain::lemma_small_values();
    lemma_range(fpu);
    let (u, d) = (plain::unit(), depth.scaled());
    let (twenty, ten) = (num(0x41a0_0000), num(0x4120_0000));
    let a = fpu.mul(depth, twenty);
    assert(0 * u <= d * (20 * u) && d * (20 * u) <= (20 * u) * u) by (nonlinear_arith)
        requires
            0 <= d <= u,
    ;
    fpu.lemma_mul_side(depth, twenty, num(ZERO));
    fpu.lemma_mul_side(depth, twenty, twenty);
    plain::lemma_between_finite(num(ZERO), a, twenty);
    let (s, h) = (a.scaled(), num(HALF).scaled());
    assert(0 * u <= s * h && s * h <= (10 * u) * u) by (nonlinear_arith)
        requires
            0 <= s <= 20 * u,
            2 * h == u,
            u > 0,
    ;
    fpu.lemma_mul_side(a, num(HALF), num(ZERO));
    fpu.lemma_mul_side(a, num(HALF), ten);
    plain::lemma_between_finite(num(ZERO), fpu.mul(a, num(HALF)), ten);
    if depth == num(ONE) {
        fpu.lemma_all_of(twenty);
        assert(a == twenty);
        assert((20 * u) * h == (10 * u) * u) by (nonlinear_arith)
            requires
                2 * h == u,
        ;
        fpu.lemma_mul_side(a, num(HALF), ten);
    }
}

/// A tap is the later the further the swing is, and at full depth a full swing moves it by ten
/// milliseconds.
pub proof fn lemma_swing_delays<A: Fn(Op, Plain, Plain) -> Plain>(
    fpu: &Fpu<A>,
    p: ChorusParams,
    low: Plain,
    high: Plain,
    far: Plain,
)
    requires
        fpu.rounds(),
        p.depth.is_finite() && 0 <= p.depth.scaled() <= plain::unit(),
        p.center_ms.is_finite() && 0 <= p.center_ms.scaled() <= 100 * plain::unit(),
        low.is_finite() && high.is_finite() && low.at_most(high),
        -plain::unit() <= low.scaled() && high.scaled() <= plain::unit(),
        fpu.mul(p.sample_rate, num(F0_001)).is_finite(),
        fpu.mul(p.sample_rate, num(F0_001)).scaled() >= 0,
        far.is_number() && far.scaled() == p.center_ms.scaled() + 10 * plain::unit(),
    ensures
        chorus_delay(fpu, p, low).at_most(chorus_delay(fpu, p, high)),
        p.depth == num(ONE) && high == num(ONE) ==> chorus_delay(fpu, p, high) == fpu.mul(
            far,
            fpu.mul(p.sample_rate, num(F0_001)),
        ),
{
    plain::lemma_small_values();
    lemma_excursion(fpu, p.depth);
    lemma_range(fpu);
    power2::lemma2_to64();
    plain::lemma_whole_value(0x4300_0000, 128, 16);
    let u = plain::unit();
    let e = fpu.mul(fpu.mul(p.depth, fpu.sub(num(F25), num(F5))), num(HALF));
    let (a, b) = (fpu.mul(low, e), fpu.mul(high, e));
    assert(u * (10 * u) == (10 * u) * u) by (nonlinear_arith);
    fpu.lemma_mul_within(low, e, u, 10 * u, num(0x4120_0000));
    fpu.lemma_mul_within(high, e, u, 10 * u, num(0x4120_0000));
    fpu.lemma_scaling_rises(low, high, e);
    plain::lemma_equal_scaled(a, b);
    let (x, y) = (fpu.add(p.center_ms, a), fpu.add(p.center_ms, b));
    fpu.lemma_add_within(p.center_ms, a, 100 * u, 10 * u, num(0x4300_0000));
    fpu.lemma_add_within(p.center_ms, b, 100 * u, 10 * u, num(0x4300_0000));
    fpu.lemma_add_order(p.center_ms, a, p.center_ms, b);
    plain::lemma_equal_scaled(x, y);
    fpu.lemma_scaling_rises(x, y, fpu.mul(p.sample_rate, num(F0_001)));
    if p.depth == num(ONE) && high == num(ONE) {
        fpu.lemma_all_of(num(0x4120_0000));
        assert(b == num(0x4120_0000));
        fpu.lemma_add_side(p.center_ms, b, far);
        plain::lemma_scaled_sign(far);
        assert(y == far);
    }
}

/// A chorus that is mixed out is not heard; one that is mixed in alone is heard as each side's
/// own line, which has just taken that side's input, at its own tap.
pub proof fn lemma_chorus_mix_ends<A: Fn(Op, Plain, Plain) -> Plain>(
    fpu: &Fpu<A>,
    s: StereoChorusState,
    p: ChorusParams,
    in_l: Plain,
    in_r: Plain,
)
    requires
        fpu.rounds(),
        s.wf(),
        in_l.is_number() && in_r.is_number(),
        ({
            let next = s.processed(fpu, p, in_l, in_r).0;
            let there = fract(fpu, fpu.add(next.lfo_phase, num(F0_25)));
            let (a, b) = (math::sine_at(fpu, next.lfo_phase), math::sine_at(fpu, there));
            &&& next.left.reading(fpu, chorus_delay(fpu, p, a)).is_number()
            &&& next.right.reading(fpu, chorus_delay(fpu, p, b)).is_number()
        }),
    ensures
        ({
            let (next, out) = s.processed(fpu, p, in_l, in_r);
            let there = fract(fpu, fpu.add(next.lfo_phase, num(F0_25)));
            let (a, b) = (math::sine_at(fpu, next.lfo_phase), math::sine_at(fpu, there));
            &&& next.left.history(0) == in_l && next.right.history(0) == in_r
            &&& p.mix.is_zero() ==> out.0.equals(in_l) && out.1.equals(in_r)
            &&& p.mix == num(ONE) ==> {
                &&& out.0.equals(next.left.reading(fpu, chorus_delay(fpu, p, a)))
                &&& out.1.equals(next.right.reading(fpu, chorus_delay(fpu, p, b)))
            }
        }),
{
    reveal(StereoChorusState::processed);
    s.left.lemma_last_write(in_l);
    s.right.lemma_last_write(in_r);
    let next = s.processed(fpu, p, in_l, in_r).0;
    let there = fract(fpu, fpu.add(next.lfo_phase, num(F0_25)));
    let (a, b) = (math::sine_at(fpu, next.lfo_phase), math::sine_at(fpu, there));
    delay::lemma_mix_ends(fpu, in_l, next.left.reading(fpu, chorus_delay(fpu, p, a)), p.mix);
    delay::lemma_mix_ends(fpu, in_r, next.right.reading(fpu, chorus_delay(fpu, p, b)), p.mix);
}

/// The sides are a quarter of a cycle apart: what the right side puts out is what the left side
/// would with the same line and input, where its modulation stands a quarter of a cycle on.
pub proof fn lemma_sides_in_quadrature<A: Fn(Op, Plain, Plain) -> Plain>(
    fpu: &Fpu<A>,
    s: StereoChorusState,
    t: StereoChorusState,
    p: ChorusParams,
    x: Plain,
)
    requires
        fpu.rounds(),
        s.right == t.left,
        ({
            let here = lfo_advanced(fpu, s.lfo_phase, p.lfo_inc);
            let there = lfo_advanced(fpu, t.lfo_phase, p.lfo_inc);
            &&& here.is_finite() && 0 <= here.scaled()
            &&& there.is_normal() && there.scaled() < plain::unit()
            &&& 4 * there.scaled() == 4 * here.scaled() + plain::unit()
        }),
    ensures
        forall|l: Plain, r: Plain|
            #![trigger s.processed(fpu, p, l, x), t.processed(fpu, p, x, r)]
            s.processed(fpu, p, l, x).1.1 == t.processed(fpu, p, x, r).1.0,
{
    reveal(StereoChorusState::processed);
    plain::lemma_small_values();
    let here = lfo_advanced(fpu, s.lfo_phase, p.lfo_inc);
    let there = lfo_advanced(fpu, t.lfo_phase, p.lfo_inc);
    let on = fpu.add(here, num(F0_25));
    fpu.lemma_add_side(here, num(F0_25), there);
    plain::lemma_scaled_sign(there);
    assert(on == there);
    plain::lemma_equal_scaled(there, num(ONE));
    plain::lemma_fraction_floor(there);
    fpu.lemma_nothing_added(there, num(ZERO));
    assert(fract(fpu, there) == there);
}

} // verus!
