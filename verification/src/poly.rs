//! Kernels for a whole layer: oscillators, ring modulator, sub-oscillator, noise and
//! ladder filter, one lane per voice.
use crate::CHANNELS_PER_LAYER;
use crate::fpu::{self, Fpu, Op};
use crate::lanes::{splat, Lanes};
use crate::math::{self, fast_sine};
use crate::noise::{BrownFilter, NoiseColor, NoiseSource, PinkFilter};
use crate::nums::{
    F0_000000000001, F0_0061, F0_0451, F0_25, F0_9589, F10395, F1260, F21, F210, F2_5, F4725, F6, F8, FOUR,
    HALF, MINUS_F0_0025, MINUS_F0_3043, MINUS_F0_3828, MINUS_F2_5, MINUS_ONE, MIN_POSITIVE, ONE,
    TWO, ZERO,
};
use crate::oscillator::Waveform;
use crate::ota_ladder::{OtaLadderCoeffs, OtaPoles};
use crate::plain::{self, num, Plain};
use vstd::arithmetic::power2;
use vstd::prelude::*;

verus! {

broadcast use crate::plain::group_by_rank;

pub open spec fn spec_mask(on: bool) -> Plain {
    if on {
        num(ONE)
    } else {
        num(ZERO)
    }
}

/// One or zero.
#[verifier::when_used_as_spec(spec_mask)]
pub fn mask(on: bool) -> (r: Plain)
    ensures
        r == mask(on),
{
    if on {
        num(ONE)
    } else {
        num(ZERO)
    }
}

pub open spec fn spec_blep_rise<A: Fn(Op, Plain, Plain) -> Plain>(
    fpu: &Fpu<A>,
    t: Plain,
    d: Plain,
) -> Plain {
    let a = fpu.div(t, d);
    let rise = fpu.sub(fpu.sub(fpu.mul(num(TWO), a), fpu.mul(a, a)), num(ONE));
    fpu.mul(rise, mask(t.less(d)))
}

/// The rising half of the PolyBLEP residual.
#[verifier::when_used_as_spec(spec_blep_rise)]
pub fn blep_rise<A: Fn(Op, Plain, Plain) -> Plain>(fpu: &Fpu<A>, t: Plain, d: Plain) -> (r: Plain)
    requires
        fpu.valid(),
    ensures
        r == blep_rise(fpu, t, d),
{
    let a = fpu.div(t, d);
    let rise = fpu.sub(fpu.sub(fpu.mul(num(TWO), a), fpu.mul(a, a)), num(ONE));
    fpu.mul(rise, mask(t.less(d)))
}

pub open spec fn spec_blep_fall<A: Fn(Op, Plain, Plain) -> Plain>(
    fpu: &Fpu<A>,
    t: Plain,
    d: Plain,
) -> Plain {
    let b = fpu.div(fpu.sub(t, num(ONE)), d);
    let fall = fpu.add(fpu.add(fpu.mul(b, b), fpu.mul(num(TWO), b)), num(ONE));
    fpu.mul(fall, mask(fpu.sub(num(ONE), d).less(t)))
}

/// The falling half of the PolyBLEP residual.
#[verifier::when_used_as_spec(spec_blep_fall)]
pub fn blep_fall<A: Fn(Op, Plain, Plain) -> Plain>(fpu: &Fpu<A>, t: Plain, d: Plain) -> (r: Plain)
    requires
        fpu.valid(),
    ensures
        r == blep_fall(fpu, t, d),
{
    let b = fpu.div(fpu.sub(t, num(ONE)), d);
    let fall = fpu.add(fpu.add(fpu.mul(b, b), fpu.mul(num(TWO), b)), num(ONE));
    fpu.mul(fall, mask(fpu.sub(num(ONE), d).less(t)))
}

pub open spec fn spec_pblep<A: Fn(Op, Plain, Plain) -> Plain>(
    fpu: &Fpu<A>,
    t: Plain,
    dt: Plain,
) -> Plain {
    let d = dt.max(num(F0_000000000001));
    fpu.add(blep_rise(fpu, t, d), blep_fall(fpu, t, d))
}

/// PolyBLEP with `dt` kept away from zero, so that a frozen voice cannot divide by
/// it.
#[verifier::when_used_as_spec(spec_pblep)]
pub fn pblep<A: Fn(Op, Plain, Plain) -> Plain>(fpu: &Fpu<A>, t: Plain, dt: Plain) -> (r: Plain)
    requires
        fpu.valid(),
    ensures
        r == pblep(fpu, t, dt),
{
    let d = dt.max(num(F0_000000000001));
    fpu.add(blep_rise(fpu, t, d), blep_fall(fpu, t, d))
}

pub open spec fn spec_tanh_c<A: Fn(Op, Plain, Plain) -> Plain>(fpu: &Fpu<A>, x: Plain) -> Plain {
    let c = x.clamp(num(MINUS_F2_5), num(F2_5));
    let x2 = fpu.mul(c, c);
    let x4 = fpu.mul(x2, x2);
    let x6 = fpu.mul(x4, x2);
    let upper = fpu.mul(
        c,
        fpu.add(fpu.add(num(F10395), fpu.mul(num(F1260), x2)), fpu.mul(num(F21), x4)),
    );
    let lower = fpu.add(
        fpu.add(fpu.add(num(F10395), fpu.mul(num(F4725), x2)), fpu.mul(num(F210), x4)),
        fpu.mul(num(FOUR), x6),
    );
    fpu.div(upper, lower)
}

/// The rational `tanh` approximation on the input clamped to ±2.5, where it peaks.
#[verifier::when_used_as_spec(spec_tanh_c)]
pub fn tanh_c<A: Fn(Op, Plain, Plain) -> Plain>(fpu: &Fpu<A>, x: Plain) -> (r: Plain)
    requires
        fpu.valid(),
    ensures
        r == tanh_c(fpu, x),
{
    let c = x.clamp(num(MINUS_F2_5), num(F2_5));
    let x2 = fpu.mul(c, c);
    let x4 = fpu.mul(x2, x2);
    let x6 = fpu.mul(x4, x2);
    let upper = fpu.mul(
        c,
        fpu.add(fpu.add(num(F10395), fpu.mul(num(F1260), x2)), fpu.mul(num(F21), x4)),
    );
    let lower = fpu.add(
        fpu.add(fpu.add(num(F10395), fpu.mul(num(F4725), x2)), fpu.mul(num(F210), x4)),
        fpu.mul(num(FOUR), x6),
    );
    fpu.div(upper, lower)
}

pub open spec fn spec_advance<A: Fn(Op, Plain, Plain) -> Plain>(
    fpu: &Fpu<A>,
    phase: Plain,
    inc: Plain,
) -> Plain {
    let np = fpu.add(phase, inc);
    fpu.sub(np, mask(num(ONE).at_most(np)))
}

/// A phase one sample on, wrapped from above.
#[verifier::when_used_as_spec(spec_advance)]
pub fn advance<A: Fn(Op, Plain, Plain) -> Plain>(
    fpu: &Fpu<A>,
    phase: Plain,
    inc: Plain,
) -> (r: Plain)
    requires
        fpu.valid(),
    ensures
        r == advance(fpu, phase, inc),
{
    let np = fpu.add(phase, inc);
    fpu.sub(np, mask(num(ONE).at_most(np)))
}

pub open spec fn spec_wrap_both<A: Fn(Op, Plain, Plain) -> Plain>(fpu: &Fpu<A>, x: Plain) -> Plain {
    fpu.sub(x, x.floor())
}

/// A phase wrapped from both sides.
#[verifier::when_used_as_spec(spec_wrap_both)]
pub fn wrap_both<A: Fn(Op, Plain, Plain) -> Plain>(fpu: &Fpu<A>, x: Plain) -> (r: Plain)
    requires
        fpu.valid(),
    ensures
        r == wrap_both(fpu, x),
{
    fpu.sub(x, x.floor())
}

pub open spec fn spec_naive_osc<A: Fn(Op, Plain, Plain) -> Plain>(
    fpu: &Fpu<A>,
    wave: Waveform,
    p: Plain,
    pw: Plain,
) -> Plain {
    match wave {
        Waveform::Sine => fast_sine(fpu, p),
        Waveform::Triangle => fpu.sub(num(ONE), fpu.mul(num(FOUR), fpu.sub(p, num(HALF)).abs())),
        Waveform::Saw => fpu.sub(fpu.mul(num(TWO), p), num(ONE)),
        Waveform::Pulse => fpu.sub(num(ONE), fpu.mul(num(TWO), mask(pw.at_most(p)))),
    }
}

/// The bare, discontinuous waveform.
#[verifier::when_used_as_spec(spec_naive_osc)]
pub fn naive_osc<A: Fn(Op, Plain, Plain) -> Plain>(
    fpu: &Fpu<A>,
    wave: Waveform,
    p: Plain,
    pw: Plain,
) -> (r: Plain)
    requires
        fpu.valid(),
    ensures
        r == naive_osc(fpu, wave, p, pw),
{
    match wave {
        Waveform::Sine => fast_sine(fpu, p),
        Waveform::Triangle => fpu.sub(num(ONE), fpu.mul(num(FOUR), fpu.sub(p, num(HALF)).abs())),
        Waveform::Saw => fpu.sub(fpu.mul(num(TWO), p), num(ONE)),
        Waveform::Pulse => fpu.sub(num(ONE), fpu.mul(num(TWO), mask(pw.at_most(p)))),
    }
}

pub open spec fn spec_osc_sample<A: Fn(Op, Plain, Plain) -> Plain>(
    fpu: &Fpu<A>,
    wave: Waveform,
    p: Plain,
    pw: Plain,
    dt: Plain,
) -> Plain {
    match wave {
        Waveform::Sine => fast_sine(fpu, p),
        Waveform::Triangle => fpu.sub(num(ONE), fpu.mul(num(FOUR), fpu.sub(p, num(HALF)).abs())),
        Waveform::Saw => fpu.sub(fpu.sub(fpu.mul(num(TWO), p), num(ONE)), pblep(fpu, p, dt)),
        Waveform::Pulse => {
            let naive = fpu.sub(num(ONE), fpu.mul(num(TWO), mask(pw.at_most(p))));
            let pf = wrap_both(fpu, fpu.add(fpu.sub(p, pw), num(ONE)));
            fpu.sub(fpu.add(naive, pblep(fpu, p, dt)), pblep(fpu, pf, dt))
        },
    }
}

/// The band-limited waveform: one oscillator sample from a phase.
#[verifier::when_used_as_spec(spec_osc_sample)]
pub fn osc_sample<A: Fn(Op, Plain, Plain) -> Plain>(
    fpu: &Fpu<A>,
    wave: Waveform,
    p: Plain,
    pw: Plain,
    dt: Plain,
) -> (r: Plain)
    requires
        fpu.valid(),
    ensures
        r == osc_sample(fpu, wave, p, pw, dt),
{
    match wave {
        Waveform::Sine => fast_sine(fpu, p),
        Waveform::Triangle => fpu.sub(num(ONE), fpu.mul(num(FOUR), fpu.sub(p, num(HALF)).abs())),
        Waveform::Saw => fpu.sub(fpu.sub(fpu.mul(num(TWO), p), num(ONE)), pblep(fpu, p, dt)),
        Waveform::Pulse => {
            let naive = fpu.sub(num(ONE), fpu.mul(num(TWO), mask(pw.at_most(p))));
            let pf = wrap_both(fpu, fpu.add(fpu.sub(p, pw), num(ONE)));
            fpu.sub(fpu.add(naive, pblep(fpu, p, dt)), pblep(fpu, pf, dt))
        },
    }
}

/// Both halves of the residual stay finite over a cycle, however short a sample is.
proof fn lemma_residual_is_finite<A: Fn(Op, Plain, Plain) -> Plain>(
    fpu: &Fpu<A>,
    t: Plain,
    d: Plain,
)
    requires
        fpu.rounds(),
        t.is_finite() && d.is_finite(),
        0 <= t.scaled() <= plain::unit(),
        num(F0_000000000001).at_most(d),
    ensures
        ({
            let a = fpu.div(t, d);
            let b = fpu.div(fpu.sub(t, num(ONE)), d);
            &&& fpu.sub(fpu.sub(fpu.mul(num(TWO), a), fpu.mul(a, a)), num(ONE)).is_finite()
            &&& fpu.add(fpu.add(fpu.mul(b, b), fpu.mul(num(TWO), b)), num(ONE)).is_finite()
        }),
{
    plain::lemma_small_values();
    power2::lemma2_to64_rest();
    power2::lemma2_to64();
    plain::lemma_power_scaled(87);
    plain::lemma_power_scaled(167);
    plain::lemma_power_scaled(168);
    plain::lemma_power_scaled(207);
    plain::lemma_power_scaled(208);
    plain::lemma_power_scaled(209);
    power2::lemma_pow2_adds(40, 40);
    power2::lemma_pow2_unfold(81);
    power2::lemma_pow2_unfold(82);
    let low = Plain { bits: 0x2b80_0000 };
    let p40 = Plain { bits: 0x5380_0000 };
    let p41 = Plain { bits: 0x5400_0000 };
    let p80 = Plain { bits: 0x6780_0000 };
    let p81 = Plain { bits: 0x6800_0000 };
    let p82 = Plain { bits: 0x6880_0000 };
    plain::lemma_equal_scaled(low, d);
    let u = plain::unit();
    let k: int = 0x100_0000_0000;
    let ds = d.scaled();
    assert(p40.scaled() == k * u && low.scaled() * k == u);
    assert(p80.scaled() == (k * k) * u);
    let ls = low.scaled();
    assert(u * u <= (k * u) * ds) by (nonlinear_arith)
        requires
            ls * k == u,
            ls <= ds,
            u > 0,
            k > 0,
    ;
    let q = fpu.sub(t, num(ONE));
    fpu.lemma_sub_side(t, num(ONE), num(MINUS_ONE));
    fpu.lemma_sub_side(t, num(ONE), num(ZERO));
    plain::lemma_between_finite(num(MINUS_ONE), q, num(ZERO));
    let a = fpu.div(t, d);
    let b = fpu.div(q, d);
    fpu.lemma_div_within(t, d, u, p40);
    fpu.lemma_div_within(q, d, u, p40);
    assert((2 * u) * (k * u) == ((2 * k) * u) * u) by (nonlinear_arith);
    assert((k * u) * (k * u) == ((k * k) * u) * u) by (nonlinear_arith);
    fpu.lemma_mul_within(num(TWO), a, 2 * u, k * u, p41);
    fpu.lemma_mul_within(num(TWO), b, 2 * u, k * u, p41);
    fpu.lemma_mul_within(a, a, k * u, k * u, p80);
    fpu.lemma_mul_within(b, b, k * u, k * u, p80);
    assert(p41.scaled() <= p80.scaled() && u <= p80.scaled()) by (nonlinear_arith)
        requires
            p41.scaled() == (2 * k) * u,
            p80.scaled() == (k * k) * u,
            k > 2,
            u > 0,
    ;
    assert(p81.scaled() == 2 * p80.scaled() && p82.scaled() == 2 * p81.scaled()) by (nonlinear_arith)
        requires
            p80.scaled() == power2::pow2(80) * u,
            p81.scaled() == (2 * power2::pow2(80)) * u,
            p82.scaled() == (2 * (2 * power2::pow2(80))) * u,
    ;
    let n80 = p80.scaled();
    fpu.lemma_add_within(fpu.mul(num(TWO), a), fpu.mul(a, a), n80, n80, p81);
    fpu.lemma_add_within(fpu.mul(b, b), fpu.mul(num(TWO), b), n80, n80, p81);
    let s = fpu.sub(fpu.mul(num(TWO), a), fpu.mul(a, a));
    let f = fpu.add(fpu.mul(b, b), fpu.mul(num(TWO), b));
    fpu.lemma_add_within(s, num(ONE), 2 * n80, n80, p82);
    fpu.lemma_add_within(f, num(ONE), 2 * n80, n80, p82);
}

/// Away from the edge of a cycle, by a sample or more on either side, there is no residual.
pub proof fn lemma_residual_is_local<A: Fn(Op, Plain, Plain) -> Plain>(
    fpu: &Fpu<A>,
    t: Plain,
    dt: Plain,
)
    requires
        fpu.rounds(),
        t.is_finite(),
        ({
            let d = dt.max(num(F0_000000000001));
            &&& d.at_most(t)
            &&& t.scaled() + d.scaled() <= plain::unit()
        }),
    ensures
        pblep(fpu, t, dt).is_zero(),
{
    let d = dt.max(num(F0_000000000001));
    plain::lemma_small_values();
    plain::lemma_equal_scaled(num(F0_000000000001), d);
    plain::lemma_equal_scaled(d, t);
    plain::lemma_scaled_sign(d);
    plain::lemma_equal_scaled(t, num(ONE));
    lemma_residual_is_finite(fpu, t, d);
    let rise = blep_rise(fpu, t, d);
    let fall = blep_fall(fpu, t, d);
    fpu.lemma_sub_side(num(ONE), d, t);
    let a = fpu.div(t, d);
    let b = fpu.div(fpu.sub(t, num(ONE)), d);
    fpu.lemma_none_of(
        fpu.sub(fpu.sub(fpu.mul(num(TWO), a), fpu.mul(a, a)), num(ONE)),
        num(ZERO),
    );
    fpu.lemma_none_of(
        fpu.add(fpu.add(fpu.mul(b, b), fpu.mul(num(TWO), b)), num(ONE)),
        num(ZERO),
    );
    assert(rise.is_zero() && fall.is_zero());
    fpu.lemma_nothing_added(rise, fall);
}

/// Whether a phase stands at least `n` steps of `2^-23` clear of both ends of the cycle, and
/// a sample is no longer than that.
pub open spec fn is_clear(p: Plain, dt: Plain, n: int) -> bool {
    let m = n * power2::pow2(126);
    &&& 0 < n < 0x40_0000
    &&& p.is_finite()
    &&& dt.max(num(F0_000000000001)).scaled() <= m
    &&& m <= p.scaled() <= plain::unit() - m
}

/// The phase counted from the falling edge of a pulse is clear of it where the phase is.
proof fn lemma_clear_of_fall<A: Fn(Op, Plain, Plain) -> Plain>(
    fpu: &Fpu<A>,
    p: Plain,
    pw: Plain,
    n: int,
)
    requires
        fpu.rounds(),
        0 < n < 0x40_0000,
        p.is_finite() && pw.is_finite(),
        ({
            let m = n * power2::pow2(126);
            let away = p.scaled() - pw.scaled();
            &&& m <= away <= plain::unit() - m || m <= -away <= plain::unit() - m
        }),
    ensures
        ({
            let pf = wrap_both(fpu, fpu.add(fpu.sub(p, pw), num(ONE)));
            &&& pf.is_finite()
            &&& n * power2::pow2(126) <= pf.scaled() <= plain::unit() - n * power2::pow2(126)
        }),
{
    plain::lemma_small_values();
    let w = power2::pow2(126) as int;
    power2::lemma_pow2_pos(126);
    let one: int = 0x80_0000;
    plain::lemma_steps(n);
    plain::lemma_steps(one - n);
    plain::lemma_steps(one + n);
    plain::lemma_steps(2 * one - n);
    let (lo, hi) = (plain::steps(n), plain::steps(one - n));
    let (above, below) = (plain::steps(one + n), plain::steps(2 * one - n));
    let m = n * w;
    assert((one - n) * w == one * w - m && (one + n) * w == one * w + m && (2 * one - n) * w == 2
        * (one * w) - m) by (nonlinear_arith)
        requires
            m == n * w,
    ;
    let s = fpu.sub(p, pw);
    let q = fpu.add(s, num(ONE));
    if p.scaled() >= pw.scaled() {
        assert(m > 0) by (nonlinear_arith)
            requires
                m == n * w,
                n > 0,
                w > 0,
        ;
        fpu.lemma_sub_side(p, pw, lo);
        fpu.lemma_sub_side(p, pw, hi);
        plain::lemma_between_finite(lo, s, hi);
        fpu.lemma_add_side(s, num(ONE), above);
        fpu.lemma_add_side(s, num(ONE), below);
        plain::lemma_between_finite(above, q, below);
        plain::lemma_equal_scaled(num(ONE), q);
        plain::lemma_equal_scaled(q, num(TWO));
        plain::lemma_one_floor(q);
        fpu.lemma_sub_side(q, num(ONE), lo);
        fpu.lemma_sub_side(q, num(ONE), hi);
        plain::lemma_between_finite(lo, fpu.sub(q, num(ONE)), hi);
    } else {
        plain::lemma_neg_scaled(lo);
        plain::lemma_neg_scaled(hi);
        fpu.lemma_sub_side(p, pw, lo.neg());
        fpu.lemma_sub_side(p, pw, hi.neg());
        plain::lemma_between_finite(hi.neg(), s, lo.neg());
        fpu.lemma_add_side(s, num(ONE), lo);
        fpu.lemma_add_side(s, num(ONE), hi);
        plain::lemma_between_finite(lo, q, hi);
        assert(m > 0) by (nonlinear_arith)
            requires
                m == n * w,
                n > 0,
                w > 0,
        ;
        plain::lemma_equal_scaled(q, num(ONE));
        plain::lemma_scaled_sign(q);
        plain::lemma_fraction_floor(q);
        fpu.lemma_sub_side(q, num(ZERO), lo);
        fpu.lemma_sub_side(q, num(ZERO), hi);
        plain::lemma_between_finite(lo, fpu.sub(q, num(ZERO)), hi);
    }
}

/// Clear of its edges a pulse is high before its width and low from there on, whatever the
/// width is: the share of the cycle that it is high for is its width.
pub proof fn lemma_pulse_is_high_for_its_width<A: Fn(Op, Plain, Plain) -> Plain>(
    fpu: &Fpu<A>,
    p: Plain,
    pw: Plain,
    dt: Plain,
    n: int,
)
    requires
        fpu.rounds(),
        is_clear(p, dt, n),
        is_clear(pw, dt, n),
        p.scaled() + n * power2::pow2(126) <= pw.scaled() || pw.scaled() + n * power2::pow2(126)
            <= p.scaled(),
    ensures
        osc_sample(fpu, Waveform::Pulse, p, pw, dt) == (if p.less(pw) {
            num(ONE)
        } else {
            num(MINUS_ONE)
        }),
{
    let d = dt.max(num(F0_000000000001));
    plain::lemma_small_values();
    plain::lemma_equal_scaled(d, p);
    plain::lemma_equal_scaled(p, pw);
    lemma_clear_of_fall(fpu, p, pw, n);
    let pf = wrap_both(fpu, fpu.add(fpu.sub(p, pw), num(ONE)));
    plain::lemma_equal_scaled(d, pf);
    lemma_residual_is_local(fpu, p, dt);
    lemma_residual_is_local(fpu, pf, dt);
    let m = mask(pw.at_most(p));
    let two_m = fpu.mul(num(TWO), m);
    fpu.lemma_all_of(num(TWO));
    fpu.lemma_none_of(num(TWO), num(ZERO));
    let want = if p.less(pw) {
        num(ONE)
    } else {
        num(MINUS_ONE)
    };
    plain::lemma_equal_scaled(two_m, num(TWO));
    plain::lemma_scaled_sign(two_m);
    fpu.lemma_sub_side(num(ONE), two_m, want);
    let naive = fpu.sub(num(ONE), two_m);
    assert(naive == want);
    let (z1, z2) = (pblep(fpu, p, dt), pblep(fpu, pf, dt));
    fpu.lemma_nothing_added(naive, z1);
    assert(fpu.add(naive, z1) == want);
    fpu.lemma_nothing_added(want, z2);
}

/// Pulses of two widths differ: between the widths one is low and the other still high.
pub proof fn lemma_widths_differ<A: Fn(Op, Plain, Plain) -> Plain>(
    fpu: &Fpu<A>,
    p: Plain,
    narrow: Plain,
    wide: Plain,
    dt: Plain,
    n: int,
)
    requires
        fpu.rounds(),
        is_clear(p, dt, n),
        is_clear(narrow, dt, n),
        is_clear(wide, dt, n),
        narrow.scaled() + n * power2::pow2(126) <= p.scaled(),
        p.scaled() + n * power2::pow2(126) <= wide.scaled(),
    ensures
        osc_sample(fpu, Waveform::Pulse, p, narrow, dt) == num(MINUS_ONE),
        osc_sample(fpu, Waveform::Pulse, p, wide, dt) == num(ONE),
{
    lemma_pulse_is_high_for_its_width(fpu, p, narrow, dt, n);
    lemma_pulse_is_high_for_its_width(fpu, p, wide, dt, n);
    power2::lemma_pow2_pos(126);
    let w = power2::pow2(126) as int;
    assert(n * w > 0) by (nonlinear_arith)
        requires
            n > 0,
            w > 0,
    ;
    plain::lemma_equal_scaled(p, narrow);
    plain::lemma_equal_scaled(p, wide);
}

/// One voice's oscillator.
///
/// When a hard sync resets it inside sample `n`, the step falls between samples `n`
/// and `n + 1`: `sync_pending` is then one, and `sync_resid` is what the next sample
/// adds to the bare waveform. `sub_high` changes with every wrap of the phase.
#[derive(Clone, Copy, Debug, PartialEq, Eq, Structural)]
pub struct OscLane {
    pub phase: Plain,
    pub inc: Plain,
    pub sync_resid: Plain,
    pub sync_pending: Plain,
    pub sub_high: bool,
}

/// A coupled pair of oscillators one sample on, and what they put out.
#[derive(Clone, Copy, Debug, PartialEq, Eq, Structural)]
pub struct PairStep {
    pub master: OscLane,
    pub slave: OscLane,
    pub o1: Plain,
    pub o2: Plain,
}

impl OscLane {
    pub open spec fn fresh() -> Self {
        OscLane {
            phase: num(ZERO),
            inc: num(ZERO),
            sync_resid: num(ZERO),
            sync_pending: num(ZERO),
            sub_high: false,
        }
    }

    pub open spec fn spec_advanced<A: Fn(Op, Plain, Plain) -> Plain>(self, fpu: &Fpu<A>) -> Self {
        OscLane {
            phase: advance(fpu, self.phase, self.inc),
            sub_high: self.sub_high != num(ONE).at_most(fpu.add(self.phase, self.inc)),
            ..self
        }
    }

    /// The oscillator one free-running sample on.
    #[verifier::when_used_as_spec(spec_advanced)]
    pub fn advanced<A: Fn(Op, Plain, Plain) -> Plain>(self, fpu: &Fpu<A>) -> (r: Self)
        requires
            fpu.valid(),
        ensures
            r == self.advanced(fpu),
    {
        let wraps: bool = num(ONE).at_most(fpu.add(self.phase, self.inc));
        OscLane {
            phase: advance(fpu, self.phase, self.inc),
            inc: self.inc,
            sync_resid: self.sync_resid,
            sync_pending: self.sync_pending,
            sub_high: self.sub_high != wraps,
        }
    }
}

pub open spec fn spec_sync_fraction<A: Fn(Op, Plain, Plain) -> Plain>(
    fpu: &Fpu<A>,
    np: Plain,
    inc: Plain,
) -> Plain {
    fpu.sub(
        num(ONE),
        fpu.div(fpu.sub(np, num(ONE)), inc.max(num(F0_000000000001))),
    ).clamp(num(MIN_POSITIVE), num(ONE))
}

/// How far into the sample the phase reached one, given where it ended up.
#[verifier::when_used_as_spec(spec_sync_fraction)]
pub fn sync_fraction<A: Fn(Op, Plain, Plain) -> Plain>(
    fpu: &Fpu<A>,
    np: Plain,
    inc: Plain,
) -> (r: Plain)
    requires
        fpu.valid(),
    ensures
        r == sync_fraction(fpu, np, inc),
{
    fpu.sub(
        num(ONE),
        fpu.div(fpu.sub(np, num(ONE)), inc.max(num(F0_000000000001))),
    ).clamp(num(MIN_POSITIVE), num(ONE))
}

pub open spec fn spec_synced_slave<A: Fn(Op, Plain, Plain) -> Plain>(
    fpu: &Fpu<A>,
    slave: OscLane,
    wave: Waveform,
    pw: Plain,
    frac: Plain,
    reset: Plain,
) -> (OscLane, Plain) {
    let dt = slave.inc;
    let p = slave.phase;
    let post_phase = fpu.mul(fpu.sub(num(ONE), frac), dt);
    let pre_raw = fpu.add(p, fpu.mul(frac, dt));
    let pre_phase = fpu.sub(pre_raw, mask(num(ONE).at_most(pre_raw)));
    let delta = fpu.sub(naive_osc(fpu, wave, pre_phase, pw), naive_osc(fpu, wave, post_phase, pw));
    let before_phase = fpu.sub(num(ONE), fpu.mul(frac, dt));
    let correction = fpu.mul(
        fpu.mul(fpu.mul(pblep(fpu, before_phase, dt), num(HALF)), delta),
        reset,
    );
    let free_phase = advance(fpu, p, dt);
    let next = OscLane {
        phase: fpu.add(fpu.mul(free_phase, fpu.sub(num(ONE), reset)), fpu.mul(post_phase, reset)),
        inc: dt,
        sync_resid: fpu.mul(fpu.mul(pblep(fpu, post_phase, dt).neg(), num(HALF)), delta),
        sync_pending: reset,
        sub_high: slave.sub_high,
    };
    (next, correction)
}

/// The slave oscillator one sample on, with a reset `frac` into the sample where
/// `reset` is one; and the correction that the reset takes off the current sample.
/// The part of the step behind the sample is deferred to the next one.
#[verifier::when_used_as_spec(spec_synced_slave)]
pub fn synced_slave<A: Fn(Op, Plain, Plain) -> Plain>(
    fpu: &Fpu<A>,
    slave: OscLane,
    wave: Waveform,
    pw: Plain,
    frac: Plain,
    reset: Plain,
) -> (r: (OscLane, Plain))
    requires
        fpu.valid(),
    ensures
        r == synced_slave(fpu, slave, wave, pw, frac, reset),
{
    let dt = slave.inc;
    let p = slave.phase;
    let post_phase = fpu.mul(fpu.sub(num(ONE), frac), dt);
    let pre_raw = fpu.add(p, fpu.mul(frac, dt));
    let pre_phase = fpu.sub(pre_raw, mask(num(ONE).at_most(pre_raw)));
    let delta = fpu.sub(naive_osc(fpu, wave, pre_phase, pw), naive_osc(fpu, wave, post_phase, pw));
    let before_phase = fpu.sub(num(ONE), fpu.mul(frac, dt));
    let correction = fpu.mul(
        fpu.mul(fpu.mul(pblep(fpu, before_phase, dt), num(HALF)), delta),
        reset,
    );
    let free_phase = advance(fpu, p, dt);
    let next = OscLane {
        phase: fpu.add(fpu.mul(free_phase, fpu.sub(num(ONE), reset)), fpu.mul(post_phase, reset)),
        inc: dt,
        sync_resid: fpu.mul(fpu.mul(pblep(fpu, post_phase, dt).neg(), num(HALF)), delta),
        sync_pending: reset,
        sub_high: slave.sub_high,
    };
    (next, correction)
}

pub open spec fn spec_slave_value<A: Fn(Op, Plain, Plain) -> Plain>(
    fpu: &Fpu<A>,
    slave: OscLane,
    wave: Waveform,
    pw: Plain,
) -> Plain {
    let pend = slave.sync_pending;
    let free_val = osc_sample(fpu, wave, slave.phase, pw, slave.inc);
    let bare_val = fpu.add(naive_osc(fpu, wave, slave.phase, pw), slave.sync_resid);
    fpu.add(fpu.mul(free_val, fpu.sub(num(ONE), pend)), fpu.mul(bare_val, pend))
}

/// What a slave reads at its phase: its free value, or the bare waveform and the
/// deferred residual on the sample after a reset.
#[verifier::when_used_as_spec(spec_slave_value)]
pub fn slave_value<A: Fn(Op, Plain, Plain) -> Plain>(
    fpu: &Fpu<A>,
    slave: OscLane,
    wave: Waveform,
    pw: Plain,
) -> (r: Plain)
    requires
        fpu.valid(),
    ensures
        r == slave_value(fpu, slave, wave, pw),
{
    let pend = slave.sync_pending;
    let free_val = osc_sample(fpu, wave, slave.phase, pw, slave.inc);
    let bare_val = fpu.add(naive_osc(fpu, wave, slave.phase, pw), slave.sync_resid);
    fpu.add(fpu.mul(free_val, fpu.sub(num(ONE), pend)), fpu.mul(bare_val, pend))
}

pub open spec fn spec_pair_step<A: Fn(Op, Plain, Plain) -> Plain>(
    fpu: &Fpu<A>,
    master: OscLane,
    slave: OscLane,
    sync: bool,
    pm_index: Plain,
    wave1: Waveform,
    wave2: Waveform,
    pw1: Plain,
    pw2: Plain,
) -> PairStep {
    let s2 = slave_value(fpu, slave, wave2, pw2);
    let read = wrap_both(fpu, fpu.add(master.phase, fpu.mul(pm_index, s2)));
    let o1 = osc_sample(fpu, wave1, read, pw1, master.inc);
    let np1 = fpu.add(master.phase, master.inc);
    let wrapped = mask(num(ONE).at_most(np1));
    let frac = sync_fraction(fpu, np1, master.inc);
    let reset = fpu.mul(wrapped, mask(sync));
    let (next, correction) = synced_slave(fpu, slave, wave2, pw2, frac, reset);
    PairStep { master: master.advanced(fpu), slave: next, o1, o2: fpu.sub(s2, correction) }
}

/// Hard sync and through-zero phase modulation together, one sample of one voice.
///
/// The slave's output offsets only the phase that the master is read at; the
/// master's own phase advances at its base increment. With `sync`, a wrap of the
/// master resets the slave at the very fraction of the sample.
#[verifier::when_used_as_spec(spec_pair_step)]
pub fn pair_step<A: Fn(Op, Plain, Plain) -> Plain>(
    fpu: &Fpu<A>,
    master: OscLane,
    slave: OscLane,
    sync: bool,
    pm_index: Plain,
    wave1: Waveform,
    wave2: Waveform,
    pw1: Plain,
    pw2: Plain,
) -> (r: PairStep)
    requires
        fpu.valid(),
    ensures
        r == pair_step(fpu, master, slave, sync, pm_index, wave1, wave2, pw1, pw2),
{
    let s2 = slave_value(fpu, slave, wave2, pw2);
    let read = wrap_both(fpu, fpu.add(master.phase, fpu.mul(pm_index, s2)));
    let o1 = osc_sample(fpu, wave1, read, pw1, master.inc);
    let np1 = fpu.add(master.phase, master.inc);
    let wrapped = mask(num(ONE).at_most(np1));
    let frac = sync_fraction(fpu, np1, master.inc);
    let reset = fpu.mul(wrapped, mask(sync));
    let (next, correction) = synced_slave(fpu, slave, wave2, pw2, frac, reset);
    PairStep { master: master.advanced(fpu), slave: next, o1, o2: fpu.sub(s2, correction) }
}

pub open spec fn spec_sync_step<A: Fn(Op, Plain, Plain) -> Plain>(
    fpu: &Fpu<A>,
    master: OscLane,
    slave: OscLane,
    wave1: Waveform,
    wave2: Waveform,
    pw1: Plain,
    pw2: Plain,
) -> PairStep {
    let s2 = slave_value(fpu, slave, wave2, pw2);
    let o1 = osc_sample(fpu, wave1, master.phase, pw1, master.inc);
    let np1 = fpu.add(master.phase, master.inc);
    let reset = mask(num(ONE).at_most(np1));
    let frac = sync_fraction(fpu, np1, master.inc);
    let (next, correction) = synced_slave(fpu, slave, wave2, pw2, frac, reset);
    PairStep { master: master.advanced(fpu), slave: next, o1, o2: fpu.sub(s2, correction) }
}

/// [`pair_step`] with sync alone.
#[verifier::when_used_as_spec(spec_sync_step)]
pub fn sync_step<A: Fn(Op, Plain, Plain) -> Plain>(
    fpu: &Fpu<A>,
    master: OscLane,
    slave: OscLane,
    wave1: Waveform,
    wave2: Waveform,
    pw1: Plain,
    pw2: Plain,
) -> (r: PairStep)
    requires
        fpu.valid(),
    ensures
        r == sync_step(fpu, master, slave, wave1, wave2, pw1, pw2),
{
    let s2 = slave_value(fpu, slave, wave2, pw2);
    let o1 = osc_sample(fpu, wave1, master.phase, pw1, master.inc);
    let np1 = fpu.add(master.phase, master.inc);
    let reset = mask(num(ONE).at_most(np1));
    let frac = sync_fraction(fpu, np1, master.inc);
    let (next, correction) = synced_slave(fpu, slave, wave2, pw2, frac, reset);
    PairStep { master: master.advanced(fpu), slave: next, o1, o2: fpu.sub(s2, correction) }
}

pub open spec fn spec_pm_step<A: Fn(Op, Plain, Plain) -> Plain>(
    fpu: &Fpu<A>,
    master: OscLane,
    slave: OscLane,
    pm_index: Plain,
    wave1: Waveform,
    wave2: Waveform,
    pw1: Plain,
    pw2: Plain,
) -> PairStep {
    let s2 = osc_sample(fpu, wave2, slave.phase, pw2, slave.inc);
    let next = OscLane {
        phase: advance(fpu, slave.phase, slave.inc),
        inc: slave.inc,
        sync_resid: slave.sync_resid,
        sync_pending: num(ZERO),
        sub_high: slave.sub_high,
    };
    let read = wrap_both(fpu, fpu.add(master.phase, fpu.mul(pm_index, s2)));
    let o1 = osc_sample(fpu, wave1, read, pw1, master.inc);
    PairStep { master: master.advanced(fpu), slave: next, o1, o2: s2 }
}

/// [`pair_step`] with phase modulation alone: the slave runs free.
#[verifier::when_used_as_spec(spec_pm_step)]
pub fn pm_step<A: Fn(Op, Plain, Plain) -> Plain>(
    fpu: &Fpu<A>,
    master: OscLane,
    slave: OscLane,
    pm_index: Plain,
    wave1: Waveform,
    wave2: Waveform,
    pw1: Plain,
    pw2: Plain,
) -> (r: PairStep)
    requires
        fpu.valid(),
    ensures
        r == pm_step(fpu, master, slave, pm_index, wave1, wave2, pw1, pw2),
{
    let s2 = osc_sample(fpu, wave2, slave.phase, pw2, slave.inc);
    let next = OscLane {
        phase: advance(fpu, slave.phase, slave.inc),
        inc: slave.inc,
        sync_resid: slave.sync_resid,
        sync_pending: num(ZERO),
        sub_high: slave.sub_high,
    };
    let read = wrap_both(fpu, fpu.add(master.phase, fpu.mul(pm_index, s2)));
    let o1 = osc_sample(fpu, wave1, read, pw1, master.inc);
    PairStep { master: master.advanced(fpu), slave: next, o1, o2: s2 }
}

/// A phase in `[0, 1)`.
pub open spec fn is_phase(x: Plain) -> bool {
    x.is_number() && !x.negative() && x.less(num(ONE))
}

/// What a step works on for a slave that is not reset are numbers: what it reads, where it goes,
/// and what a reset would have made of both.
pub open spec fn is_on_numbers<A: Fn(Op, Plain, Plain) -> Plain>(
    fpu: &Fpu<A>,
    master: OscLane,
    slave: OscLane,
    wave: Waveform,
    pw: Plain,
) -> bool {
    let np = fpu.add(master.phase, master.inc);
    let frac = sync_fraction(fpu, np, master.inc);
    let post = fpu.mul(fpu.sub(num(ONE), frac), slave.inc);
    let raw = fpu.add(slave.phase, fpu.mul(frac, slave.inc));
    let pre = fpu.sub(raw, mask(num(ONE).at_most(raw)));
    let delta = fpu.sub(naive_osc(fpu, wave, pre, pw), naive_osc(fpu, wave, post, pw));
    let before = fpu.sub(num(ONE), fpu.mul(frac, slave.inc));
    let free = advance(fpu, slave.phase, slave.inc);
    &&& osc_sample(fpu, wave, slave.phase, pw, slave.inc).is_number()
    &&& fpu.add(naive_osc(fpu, wave, slave.phase, pw), slave.sync_resid).is_number()
    &&& free.is_number() && !free.negative()
    &&& post.is_number()
    &&& fpu.mul(fpu.mul(pblep(fpu, before, slave.inc), num(HALF)), delta).is_number()
}

/// Without a reset pending a slave reads its free value, and one that is not reset goes on from
/// where it was.
proof fn lemma_slave_runs_free<A: Fn(Op, Plain, Plain) -> Plain>(
    fpu: &Fpu<A>,
    master: OscLane,
    slave: OscLane,
    wave: Waveform,
    pw: Plain,
)
    requires
        fpu.keeps_units(),
        slave.sync_pending == num(ZERO),
        is_on_numbers(fpu, master, slave, wave, pw),
    ensures
        ({
            let value = osc_sample(fpu, wave, slave.phase, pw, slave.inc);
            let np = fpu.add(master.phase, master.inc);
            let frac = sync_fraction(fpu, np, master.inc);
            let (next, correction) = synced_slave(fpu, slave, wave, pw, frac, num(ZERO));
            let read = slave_value(fpu, slave, wave, pw);
            &&& fpu.mul(mask(num(ONE).at_most(np)), mask(false)) == num(ZERO)
            &&& fpu::same_number(read, value)
            &&& read.is_number()
            &&& fpu::same_number(fpu.sub(read, correction), read)
            &&& next.phase == advance(fpu, slave.phase, slave.inc)
        }),
{
    let (zero, one) = (num(ZERO), num(ONE));
    let np = fpu.add(master.phase, master.inc);
    let frac = sync_fraction(fpu, np, master.inc);
    let post = fpu.mul(fpu.sub(one, frac), slave.inc);
    let raw = fpu.add(slave.phase, fpu.mul(frac, slave.inc));
    let pre = fpu.sub(raw, mask(one.at_most(raw)));
    let delta = fpu.sub(naive_osc(fpu, wave, pre, pw), naive_osc(fpu, wave, post, pw));
    let before = fpu.sub(one, fpu.mul(frac, slave.inc));
    let step = fpu.mul(fpu.mul(pblep(fpu, before, slave.inc), num(HALF)), delta);
    let value = osc_sample(fpu, wave, slave.phase, pw, slave.inc);
    let bare = fpu.add(naive_osc(fpu, wave, slave.phase, pw), slave.sync_resid);
    let free = advance(fpu, slave.phase, slave.inc);
    fpu.lemma_units_multiply(one);
    fpu.lemma_units_multiply(zero);
    fpu.lemma_zero_adds(one, zero);
    fpu.lemma_units_multiply(value);
    fpu.lemma_units_multiply(bare);
    fpu.lemma_zero_adds(value, fpu.mul(bare, zero));
    fpu.lemma_units_multiply(free);
    fpu.lemma_units_multiply(post);
    fpu.lemma_zero_adds(free, fpu.mul(post, zero));
    fpu.lemma_units_multiply(step);
    fpu.lemma_zero_adds(slave_value(fpu, slave, wave, pw), fpu.mul(step, zero));
}

/// With a modulation index of zero the master is read at its own phase.
proof fn lemma_read_is_phase<A: Fn(Op, Plain, Plain) -> Plain>(
    fpu: &Fpu<A>,
    phase: Plain,
    value: Plain,
)
    requires
        fpu.keeps_units(),
        is_phase(phase),
        value.is_number(),
    ensures
        wrap_both(fpu, fpu.add(phase, fpu.mul(num(ZERO), value))) == phase,
{
    fpu.lemma_units_multiply(value);
    fpu.lemma_zero_adds(phase, fpu.mul(num(ZERO), value));
    plain::lemma_fraction_floor(phase);
    fpu.lemma_zero_adds(phase, num(ZERO));
}

/// The kernel for sync alone is the coupled one with a modulation index of zero, in both
/// oscillators and in what they put out.
pub proof fn lemma_sync_step_is_a_pair<A: Fn(Op, Plain, Plain) -> Plain>(
    fpu: &Fpu<A>,
    master: OscLane,
    slave: OscLane,
    wave1: Waveform,
    wave2: Waveform,
    pw1: Plain,
    pw2: Plain,
)
    requires
        fpu.keeps_units(),
        is_phase(master.phase),
        slave_value(fpu, slave, wave2, pw2).is_number(),
    ensures
        sync_step(fpu, master, slave, wave1, wave2, pw1, pw2) == pair_step(
            fpu,
            master,
            slave,
            true,
            num(ZERO),
            wave1,
            wave2,
            pw1,
            pw2,
        ),
{
    lemma_read_is_phase(fpu, master.phase, slave_value(fpu, slave, wave2, pw2));
    fpu.lemma_units_multiply(num(ONE));
    fpu.lemma_units_multiply(num(ZERO));
}

/// The kernel for phase modulation alone is the coupled one without sync, where no reset is
/// pending: the same samples, the same master, the same phase of the slave. What the slave reads
/// is not the negative zero, whose sign the coupled kernel can lose.
pub proof fn lemma_pm_step_is_a_pair<A: Fn(Op, Plain, Plain) -> Plain>(
    fpu: &Fpu<A>,
    master: OscLane,
    slave: OscLane,
    pm_index: Plain,
    wave1: Waveform,
    wave2: Waveform,
    pw1: Plain,
    pw2: Plain,
)
    requires
        fpu.keeps_units(),
        slave.sync_pending == num(ZERO),
        is_on_numbers(fpu, master, slave, wave2, pw2),
        ({
            let value = osc_sample(fpu, wave2, slave.phase, pw2, slave.inc);
            !(value.is_zero() && value.negative())
        }),
    ensures
        ({
            let s = pair_step(
                fpu,
                master,
                slave,
                false,
                pm_index,
                wave1,
                wave2,
                pw1,
                pw2,
            );
            let t = pm_step(fpu, master, slave, pm_index, wave1, wave2, pw1, pw2);
            &&& s.o1 == t.o1 && s.o2 == t.o2 && s.master == t.master
            &&& t.slave == (OscLane { sync_resid: t.slave.sync_resid, ..s.slave })
        }),
{
    lemma_slave_runs_free(fpu, master, slave, wave2, pw2);
}

/// A pair that is not coupled, without sync and with a modulation index of zero, is two
/// oscillators running free: each puts out what [`PolyOscillator::process`] puts out, and each
/// phase goes where that takes it. No reset was pending, and none is after.
pub proof fn lemma_uncoupled_pair_runs_free<A: Fn(Op, Plain, Plain) -> Plain>(
    fpu: &Fpu<A>,
    master: OscLane,
    slave: OscLane,
    wave1: Waveform,
    wave2: Waveform,
    pw1: Plain,
    pw2: Plain,
)
    requires
        fpu.keeps_units(),
        is_phase(master.phase),
        slave.sync_pending == num(ZERO),
        is_on_numbers(fpu, master, slave, wave2, pw2),
    ensures
        ({
            let s = pair_step(
                fpu,
                master,
                slave,
                false,
                num(ZERO),
                wave1,
                wave2,
                pw1,
                pw2,
            );
            &&& s.o1 == osc_sample(fpu, wave1, master.phase, pw1, master.inc)
            &&& s.o2.equals(osc_sample(fpu, wave2, slave.phase, pw2, slave.inc))
            &&& s.master == master.advanced(fpu)
            &&& s.slave.phase == slave.advanced(fpu).phase
            &&& s.slave.inc == slave.inc
            &&& s.slave.sync_pending == num(ZERO)
        }),
{
    lemma_slave_runs_free(fpu, master, slave, wave2, pw2);
    lemma_read_is_phase(fpu, master.phase, slave_value(fpu, slave, wave2, pw2));
}

/// A pair that is not coupled, `n` samples on.
pub open spec fn uncoupled<A: Fn(Op, Plain, Plain) -> Plain>(
    fpu: &Fpu<A>,
    master: OscLane,
    slave: OscLane,
    waves: (Waveform, Waveform),
    widths: (Plain, Plain),
    n: nat,
) -> (OscLane, OscLane)
    decreases n,
{
    if n == 0 {
        (master, slave)
    } else {
        let (m, s) = uncoupled(fpu, master, slave, waves, widths, (n - 1) as nat);
        let zero = num(ZERO);
        let step = pair_step(fpu, m, s, false, zero, waves.0, waves.1, widths.0, widths.1);
        (step.master, step.slave)
    }
}

/// An oscillator running free, `n` samples on.
pub open spec fn running_free<A: Fn(Op, Plain, Plain) -> Plain>(
    fpu: &Fpu<A>,
    lane: OscLane,
    n: nat,
) -> OscLane
    decreases n,
{
    if n == 0 {
        lane
    } else {
        running_free(fpu, lane, (n - 1) as nat).advanced(fpu)
    }
}

/// It stays so on every following sample: however long a pair runs without coupling, the
/// phases are where two free oscillators have theirs, and sample `n` of both is what those
/// put out.
pub proof fn lemma_uncoupled_pair_stays_free<A: Fn(Op, Plain, Plain) -> Plain>(
    fpu: &Fpu<A>,
    master: OscLane,
    slave: OscLane,
    waves: (Waveform, Waveform),
    widths: (Plain, Plain),
    n: nat,
)
    requires
        fpu.keeps_units(),
        slave.sync_pending == num(ZERO),
        forall|i: nat|
            i <= n ==> {
                let (m, s) = #[trigger] uncoupled(fpu, master, slave, waves, widths, i);
                is_phase(m.phase) && is_on_numbers(fpu, m, s, waves.1, widths.1)
            },
    ensures
        ({
            let (m, s) = uncoupled(fpu, master, slave, waves, widths, n);
            let (a, b) = (running_free(fpu, master, n), running_free(fpu, slave, n));
            let zero = num(ZERO);
            let step = pair_step(fpu, m, s, false, zero, waves.0, waves.1, widths.0, widths.1);
            &&& m == a
            &&& s.phase == b.phase && s.inc == b.inc && s.sync_pending == zero
            &&& step.o1 == osc_sample(fpu, waves.0, a.phase, widths.0, a.inc)
            &&& step.o2.equals(osc_sample(fpu, waves.1, b.phase, widths.1, b.inc))
        }),
    decreases n,
{
    if n > 0 {
        let k = (n - 1) as nat;
        lemma_uncoupled_pair_stays_free(fpu, master, slave, waves, widths, k);
        let (m, s) = uncoupled(fpu, master, slave, waves, widths, k);
        let (w1, w2) = waves;
        lemma_uncoupled_pair_runs_free(fpu, m, s, w1, w2, widths.0, widths.1);
    }
    let (m, s) = uncoupled(fpu, master, slave, waves, widths, n);
    lemma_uncoupled_pair_runs_free(fpu, m, s, waves.0, waves.1, widths.0, widths.1);
}

/// The oscillators of a layer, one lane per voice.
#[derive(Clone, Copy)]
pub struct PolyOscillator {
    pub lanes: [OscLane; CHANNELS_PER_LAYER],
}

impl Default for PolyOscillator {
    fn default() -> (r: Self)
        ensures
            forall|v: int|
                0 <= v < CHANNELS_PER_LAYER ==> #[trigger] r.lanes@[v] == OscLane::fresh(),
    {
        PolyOscillator::new()
    }
}

impl PolyOscillator {
    pub fn new() -> (r: Self)
        ensures
            forall|v: int|
                0 <= v < CHANNELS_PER_LAYER ==> #[trigger] r.lanes@[v] == OscLane::fresh(),
    {
        let lane = OscLane {
            phase: num(ZERO),
            inc: num(ZERO),
            sync_resid: num(ZERO),
            sync_pending: num(ZERO),
            sub_high: false,
        };
        PolyOscillator { lanes: splat(lane) }
    }

    /// Restart voice `v` at phase zero, with no sync step pending. Its increment
    /// stays.
    pub fn reset(&mut self, v: usize)
        requires
            v < CHANNELS_PER_LAYER,
        ensures
            final(self).lanes@ == old(self).lanes@.update(
                v as int,
                OscLane { inc: old(self).lanes@[v as int].inc, ..OscLane::fresh() },
            ),
    {
        self.lanes[v] = OscLane {
            phase: num(ZERO),
            inc: self.lanes[v].inc,
            sync_resid: num(ZERO),
            sync_pending: num(ZERO),
            sub_high: false,
        };
    }

    /// Put voice `v`'s phase.
    pub fn set_phase(&mut self, v: usize, phase: Plain)
        requires
            v < CHANNELS_PER_LAYER,
        ensures
            final(self).lanes@ == old(self).lanes@.update(
                v as int,
                OscLane { phase, ..old(self).lanes@[v as int] },
            ),
    {
        let mut lane = self.lanes[v];
        lane.phase = phase;
        self.lanes[v] = lane;
    }

    /// Set voice `v`'s increment per sample.
    pub fn set_inc(&mut self, v: usize, inc: Plain)
        requires
            v < CHANNELS_PER_LAYER,
        ensures
            final(self).lanes@ == old(self).lanes@.update(
                v as int,
                OscLane { inc, ..old(self).lanes@[v as int] },
            ),
    {
        let mut lane = self.lanes[v];
        lane.inc = inc;
        self.lanes[v] = lane;
    }

    /// Produce one sample per voice, advancing all phases. The waveform is common
    /// to the voices, the pulse width is per voice.
    pub fn process<A: Fn(Op, Plain, Plain) -> Plain>(
        &mut self,
        fpu: &Fpu<A>,
        wave: Waveform,
        pw: &Lanes,
        out: &mut Lanes,
    )
        requires
            fpu.valid(),
        ensures
            forall|v: int|
                0 <= v < CHANNELS_PER_LAYER ==> #[trigger] final(self).lanes@[v] == old(
                    self,
                ).lanes@[v].advanced(fpu),
            forall|v: int|
                0 <= v < CHANNELS_PER_LAYER ==> #[trigger] final(out)@[v] == osc_sample(
                    fpu,
                    wave,
                    old(self).lanes@[v].phase,
                    pw@[v],
                    old(self).lanes@[v].inc,
                ),
    {
        for v in 0..CHANNELS_PER_LAYER
            invariant
                fpu.valid(),
                forall|i: int|
                    0 <= i < v ==> #[trigger] self.lanes@[i] == old(self).lanes@[i].advanced(fpu),
                forall|i: int|
                    v <= i < CHANNELS_PER_LAYER ==> #[trigger] self.lanes@[i] == old(
                        self,
                    ).lanes@[i],
                forall|i: int|
                    0 <= i < v ==> #[trigger] out@[i] == osc_sample(
                        fpu,
                        wave,
                        old(self).lanes@[i].phase,
                        pw@[i],
                        old(self).lanes@[i].inc,
                    ),
        {
            let lane = self.lanes[v];
            out[v] = osc_sample(fpu, wave, lane.phase, pw[v], lane.inc);
            self.lanes[v] = lane.advanced(fpu);
        }
    }

    /// Hard sync and phase modulation together, every voice by [`pair_step`].
    pub fn process_pair<A: Fn(Op, Plain, Plain) -> Plain>(
        &mut self,
        fpu: &Fpu<A>,
        slave: &mut PolyOscillator,
        sync: bool,
        pm_index: Plain,
        wave1: Waveform,
        wave2: Waveform,
        pw1: &Lanes,
        pw2: &Lanes,
        o1: &mut Lanes,
        o2: &mut Lanes,
    )
        requires
            fpu.valid(),
        ensures
            forall|v: int|
                0 <= v < CHANNELS_PER_LAYER ==> #[trigger] final(self).lanes@[v] == pair_step(
                    fpu,
                    old(self).lanes@[v],
                    old(slave).lanes@[v],
                    sync,
                    pm_index,
                    wave1,
                    wave2,
                    pw1@[v],
                    pw2@[v],
                ).master,
            forall|v: int|
                0 <= v < CHANNELS_PER_LAYER ==> #[trigger] final(slave).lanes@[v] == pair_step(
                    fpu,
                    old(self).lanes@[v],
                    old(slave).lanes@[v],
                    sync,
                    pm_index,
                    wave1,
                    wave2,
                    pw1@[v],
                    pw2@[v],
                ).slave,
            forall|v: int|
                0 <= v < CHANNELS_PER_LAYER ==> #[trigger] final(o1)@[v] == pair_step(
                    fpu,
                    old(self).lanes@[v],
                    old(slave).lanes@[v],
                    sync,
                    pm_index,
                    wave1,
                    wave2,
                    pw1@[v],
                    pw2@[v],
                ).o1,
            forall|v: int|
                0 <= v < CHANNELS_PER_LAYER ==> #[trigger] final(o2)@[v] == pair_step(
                    fpu,
                    old(self).lanes@[v],
                    old(slave).lanes@[v],
                    sync,
                    pm_index,
                    wave1,
                    wave2,
                    pw1@[v],
                    pw2@[v],
                ).o2,
    {
        for v in 0..CHANNELS_PER_LAYER
            invariant
                fpu.valid(),
                forall|i: int|
                    0 <= i < v ==> #[trigger] self.lanes@[i] == pair_step(
                        fpu,
                        old(self).lanes@[i],
                        old(slave).lanes@[i],
                        sync,
                        pm_index,
                        wave1,
                        wave2,
                        pw1@[i],
                        pw2@[i],
                    ).master,
                forall|i: int|
                    0 <= i < v ==> #[trigger] slave.lanes@[i] == pair_step(
                        fpu,
                        old(self).lanes@[i],
                        old(slave).lanes@[i],
                        sync,
                        pm_index,
                        wave1,
                        wave2,
                        pw1@[i],
                        pw2@[i],
                    ).slave,
                forall|i: int|
                    0 <= i < v ==> #[trigger] o1@[i] == pair_step(
                        fpu,
                        old(self).lanes@[i],
                        old(slave).lanes@[i],
                        sync,
                        pm_index,
                        wave1,
                        wave2,
                        pw1@[i],
                        pw2@[i],
                    ).o1,
                forall|i: int|
                    0 <= i < v ==> #[trigger] o2@[i] == pair_step(
                        fpu,
                        old(self).lanes@[i],
                        old(slave).lanes@[i],
                        sync,
                        pm_index,
                        wave1,
                        wave2,
                        pw1@[i],
                        pw2@[i],
                    ).o2,
                forall|i: int|
                    v <= i < CHANNELS_PER_LAYER ==> #[trigger] self.lanes@[i] == old(
                        self,
                    ).lanes@[i],
                forall|i: int|
                    v <= i < CHANNELS_PER_LAYER ==> #[trigger] slave.lanes@[i] == old(
                        slave,
                    ).lanes@[i],
        {
            let next = pair_step(
                fpu,
                self.lanes[v],
                slave.lanes[v],
                sync,
                pm_index,
                wave1,
                wave2,
                pw1[v],
                pw2[v],
            );
            self.lanes[v] = next.master;
            slave.lanes[v] = next.slave;
            o1[v] = next.o1;
            o2[v] = next.o2;
        }
    }

    /// Hard sync alone, every voice by [`sync_step`].
    pub fn process_sync<A: Fn(Op, Plain, Plain) -> Plain>(
        &mut self,
        fpu: &Fpu<A>,
        slave: &mut PolyOscillator,
        wave1: Waveform,
        wave2: Waveform,
        pw1: &Lanes,
        pw2: &Lanes,
        o1: &mut Lanes,
        o2: &mut Lanes,
    )
        requires
            fpu.valid(),
        ensures
            forall|v: int|
                0 <= v < CHANNELS_PER_LAYER ==> #[trigger] final(self).lanes@[v] == sync_step(
                    fpu,
                    old(self).lanes@[v],
                    old(slave).lanes@[v],
                    wave1,
                    wave2,
                    pw1@[v],
                    pw2@[v],
                ).master,
            forall|v: int|
                0 <= v < CHANNELS_PER_LAYER ==> #[trigger] final(slave).lanes@[v] == sync_step(
                    fpu,
                    old(self).lanes@[v],
                    old(slave).lanes@[v],
                    wave1,
                    wave2,
                    pw1@[v],
                    pw2@[v],
                ).slave,
            forall|v: int|
                0 <= v < CHANNELS_PER_LAYER ==> #[trigger] final(o1)@[v] == sync_step(
                    fpu,
                    old(self).lanes@[v],
                    old(slave).lanes@[v],
                    wave1,
                    wave2,
                    pw1@[v],
                    pw2@[v],
                ).o1,
            forall|v: int|
                0 <= v < CHANNELS_PER_LAYER ==> #[trigger] final(o2)@[v] == sync_step(
                    fpu,
                    old(self).lanes@[v],
                    old(slave).lanes@[v],
                    wave1,
                    wave2,
                    pw1@[v],
                    pw2@[v],
                ).o2,
    {
        for v in 0..CHANNELS_PER_LAYER
            invariant
                fpu.valid(),
                forall|i: int|
                    0 <= i < v ==> #[trigger] self.lanes@[i] == sync_step(
                        fpu,
                        old(self).lanes@[i],
                        old(slave).lanes@[i],
                        wave1,
                        wave2,
                        pw1@[i],
                        pw2@[i],
                    ).master,
                forall|i: int|
                    0 <= i < v ==> #[trigger] slave.lanes@[i] == sync_step(
                        fpu,
                        old(self).lanes@[i],
                        old(slave).lanes@[i],
                        wave1,
                        wave2,
                        pw1@[i],
                        pw2@[i],
                    ).slave,
                forall|i: int|
                    0 <= i < v ==> #[trigger] o1@[i] == sync_step(
                        fpu,
                        old(self).lanes@[i],
                        old(slave).lanes@[i],
                        wave1,
                        wave2,
                        pw1@[i],
                        pw2@[i],
                    ).o1,
                forall|i: int|
                    0 <= i < v ==> #[trigger] o2@[i] == sync_step(
                        fpu,
                        old(self).lanes@[i],
                        old(slave).lanes@[i],
                        wave1,
                        wave2,
                        pw1@[i],
                        pw2@[i],
                    ).o2,
                forall|i: int|
                    v <= i < CHANNELS_PER_LAYER ==> #[trigger] self.lanes@[i] == old(
                        self,
                    ).lanes@[i],
                forall|i: int|
                    v <= i < CHANNELS_PER_LAYER ==> #[trigger] slave.lanes@[i] == old(
                        slave,
                    ).lanes@[i],
        {
            let next = sync_step(fpu, self.lanes[v], slave.lanes[v], wave1, wave2, pw1[v], pw2[v]);
            self.lanes[v] = next.master;
            slave.lanes[v] = next.slave;
            o1[v] = next.o1;
            o2[v] = next.o2;
        }
    }

    /// Phase modulation alone, every voice by [`pm_step`].
    pub fn process_pm<A: Fn(Op, Plain, Plain) -> Plain>(
        &mut self,
        fpu: &Fpu<A>,
        slave: &mut PolyOscillator,
        pm_index: Plain,
        wave1: Waveform,
        wave2: Waveform,
        pw1: &Lanes,
        pw2: &Lanes,
        o1: &mut Lanes,
        o2: &mut Lanes,
    )
        requires
            fpu.valid(),
        ensures
            forall|v: int|
                0 <= v < CHANNELS_PER_LAYER ==> #[trigger] final(self).lanes@[v] == pm_step(
                    fpu,
                    old(self).lanes@[v],
                    old(slave).lanes@[v],
                    pm_index,
                    wave1,
                    wave2,
                    pw1@[v],
                    pw2@[v],
                ).master,
            forall|v: int|
                0 <= v < CHANNELS_PER_LAYER ==> #[trigger] final(slave).lanes@[v] == pm_step(
                    fpu,
                    old(self).lanes@[v],
                    old(slave).lanes@[v],
                    pm_index,
                    wave1,
                    wave2,
                    pw1@[v],
                    pw2@[v],
                ).slave,
            forall|v: int|
                0 <= v < CHANNELS_PER_LAYER ==> #[trigger] final(o1)@[v] == pm_step(
                    fpu,
                    old(self).lanes@[v],
                    old(slave).lanes@[v],
                    pm_index,
                    wave1,
                    wave2,
                    pw1@[v],
                    pw2@[v],
                ).o1,
            forall|v: int|
                0 <= v < CHANNELS_PER_LAYER ==> #[trigger] final(o2)@[v] == pm_step(
                    fpu,
                    old(self).lanes@[v],
                    old(slave).lanes@[v],
                    pm_index,
                    wave1,
                    wave2,
                    pw1@[v],
                    pw2@[v],
                ).o2,
    {
        for v in 0..CHANNELS_PER_LAYER
            invariant
                fpu.valid(),
                forall|i: int|
                    0 <= i < v ==> #[trigger] self.lanes@[i] == pm_step(
                        fpu,
                        old(self).lanes@[i],
                        old(slave).lanes@[i],
                        pm_index,
                        wave1,
                        wave2,
                        pw1@[i],
                        pw2@[i],
                    ).master,
                forall|i: int|
                    0 <= i < v ==> #[trigger] slave.lanes@[i] == pm_step(
                        fpu,
                        old(self).lanes@[i],
                        old(slave).lanes@[i],
                        pm_index,
                        wave1,
                        wave2,
                        pw1@[i],
                        pw2@[i],
                    ).slave,
                forall|i: int|
                    0 <= i < v ==> #[trigger] o1@[i] == pm_step(
                        fpu,
                        old(self).lanes@[i],
                        old(slave).lanes@[i],
                        pm_index,
                        wave1,
                        wave2,
                        pw1@[i],
                        pw2@[i],
                    ).o1,
                forall|i: int|
                    0 <= i < v ==> #[trigger] o2@[i] == pm_step(
                        fpu,
                        old(self).lanes@[i],
                        old(slave).lanes@[i],
                        pm_index,
                        wave1,
                        wave2,
                        pw1@[i],
                        pw2@[i],
                    ).o2,
                forall|i: int|
                    v <= i < CHANNELS_PER_LAYER ==> #[trigger] self.lanes@[i] == old(
                        self,
                    ).lanes@[i],
                forall|i: int|
                    v <= i < CHANNELS_PER_LAYER ==> #[trigger] slave.lanes@[i] == old(
                        slave,
                    ).lanes@[i],
        {
            let next = pm_step(
                fpu,
                self.lanes[v],
                slave.lanes[v],
                pm_index,
                wave1,
                wave2,
                pw1[v],
                pw2[v],
            );
            self.lanes[v] = next.master;
            slave.lanes[v] = next.slave;
            o1[v] = next.o1;
            o2[v] = next.o2;
        }
    }
}

pub open spec fn spec_ring_diode<A: Fn(Op, Plain, Plain) -> Plain>(
    fpu: &Fpu<A>,
    x: Plain,
    gain: Plain,
) -> Plain {
    let i = fpu.mul(x, gain);
    let i2 = fpu.mul(i, i);
    let i3 = fpu.mul(i2, i);
    let i4 = fpu.mul(i3, i);
    let i5 = fpu.mul(i4, i);
    let v = fpu.add(
        fpu.add(
            fpu.add(
                fpu.add(
                    fpu.add(fpu.mul(i5, num(MINUS_F0_0025)), fpu.mul(i4, num(F0_0451))),
                    fpu.mul(i3, num(MINUS_F0_3043)),
                ),
                fpu.mul(i2, num(F0_9589)),
            ),
            fpu.mul(i, num(MINUS_F0_3828)),
        ),
        num(F0_0061),
    );
    fpu.mul(fpu.div(tanh_c(fpu, v), gain), mask(num(ZERO).less(x)))
}

/// Half-wave diode: a fifth-order fit of its curve, softly clipped and compensated
/// for `gain`. Nothing passes for inputs that are not positive.
#[verifier::when_used_as_spec(spec_ring_diode)]
pub fn ring_diode<A: Fn(Op, Plain, Plain) -> Plain>(
    fpu: &Fpu<A>,
    x: Plain,
    gain: Plain,
) -> (r: Plain)
    requires
        fpu.valid(),
    ensures
        r == ring_diode(fpu, x, gain),
{
    let i = fpu.mul(x, gain);
    let i2 = fpu.mul(i, i);
    let i3 = fpu.mul(i2, i);
    let i4 = fpu.mul(i3, i);
    let i5 = fpu.mul(i4, i);
    let v = fpu.add(
        fpu.add(
            fpu.add(
                fpu.add(
                    fpu.add(fpu.mul(i5, num(MINUS_F0_0025)), fpu.mul(i4, num(F0_0451))),
                    fpu.mul(i3, num(MINUS_F0_3043)),
                ),
                fpu.mul(i2, num(F0_9589)),
            ),
            fpu.mul(i, num(MINUS_F0_3828)),
        ),
        num(F0_0061),
    );
    fpu.mul(fpu.div(tanh_c(fpu, v), gain), mask(num(ZERO).less(x)))
}

pub open spec fn spec_ring_diode_block<A: Fn(Op, Plain, Plain) -> Plain>(
    fpu: &Fpu<A>,
    x: Plain,
    gain: Plain,
) -> Plain {
    fpu.add(ring_diode(fpu, x, gain), ring_diode(fpu, x.neg(), gain))
}

/// Push-pull pair of diodes: both polarities of `x`.
#[verifier::when_used_as_spec(spec_ring_diode_block)]
pub fn ring_diode_block<A: Fn(Op, Plain, Plain) -> Plain>(
    fpu: &Fpu<A>,
    x: Plain,
    gain: Plain,
) -> (r: Plain)
    requires
        fpu.valid(),
    ensures
        r == ring_diode_block(fpu, x, gain),
{
    fpu.add(ring_diode(fpu, x, gain), ring_diode(fpu, x.neg(), gain))
}

pub open spec fn spec_ring_sample<A: Fn(Op, Plain, Plain) -> Plain>(
    fpu: &Fpu<A>,
    o1: Plain,
    o2: Plain,
    gain: Plain,
) -> Plain {
    let c = fpu.mul(o2, num(HALF));
    fpu.sub(
        ring_diode_block(fpu, fpu.add(o1, c), gain),
        ring_diode_block(fpu, fpu.sub(o1, c), gain),
    )
}

/// Diode-bridge ring modulation of two samples.
#[verifier::when_used_as_spec(spec_ring_sample)]
pub fn ring_sample<A: Fn(Op, Plain, Plain) -> Plain>(
    fpu: &Fpu<A>,
    o1: Plain,
    o2: Plain,
    gain: Plain,
) -> (r: Plain)
    requires
        fpu.valid(),
    ensures
        r == ring_sample(fpu, o1, o2, gain),
{
    let c = fpu.mul(o2, num(HALF));
    fpu.sub(
        ring_diode_block(fpu, fpu.add(o1, c), gain),
        ring_diode_block(fpu, fpu.sub(o1, c), gain),
    )
}

/// A pair of diodes hears both polarities alike, where the order of two summands does not
/// matter.
pub proof fn lemma_diodes_are_even<A: Fn(Op, Plain, Plain) -> Plain>(
    fpu: &Fpu<A>,
    x: Plain,
    gain: Plain,
)
    requires
        fpu.add(ring_diode(fpu, x, gain), ring_diode(fpu, x.neg(), gain)) == fpu.add(
            ring_diode(fpu, x.neg(), gain),
            ring_diode(fpu, x, gain),
        ),
    ensures
        ring_diode_block(fpu, x.neg(), gain) == ring_diode_block(fpu, x, gain),
{
    assert(x.neg().neg() == x);
}

/// A ring modulator is silent without its carrier, and without its signal: both bridges then
/// hear the same, or the same turned over, and the arithmetic unit takes a value off itself to
/// zero.
pub proof fn lemma_ring_needs_both<A: Fn(Op, Plain, Plain) -> Plain>(
    fpu: &Fpu<A>,
    o1: Plain,
    o2: Plain,
    gain: Plain,
)
    requires
        ({
            let c = fpu.mul(o2, num(HALF));
            let (u, v) = (fpu.add(o1, c), fpu.sub(o1, c));
            let heard = ring_diode_block(fpu, u, gain);
            &&& fpu.sub(heard, heard) == num(ZERO)
            &&& u == v || (v == u.neg() && fpu.add(
                ring_diode(fpu, u, gain),
                ring_diode(fpu, v, gain),
            ) == fpu.add(ring_diode(fpu, v, gain), ring_diode(fpu, u, gain)))
        }),
    ensures
        ring_sample(fpu, o1, o2, gain) == num(ZERO),
{
    let u = fpu.add(o1, fpu.mul(o2, num(HALF)));
    assert(u.neg().neg() == u);
}

/// Diode-bridge ring modulator over a layer's voices.
pub fn poly_ring_mod<A: Fn(Op, Plain, Plain) -> Plain>(
    fpu: &Fpu<A>,
    o1: &Lanes,
    o2: &Lanes,
    gain: Plain,
    out: &mut Lanes,
)
    requires
        fpu.valid(),
    ensures
        forall|v: int|
            0 <= v < CHANNELS_PER_LAYER ==> #[trigger] final(out)@[v] == ring_sample(
                fpu,
                o1@[v],
                o2@[v],
                gain,
            ),
{
    for v in 0..CHANNELS_PER_LAYER
        invariant
            fpu.valid(),
            forall|i: int|
                0 <= i < v ==> #[trigger] out@[i] == ring_sample(fpu, o1@[i], o2@[i], gain),
    {
        out[v] = ring_sample(fpu, o1[v], o2[v], gain);
    }
}

pub open spec fn spec_sub_sample<A: Fn(Op, Plain, Plain) -> Plain>(
    fpu: &Fpu<A>,
    phase: Plain,
    dt: Plain,
    high: bool,
) -> Plain {
    let s = if high {
        num(ONE)
    } else {
        num(MINUS_ONE)
    };
    let d = dt.max(num(F0_000000000001));
    fpu.sub(fpu.add(s, fpu.mul(s, blep_rise(fpu, phase, d))), fpu.mul(s, blep_fall(fpu, phase, d)))
}

/// A square that changes sign at every wrap of the phase, with its edges
/// band-limited.
#[verifier::when_used_as_spec(spec_sub_sample)]
pub fn sub_sample<A: Fn(Op, Plain, Plain) -> Plain>(
    fpu: &Fpu<A>,
    phase: Plain,
    dt: Plain,
    high: bool,
) -> (r: Plain)
    requires
        fpu.valid(),
    ensures
        r == sub_sample(fpu, phase, dt, high),
{
    let s = if high {
        num(ONE)
    } else {
        num(MINUS_ONE)
    };
    let d = dt.max(num(F0_000000000001));
    fpu.sub(fpu.add(s, fpu.mul(s, blep_rise(fpu, phase, d))), fpu.mul(s, blep_fall(fpu, phase, d)))
}

/// The sub-oscillators of a layer: squares one octave below the phases given, with
/// the sign that `osc` holds.
pub fn poly_sub_square<A: Fn(Op, Plain, Plain) -> Plain>(
    fpu: &Fpu<A>,
    source: &PolyOscillator,
    osc: &PolyOscillator,
    out: &mut Lanes,
)
    requires
        fpu.valid(),
    ensures
        forall|v: int|
            0 <= v < CHANNELS_PER_LAYER ==> #[trigger] final(out)@[v] == sub_sample(
                fpu,
                source.lanes@[v].phase,
                source.lanes@[v].inc,
                osc.lanes@[v].sub_high,
            ),
{
    for v in 0..CHANNELS_PER_LAYER
        invariant
            fpu.valid(),
            forall|i: int|
                0 <= i < v ==> #[trigger] out@[i] == sub_sample(
                    fpu,
                    source.lanes@[i].phase,
                    source.lanes@[i].inc,
                    osc.lanes@[i].sub_high,
                ),
    {
        let lane = source.lanes[v];
        out[v] = sub_sample(fpu, lane.phase, lane.inc, osc.lanes[v].sub_high);
    }
}

/// The noise generators of a layer, one stream per voice.
#[derive(Clone, Copy)]
pub struct PolyNoiseBank {
    pub lanes: [NoiseSource; CHANNELS_PER_LAYER],
}

impl PolyNoiseBank {
    /// No generator is stuck.
    pub open spec fn wf(&self) -> bool {
        forall|v: int| 0 <= v < CHANNELS_PER_LAYER ==> (#[trigger] self.lanes@[v]).wf()
    }

    /// The seed of voice `v`'s stream.
    pub open spec fn spec_seed(base: u64, v: usize) -> u64 {
        base.wrapping_mul(0x9e37_79b9_7f4a_7c15).wrapping_add(
            ((v + 1) as u64).wrapping_mul(0xbf58_476d_1ce4_e5b9),
        )
    }

    #[verifier::when_used_as_spec(spec_seed)]
    fn seed(base: u64, v: usize) -> (r: u64)
        requires
            v < CHANNELS_PER_LAYER,
        ensures
            r == PolyNoiseBank::seed(base, v),
    {
        base.wrapping_mul(0x9e37_79b9_7f4a_7c15).wrapping_add(
            ((v + 1) as u64).wrapping_mul(0xbf58_476d_1ce4_e5b9),
        )
    }

    pub fn new(base: u64) -> (r: Self)
        ensures
            r.wf(),
            forall|v: int|
                0 <= v < CHANNELS_PER_LAYER ==> #[trigger] r.lanes@[v] == (NoiseSource {
                    state: PolyNoiseBank::spec_seed(base, v as usize) | 1,
                    pink: PinkFilter::silent(),
                    brown: BrownFilter { state: num(ZERO) },
                }),
    {
        let mut r = PolyNoiseBank { lanes: splat(NoiseSource::new(base)) };
        for v in 0..CHANNELS_PER_LAYER
            invariant
                forall|i: int|
                    0 <= i < v ==> #[trigger] r.lanes@[i] == (NoiseSource {
                        state: PolyNoiseBank::spec_seed(base, i as usize) | 1,
                        pink: PinkFilter::silent(),
                        brown: BrownFilter { state: num(ZERO) },
                    }) && r.lanes@[i].wf(),
        {
            r.lanes[v] = NoiseSource::new(PolyNoiseBank::seed(base, v));
        }
        r
    }

    /// Silence the shapers of every voice. The generators run on.
    pub fn reset(&mut self)
        ensures
            old(self).wf() ==> final(self).wf(),
            forall|v: int|
                0 <= v < CHANNELS_PER_LAYER ==> #[trigger] final(self).lanes@[v] == (NoiseSource {
                    state: old(self).lanes@[v].state,
                    pink: PinkFilter::silent(),
                    brown: BrownFilter { state: num(ZERO) },
                }),
    {
        for v in 0..CHANNELS_PER_LAYER
            invariant
                forall|i: int|
                    0 <= i < v ==> #[trigger] self.lanes@[i] == (NoiseSource {
                        state: old(self).lanes@[i].state,
                        pink: PinkFilter::silent(),
                        brown: BrownFilter { state: num(ZERO) },
                    }),
                forall|i: int|
                    v <= i < CHANNELS_PER_LAYER ==> #[trigger] self.lanes@[i] == old(
                        self,
                    ).lanes@[i],
        {
            let mut lane = self.lanes[v];
            lane.reset();
            self.lanes[v] = lane;
        }
    }

    /// One sample per voice in the given colour.
    pub fn process<A: Fn(Op, Plain, Plain) -> Plain>(
        &mut self,
        fpu: &Fpu<A>,
        color: NoiseColor,
        out: &mut Lanes,
    )
        requires
            fpu.valid(),
        ensures
            old(self).wf() ==> final(self).wf(),
            forall|v: int|
                0 <= v < CHANNELS_PER_LAYER ==> #[trigger] final(self).lanes@[v] == old(
                    self,
                ).lanes@[v].stepped(fpu, color).0,
            forall|v: int|
                0 <= v < CHANNELS_PER_LAYER ==> #[trigger] final(out)@[v] == old(
                    self,
                ).lanes@[v].stepped(fpu, color).1,
    {
        for v in 0..CHANNELS_PER_LAYER
            invariant
                fpu.valid(),
                forall|i: int|
                    0 <= i < v ==> (old(self).wf() ==> (#[trigger] self.lanes@[i]).wf())
                        && self.lanes@[i] == old(self).lanes@[i].stepped(fpu, color).0,
                forall|i: int|
                    0 <= i < v ==> #[trigger] out@[i] == old(self).lanes@[i].stepped(fpu, color).1,
                forall|i: int|
                    v <= i < CHANNELS_PER_LAYER ==> #[trigger] self.lanes@[i] == old(
                        self,
                    ).lanes@[i],
        {
            let mut lane = self.lanes[v];
            out[v] = lane.next(fpu, color);
            self.lanes[v] = lane;
        }
    }
}

/// Filter response.
#[derive(Clone, Copy, Debug, PartialEq, Eq, Structural)]
pub enum FilterMode {
    Lp,
    Hp,
    Bp,
    Notch,
}

/// Filter slope.
#[derive(Clone, Copy, Debug, PartialEq, Eq, Structural)]
pub enum FilterSlope {
    /// 12 dB per octave.
    Pole2,
    /// 24 dB per octave.
    Pole4,
}

/// One voice's filter: its coefficients, how far they move each sample and where
/// they are headed, and the state of the four stages.
#[derive(Clone, Copy, Debug, PartialEq, Eq, Structural)]
pub struct OtaLane {
    pub now: OtaLadderCoeffs,
    pub step: OtaLadderCoeffs,
    pub target: OtaLadderCoeffs,
    pub s0: Plain,
    pub s1: Plain,
    pub s2: Plain,
    pub s3: Plain,
    pub y4: Plain,
}

impl OtaLane {
    pub open spec fn fresh() -> Self {
        let c = OtaLadderCoeffs { g: num(HALF), k: num(ZERO), drive: num(ONE) };
        OtaLane {
            now: c,
            step: OtaLadderCoeffs { g: num(ZERO), k: num(ZERO), drive: num(ZERO) },
            target: c,
            s0: num(ZERO),
            s1: num(ZERO),
            s2: num(ZERO),
            s3: num(ZERO),
            y4: num(ZERO),
        }
    }

    /// The lane with its state silenced.
    pub open spec fn silenced(self) -> Self {
        OtaLane {
            s0: num(ZERO),
            s1: num(ZERO),
            s2: num(ZERO),
            s3: num(ZERO),
            y4: num(ZERO),
            ..self
        }
    }

    /// The lane with its coefficients at their target.
    pub open spec fn snapped(self) -> Self {
        OtaLane {
            now: self.target,
            step: OtaLadderCoeffs { g: num(ZERO), k: num(ZERO), drive: num(ZERO) },
            ..self
        }
    }
}

pub open spec fn spec_open_stage<A: Fn(Op, Plain, Plain) -> Plain>(
    fpu: &Fpu<A>,
    input: Plain,
    state: Plain,
    g: Plain,
) -> (Plain, Plain) {
    let u = tanh_c(fpu, input);
    let a = fpu.mul(fpu.sub(u, state), g);
    let y = fpu.add(a, state);
    (fpu.add(y, a), y)
}

/// One saturating stage: the next state and the output.
#[verifier::when_used_as_spec(spec_open_stage)]
pub fn open_stage<A: Fn(Op, Plain, Plain) -> Plain>(
    fpu: &Fpu<A>,
    input: Plain,
    state: Plain,
    g: Plain,
) -> (r: (Plain, Plain))
    requires
        fpu.valid(),
    ensures
        r == open_stage(fpu, input, state, g),
{
    let u = tanh_c(fpu, input);
    let a = fpu.mul(fpu.sub(u, state), g);
    let y = fpu.add(a, state);
    (fpu.add(y, a), y)
}

pub open spec fn spec_ramp_toward<A: Fn(Op, Plain, Plain) -> Plain>(
    fpu: &Fpu<A>,
    now: OtaLadderCoeffs,
    target: OtaLadderCoeffs,
    inv: Plain,
) -> OtaLadderCoeffs {
    OtaLadderCoeffs {
        g: fpu.mul(fpu.sub(target.g, now.g), inv),
        k: fpu.mul(fpu.sub(target.k, now.k), inv),
        drive: fpu.mul(fpu.sub(target.drive, now.drive), inv),
    }
}

/// The step that covers `inv` of the way to the target.
#[verifier::when_used_as_spec(spec_ramp_toward)]
pub fn ramp_toward<A: Fn(Op, Plain, Plain) -> Plain>(
    fpu: &Fpu<A>,
    now: OtaLadderCoeffs,
    target: OtaLadderCoeffs,
    inv: Plain,
) -> (r: OtaLadderCoeffs)
    requires
        fpu.valid(),
    ensures
        r == ramp_toward(fpu, now, target, inv),
{
    OtaLadderCoeffs {
        g: fpu.mul(fpu.sub(target.g, now.g), inv),
        k: fpu.mul(fpu.sub(target.k, now.k), inv),
        drive: fpu.mul(fpu.sub(target.drive, now.drive), inv),
    }
}

pub open spec fn spec_response<A: Fn(Op, Plain, Plain) -> Plain>(
    fpu: &Fpu<A>,
    mode: FilterMode,
    poles: OtaPoles,
    u: Plain,
    y: (Plain, Plain, Plain, Plain),
) -> Plain {
    match mode {
        FilterMode::Lp => match poles {
            OtaPoles::Two => y.1,
            OtaPoles::Four => y.3,
        },
        FilterMode::Hp => match poles {
            OtaPoles::Two => fpu.add(fpu.sub(u, fpu.mul(num(TWO), y.0)), y.1),
            OtaPoles::Four => fpu.add(
                fpu.sub(
                    fpu.add(fpu.sub(u, fpu.mul(num(FOUR), y.0)), fpu.mul(num(F6), y.1)),
                    fpu.mul(num(FOUR), y.2),
                ),
                y.3,
            ),
        },
        FilterMode::Bp => match poles {
            OtaPoles::Two => fpu.mul(num(TWO), fpu.sub(y.0, y.1)),
            OtaPoles::Four => fpu.mul(
                num(FOUR),
                fpu.add(fpu.sub(y.1, fpu.mul(num(TWO), y.2)), y.3),
            ),
        },
        FilterMode::Notch => match poles {
            OtaPoles::Two => fpu.add(fpu.sub(u, fpu.mul(num(TWO), y.0)), fpu.mul(num(TWO), y.1)),
            OtaPoles::Four => fpu.add(
                fpu.sub(
                    fpu.add(fpu.sub(u, fpu.mul(num(FOUR), y.0)), fpu.mul(num(F8), y.1)),
                    fpu.mul(num(F8), y.2),
                ),
                fpu.mul(num(FOUR), y.3),
            ),
        },
    }
}

/// The output of a response: a stage, or the stages and the driven input `u` mixed
/// by binomial weights.
#[verifier::when_used_as_spec(spec_response)]
pub fn response<A: Fn(Op, Plain, Plain) -> Plain>(
    fpu: &Fpu<A>,
    mode: FilterMode,
    poles: OtaPoles,
    u: Plain,
    y: (Plain, Plain, Plain, Plain),
) -> (r: Plain)
    requires
        fpu.valid(),
    ensures
        r == response(fpu, mode, poles, u, y),
{
    match mode {
        FilterMode::Lp => match poles {
            OtaPoles::Two => y.1,
            OtaPoles::Four => y.3,
        },
        FilterMode::Hp => match poles {
            OtaPoles::Two => fpu.add(fpu.sub(u, fpu.mul(num(TWO), y.0)), y.1),
            OtaPoles::Four => fpu.add(
                fpu.sub(
                    fpu.add(fpu.sub(u, fpu.mul(num(FOUR), y.0)), fpu.mul(num(F6), y.1)),
                    fpu.mul(num(FOUR), y.2),
                ),
                y.3,
            ),
        },
        FilterMode::Bp => match poles {
            OtaPoles::Two => fpu.mul(num(TWO), fpu.sub(y.0, y.1)),
            OtaPoles::Four => fpu.mul(
                num(FOUR),
                fpu.add(fpu.sub(y.1, fpu.mul(num(TWO), y.2)), y.3),
            ),
        },
        FilterMode::Notch => match poles {
            OtaPoles::Two => fpu.add(fpu.sub(u, fpu.mul(num(TWO), y.0)), fpu.mul(num(TWO), y.1)),
            OtaPoles::Four => fpu.add(
                fpu.sub(
                    fpu.add(fpu.sub(u, fpu.mul(num(FOUR), y.0)), fpu.mul(num(F8), y.1)),
                    fpu.mul(num(F8), y.2),
                ),
                fpu.mul(num(FOUR), y.3),
            ),
        },
    }
}

pub open spec fn spec_lane_step<A: Fn(Op, Plain, Plain) -> Plain>(
    fpu: &Fpu<A>,
    lane: OtaLane,
    mode: FilterMode,
    poles: OtaPoles,
    x: Plain,
) -> (OtaLane, Plain) {
    let c = lane.now;
    let fed = fpu.sub(fpu.mul(c.drive, x), fpu.mul(c.k, lane.y4));
    let (s0, y0) = open_stage(fpu, fed, lane.s0, c.g);
    let (s1, y1) = open_stage(fpu, y0, lane.s1, c.g);
    let (s2, y2) = open_stage(fpu, y1, lane.s2, c.g);
    let (s3, y3) = open_stage(fpu, y2, lane.s3, c.g);
    let now = OtaLadderCoeffs {
        g: fpu.add(c.g, lane.step.g),
        k: fpu.add(c.k, lane.step.k),
        drive: fpu.add(c.drive, lane.step.drive),
    };
    let out = response(fpu, mode, poles, fed, (y0, y1, y2, y3));
    (OtaLane { now, step: lane.step, target: lane.target, s0, s1, s2, s3, y4: y3 }, out)
}

/// One sample of one voice: the stages, the output, and the coefficients one step
/// further along their ramp.
#[verifier::when_used_as_spec(spec_lane_step)]
pub fn lane_step<A: Fn(Op, Plain, Plain) -> Plain>(
    fpu: &Fpu<A>,
    lane: OtaLane,
    mode: FilterMode,
    poles: OtaPoles,
    x: Plain,
) -> (r: (OtaLane, Plain))
    requires
        fpu.valid(),
    ensures
        r == lane_step(fpu, lane, mode, poles, x),
{
    let c = lane.now;
    let fed = fpu.sub(fpu.mul(c.drive, x), fpu.mul(c.k, lane.y4));
    let (s0, y0) = open_stage(fpu, fed, lane.s0, c.g);
    let (s1, y1) = open_stage(fpu, y0, lane.s1, c.g);
    let (s2, y2) = open_stage(fpu, y1, lane.s2, c.g);
    let (s3, y3) = open_stage(fpu, y2, lane.s3, c.g);
    let now = OtaLadderCoeffs {
        g: fpu.add(c.g, lane.step.g),
        k: fpu.add(c.k, lane.step.k),
        drive: fpu.add(c.drive, lane.step.drive),
    };
    let out = response(fpu, mode, poles, fed, (y0, y1, y2, y3));
    (OtaLane { now, step: lane.step, target: lane.target, s0, s1, s2, s3, y4: y3 }, out)
}

/// The ladder filters of a layer. Coefficients ramp linearly across each control
/// block: [`Self::set_coeffs`] gives the targets, [`Self::prepare_ramp`] the slope.
#[derive(Clone, Copy)]
pub struct PolyOtaLadder {
    pub lanes: [OtaLane; CHANNELS_PER_LAYER],
    pub mode: FilterMode,
    pub poles: OtaPoles,
}

impl Default for PolyOtaLadder {
    fn default() -> (r: Self)
        ensures
            r.mode == FilterMode::Lp,
            r.poles == OtaPoles::Four,
            forall|v: int|
                0 <= v < CHANNELS_PER_LAYER ==> #[trigger] r.lanes@[v] == OtaLane::fresh(),
    {
        PolyOtaLadder::new()
    }
}

impl PolyOtaLadder {
    pub fn new() -> (r: Self)
        ensures
            r.mode == FilterMode::Lp,
            r.poles == OtaPoles::Four,
            forall|v: int|
                0 <= v < CHANNELS_PER_LAYER ==> #[trigger] r.lanes@[v] == OtaLane::fresh(),
    {
        let c = OtaLadderCoeffs { g: num(HALF), k: num(ZERO), drive: num(ONE) };
        let lane = OtaLane {
            now: c,
            step: OtaLadderCoeffs { g: num(ZERO), k: num(ZERO), drive: num(ZERO) },
            target: c,
            s0: num(ZERO),
            s1: num(ZERO),
            s2: num(ZERO),
            s3: num(ZERO),
            y4: num(ZERO),
        };
        PolyOtaLadder { lanes: splat(lane), mode: FilterMode::Lp, poles: OtaPoles::Four }
    }

    /// Silence every voice. Coefficients and ramps stay.
    pub fn reset(&mut self)
        ensures
            final(self).mode == old(self).mode,
            final(self).poles == old(self).poles,
            forall|v: int|
                0 <= v < CHANNELS_PER_LAYER ==> #[trigger] final(self).lanes@[v] == old(
                    self,
                ).lanes@[v].silenced(),
    {
        for v in 0..CHANNELS_PER_LAYER
            invariant
                self.mode == old(self).mode,
                self.poles == old(self).poles,
                forall|i: int|
                    0 <= i < v ==> #[trigger] self.lanes@[i] == old(self).lanes@[i].silenced(),
                forall|i: int|
                    v <= i < CHANNELS_PER_LAYER ==> #[trigger] self.lanes@[i] == old(
                        self,
                    ).lanes@[i],
        {
            let mut lane = self.lanes[v];
            lane.s0 = num(ZERO);
            lane.s1 = num(ZERO);
            lane.s2 = num(ZERO);
            lane.s3 = num(ZERO);
            lane.y4 = num(ZERO);
            self.lanes[v] = lane;
        }
    }

    /// Set the output slope of the layer. The feedback path is unchanged.
    pub fn set_poles(&mut self, poles: OtaPoles)
        ensures
            *final(self) == (PolyOtaLadder { poles, ..*old(self) }),
    {
        self.poles = poles;
    }

    pub fn poles(&self) -> (r: OtaPoles)
        ensures
            r == self.poles,
    {
        self.poles
    }

    pub open spec fn poles_of(slope: FilterSlope) -> OtaPoles {
        match slope {
            FilterSlope::Pole2 => OtaPoles::Two,
            FilterSlope::Pole4 => OtaPoles::Four,
        }
    }

    /// Set the response and slope of the layer. The feedback path is unchanged.
    pub fn set_response(&mut self, mode: FilterMode, slope: FilterSlope)
        ensures
            *final(self) == (PolyOtaLadder {
                mode,
                poles: PolyOtaLadder::poles_of(slope),
                ..*old(self)
            }),
    {
        self.mode = mode;
        self.poles = match slope {
            FilterSlope::Pole2 => OtaPoles::Two,
            FilterSlope::Pole4 => OtaPoles::Four,
        };
    }

    /// Set this block's target coefficients for voice `v`.
    pub fn set_coeffs(&mut self, v: usize, c: OtaLadderCoeffs)
        requires
            v < CHANNELS_PER_LAYER,
        ensures
            final(self).mode == old(self).mode,
            final(self).poles == old(self).poles,
            final(self).lanes@ == old(self).lanes@.update(
                v as int,
                OtaLane { target: c, ..old(self).lanes@[v as int] },
            ),
    {
        let mut lane = self.lanes[v];
        lane.target = c;
        self.lanes[v] = lane;
    }

    /// What a lane becomes when a ramp over `steps` samples is prepared: the slope
    /// that reaches the target after exactly that many, or the target at once for a
    /// single sample or none.
    pub open spec fn ramped<A: Fn(Op, Plain, Plain) -> Plain>(
        fpu: &Fpu<A>,
        lane: OtaLane,
        steps: usize,
    ) -> OtaLane {
        if steps <= 1 {
            lane.snapped()
        } else {
            let inv = fpu.div(num(ONE), Plain::from_index(steps));
            OtaLane { step: ramp_toward(fpu, lane.now, lane.target, inv), ..lane }
        }
    }

    /// Prepare the ramp of every voice over the next `steps` samples.
    pub fn prepare_ramp<A: Fn(Op, Plain, Plain) -> Plain>(&mut self, fpu: &Fpu<A>, steps: usize)
        requires
            fpu.valid(),
        ensures
            final(self).mode == old(self).mode,
            final(self).poles == old(self).poles,
            forall|v: int|
                0 <= v < CHANNELS_PER_LAYER ==> #[trigger] final(self).lanes@[v]
                    == PolyOtaLadder::ramped(fpu, old(self).lanes@[v], steps),
    {
        if steps <= 1 {
            self.snap_coeffs();
            return;
        }
        let inv = fpu.div(num(ONE), Plain::from_index(steps));
        for v in 0..CHANNELS_PER_LAYER
            invariant
                fpu.valid(),
                steps > 1,
                inv == fpu.div(num(ONE), Plain::from_index(steps)),
                self.mode == old(self).mode,
                self.poles == old(self).poles,
                forall|i: int|
                    0 <= i < v ==> #[trigger] self.lanes@[i] == PolyOtaLadder::ramped(
                        fpu,
                        old(self).lanes@[i],
                        steps,
                    ),
                forall|i: int|
                    v <= i < CHANNELS_PER_LAYER ==> #[trigger] self.lanes@[i] == old(
                        self,
                    ).lanes@[i],
        {
            let mut lane = self.lanes[v];
            lane.step = ramp_toward(fpu, lane.now, lane.target, inv);
            self.lanes[v] = lane;
        }
    }

    /// Jump every voice's coefficients to their targets, with no ramp.
    pub fn snap_coeffs(&mut self)
        ensures
            final(self).mode == old(self).mode,
            final(self).poles == old(self).poles,
            forall|v: int|
                0 <= v < CHANNELS_PER_LAYER ==> #[trigger] final(self).lanes@[v] == old(
                    self,
                ).lanes@[v].snapped(),
    {
        for v in 0..CHANNELS_PER_LAYER
            invariant
                self.mode == old(self).mode,
                self.poles == old(self).poles,
                forall|i: int|
                    0 <= i < v ==> #[trigger] self.lanes@[i] == old(self).lanes@[i].snapped(),
                forall|i: int|
                    v <= i < CHANNELS_PER_LAYER ==> #[trigger] self.lanes@[i] == old(
                        self,
                    ).lanes@[i],
        {
            let mut lane = self.lanes[v];
            lane.now = lane.target;
            lane.step = OtaLadderCoeffs { g: num(ZERO), k: num(ZERO), drive: num(ZERO) };
            self.lanes[v] = lane;
        }
    }

    /// One sample per voice, every voice by [`lane_step`].
    pub fn process<A: Fn(Op, Plain, Plain) -> Plain>(
        &mut self,
        fpu: &Fpu<A>,
        x: &Lanes,
        out: &mut Lanes,
    )
        requires
            fpu.valid(),
        ensures
            final(self).mode == old(self).mode,
            final(self).poles == old(self).poles,
            forall|v: int|
                0 <= v < CHANNELS_PER_LAYER ==> #[trigger] final(self).lanes@[v] == lane_step(
                    fpu,
                    old(self).lanes@[v],
                    old(self).mode,
                    old(self).poles,
                    x@[v],
                ).0,
            forall|v: int|
                0 <= v < CHANNELS_PER_LAYER ==> #[trigger] final(out)@[v] == lane_step(
                    fpu,
                    old(self).lanes@[v],
                    old(self).mode,
                    old(self).poles,
                    x@[v],
                ).1,
    {
        for v in 0..CHANNELS_PER_LAYER
            invariant
                fpu.valid(),
                self.mode == old(self).mode,
                self.poles == old(self).poles,
                forall|i: int|
                    0 <= i < v ==> #[trigger] self.lanes@[i] == lane_step(
                        fpu,
                        old(self).lanes@[i],
                        old(self).mode,
                        old(self).poles,
                        x@[i],
                    ).0,
                forall|i: int|
                    0 <= i < v ==> #[trigger] out@[i] == lane_step(
                        fpu,
                        old(self).lanes@[i],
                        old(self).mode,
                        old(self).poles,
                        x@[i],
                    ).1,
                forall|i: int|
                    v <= i < CHANNELS_PER_LAYER ==> #[trigger] self.lanes@[i] == old(
                        self,
                    ).lanes@[i],
        {
            let (lane, y) = lane_step(fpu, self.lanes[v], self.mode, self.poles, x[v]);
            self.lanes[v] = lane;
            out[v] = y;
        }
    }
}

/// A voice's lane rings the same whatever response is listened to: neither the
/// mode nor the slope reaches the state.
pub proof fn lemma_response_leaves_loop_alone<A: Fn(Op, Plain, Plain) -> Plain>(
    fpu: &Fpu<A>,
    lane: OtaLane,
    x: Plain,
    mode1: FilterMode,
    poles1: OtaPoles,
    mode2: FilterMode,
    poles2: OtaPoles,
)
    ensures
        lane_step(fpu, lane, mode1, poles1, x).0 == lane_step(fpu, lane, mode2, poles2, x).0,
{
}

/// Clear of its edge a saw reads twice the phase less one, wherever that is a number: from
/// minus one at the start of the cycle up to one at its end.
pub proof fn lemma_saw_value<A: Fn(Op, Plain, Plain) -> Plain>(
    fpu: &Fpu<A>,
    p: Plain,
    pw: Plain,
    dt: Plain,
    n: int,
    r: Plain,
)
    requires
        fpu.rounds(),
        is_clear(p, dt, n),
        p.is_number() && r.is_number(),
        r.scaled() == 2 * p.scaled() - plain::unit(),
    ensures
        osc_sample(fpu, Waveform::Saw, p, pw, dt).equals(r),
{
    let d = dt.max(num(F0_000000000001));
    plain::lemma_small_values();
    plain::lemma_equal_scaled(d, p);
    plain::lemma_equal_scaled(num(F0_000000000001), d);
    plain::lemma_scaled_sign(num(F0_000000000001));
    lemma_residual_is_local(fpu, p, dt);
    math::lemma_ramp_value(fpu, p, r);
    let x = math::ramp(fpu, p);
    let z = pblep(fpu, p, dt);
    plain::lemma_equal_scaled(x, r);
    plain::lemma_zero_scaled(z);
    fpu.lemma_sub_side(x, z, r);
}

/// Clear of its edge a saw rises through the cycle.
pub proof fn lemma_saw_rises<A: Fn(Op, Plain, Plain) -> Plain>(
    fpu: &Fpu<A>,
    p: Plain,
    q: Plain,
    pw: Plain,
    dt: Plain,
    n: int,
)
    requires
        fpu.rounds(),
        is_clear(p, dt, n) && is_clear(q, dt, n),
        p.at_most(q),
    ensures
        osc_sample(fpu, Waveform::Saw, p, pw, dt).at_most(
            osc_sample(fpu, Waveform::Saw, q, pw, dt),
        ),
{
    let d = dt.max(num(F0_000000000001));
    plain::lemma_small_values();
    plain::lemma_equal_scaled(d, p);
    plain::lemma_equal_scaled(d, q);
    plain::lemma_equal_scaled(num(F0_000000000001), d);
    plain::lemma_scaled_sign(num(F0_000000000001));
    lemma_residual_is_local(fpu, p, dt);
    lemma_residual_is_local(fpu, q, dt);
    math::lemma_ramp_rises(fpu, p, q);
    math::lemma_ramp_bounds(fpu, p);
    math::lemma_ramp_bounds(fpu, q);
    let (x, y) = (math::ramp(fpu, p), math::ramp(fpu, q));
    let (v, w) = (pblep(fpu, p, dt), pblep(fpu, q, dt));
    plain::lemma_zero_scaled(v);
    plain::lemma_zero_scaled(w);
    plain::lemma_between_finite(num(MINUS_ONE), x, num(ONE));
    plain::lemma_between_finite(num(MINUS_ONE), y, num(ONE));
    plain::lemma_equal_scaled(x, y);
    fpu.lemma_sub_order(x, v, y, w);
}

/// A triangle rises to the middle of the cycle and falls from there, evenly on both sides,
/// from minus one up to one.
pub proof fn lemma_triangle_shape<A: Fn(Op, Plain, Plain) -> Plain>(
    fpu: &Fpu<A>,
    p: Plain,
    q: Plain,
    pw: Plain,
    dt: Plain,
)
    requires
        fpu.rounds(),
        math::is_phase(p) && math::is_phase(q),
        p.at_most(q),
    ensures
        ({
            let (a, b) = (
                osc_sample(fpu, Waveform::Triangle, p, pw, dt),
                osc_sample(fpu, Waveform::Triangle, q, pw, dt),
            );
            &&& 2 * q.scaled() <= plain::unit() ==> a.at_most(b)
            &&& 2 * p.scaled() >= plain::unit() ==> b.at_most(a)
            &&& p.scaled() + q.scaled() == plain::unit() ==> a.equals(b)
            &&& p.scaled() == 0 ==> a.equals(num(MINUS_ONE))
            &&& 2 * p.scaled() == plain::unit() ==> a.equals(num(ONE))
        }),
{
    math::lemma_tent_rises_and_falls(fpu, p, q);
    if p.scaled() + q.scaled() == plain::unit() {
        math::lemma_tent_is_even(fpu, p, q);
    }
    plain::lemma_small_values();
    if p.scaled() == 0 {
        math::lemma_tent_value(fpu, p, num(HALF), num(MINUS_ONE));
    }
    if 2 * p.scaled() == plain::unit() {
        math::lemma_tent_value(fpu, p, num(ZERO), num(ONE));
    }
}

/// A sine starts at zero, peaks a quarter into the cycle, and turns over in its second half.
pub proof fn lemma_sine_shape<A: Fn(Op, Plain, Plain) -> Plain>(
    fpu: &Fpu<A>,
    p: Plain,
    q: Plain,
    pw: Plain,
    dt: Plain,
)
    requires
        fpu.rounds(),
        math::is_phase(p) && math::is_phase(q),
        p.scaled() + q.scaled() == plain::unit(),
    ensures
        osc_sample(fpu, Waveform::Sine, q, pw, dt).rank() == -osc_sample(
            fpu,
            Waveform::Sine,
            p,
            pw,
            dt,
        ).rank(),
        osc_sample(fpu, Waveform::Sine, num(ZERO), pw, dt).is_zero(),
        osc_sample(fpu, Waveform::Sine, num(F0_25), pw, dt) == num(ONE),
{
    math::lemma_sine_is_odd(fpu, p, q);
    math::lemma_sine_quarters(fpu);
}

/// Where no edge is near, the band-limited waveform is the bare one.
pub proof fn lemma_bare_away_from_edges<A: Fn(Op, Plain, Plain) -> Plain>(
    fpu: &Fpu<A>,
    wave: Waveform,
    p: Plain,
    pw: Plain,
    dt: Plain,
    n: int,
)
    requires
        fpu.rounds(),
        is_clear(p, dt, n) && p.is_number(),
        wave == Waveform::Pulse ==> is_clear(pw, dt, n) && (p.scaled() + n * power2::pow2(126)
            <= pw.scaled() || pw.scaled() + n * power2::pow2(126) <= p.scaled()),
        wave == Waveform::Saw ==> naive_osc(fpu, wave, p, pw).is_number(),
    ensures
        osc_sample(fpu, wave, p, pw, dt).rank() == naive_osc(fpu, wave, p, pw).rank(),
{
    let d = dt.max(num(F0_000000000001));
    plain::lemma_small_values();
    plain::lemma_equal_scaled(d, p);
    plain::lemma_equal_scaled(num(F0_000000000001), d);
    plain::lemma_scaled_sign(num(F0_000000000001));
    if wave == Waveform::Saw {
        lemma_residual_is_local(fpu, p, dt);
        fpu.lemma_nothing_added(naive_osc(fpu, wave, p, pw), pblep(fpu, p, dt));
    }
    if wave == Waveform::Pulse {
        lemma_pulse_is_high_for_its_width(fpu, p, pw, dt, n);
        lemma_bare_pulse(fpu, p, pw);
    }
}

/// The bare pulse is high before its width and low from there on.
pub proof fn lemma_bare_pulse<A: Fn(Op, Plain, Plain) -> Plain>(
    fpu: &Fpu<A>,
    p: Plain,
    pw: Plain,
)
    requires
        fpu.rounds(),
        p.is_finite() && pw.is_finite(),
    ensures
        naive_osc(fpu, Waveform::Pulse, p, pw) == (if p.less(pw) {
            num(ONE)
        } else {
            num(MINUS_ONE)
        }),
{
    plain::lemma_small_values();
    let two_m = fpu.mul(num(TWO), mask(pw.at_most(p)));
    fpu.lemma_all_of(num(TWO));
    fpu.lemma_none_of(num(TWO), num(ZERO));
    let want = if p.less(pw) {
        num(ONE)
    } else {
        num(MINUS_ONE)
    };
    plain::lemma_equal_scaled(two_m, num(TWO));
    plain::lemma_scaled_sign(two_m);
    fpu.lemma_sub_side(num(ONE), two_m, want);
}

/// A phase moves on by its increment and loses a whole cycle at the end of one, and the
/// sub-oscillator changes over with every wrap and at no other time: it runs at half the
/// frequency.
pub proof fn lemma_phase_moves_on<A: Fn(Op, Plain, Plain) -> Plain>(
    fpu: &Fpu<A>,
    o: OscLane,
    r: Plain,
)
    requires
        fpu.rounds(),
        o.phase.is_finite() && o.inc.is_finite(),
        r.is_number(),
        r.scaled() == o.phase.scaled() + o.inc.scaled(),
    ensures
        r.scaled() < plain::unit() ==> o.advanced(fpu).phase.equals(r) && o.advanced(fpu).sub_high
            == o.sub_high,
        r.scaled() >= plain::unit() ==> o.advanced(fpu).sub_high == !o.sub_high && (forall|w: Plain|
            w.is_number() && w.scaled() == r.scaled() - plain::unit()
                ==> #[trigger] o.advanced(fpu).phase.equals(w)),
        o.advanced(fpu).inc == o.inc,
{
    plain::lemma_small_values();
    let np = fpu.add(o.phase, o.inc);
    fpu.lemma_add_side(o.phase, o.inc, r);
    plain::lemma_equal_scaled(np, r);
    plain::lemma_equal_scaled(num(ONE), np);
    if r.scaled() < plain::unit() {
        fpu.lemma_sub_side(np, num(ZERO), r);
    } else {
        assert forall|w: Plain|
            w.is_number() && w.scaled() == r.scaled() - plain::unit() implies #[trigger] o.advanced(
            fpu,
        ).phase.equals(w) by {
            fpu.lemma_sub_side(np, num(ONE), w);
        }
    }
}

/// A phase never leaves the cycle.
pub proof fn lemma_phase_stays_in_cycle<A: Fn(Op, Plain, Plain) -> Plain>(fpu: &Fpu<A>, o: OscLane)
    requires
        fpu.rounds(),
        math::is_phase(o.phase) && math::is_phase(o.inc),
    ensures
        math::is_phase(o.advanced(fpu).phase),
{
    plain::lemma_small_values();
    let np = fpu.add(o.phase, o.inc);
    fpu.lemma_add_side(o.phase, o.inc, num(ZERO));
    fpu.lemma_add_side(o.phase, o.inc, num(TWO));
    plain::lemma_between_finite(num(ZERO), np, num(TWO));
    plain::lemma_equal_scaled(num(ONE), np);
    let m = mask(num(ONE).at_most(np));
    fpu.lemma_sub_side(np, m, num(ZERO));
    fpu.lemma_sub_side(np, m, num(ONE));
    plain::lemma_between_finite(num(ZERO), fpu.sub(np, m), num(ONE));
}

/// Clear of its edges the sub-oscillator reads one where it is high and minus one where it is
/// not.
pub proof fn lemma_sub_is_a_square<A: Fn(Op, Plain, Plain) -> Plain>(
    fpu: &Fpu<A>,
    phase: Plain,
    dt: Plain,
    high: bool,
    n: int,
)
    requires
        fpu.rounds(),
        is_clear(phase, dt, n),
    ensures
        sub_sample(fpu, phase, dt, high) == (if high {
            num(ONE)
        } else {
            num(MINUS_ONE)
        }),
{
    let d = dt.max(num(F0_000000000001));
    plain::lemma_small_values();
    plain::lemma_equal_scaled(d, phase);
    plain::lemma_equal_scaled(num(F0_000000000001), d);
    plain::lemma_scaled_sign(num(F0_000000000001));
    lemma_residual_is_finite(fpu, phase, d);
    plain::lemma_equal_scaled(phase, num(ONE));
    fpu.lemma_sub_side(num(ONE), d, phase);
    let s = if high {
        num(ONE)
    } else {
        num(MINUS_ONE)
    };
    let a = fpu.div(phase, d);
    let b = fpu.div(fpu.sub(phase, num(ONE)), d);
    let (rise, fall) = (blep_rise(fpu, phase, d), blep_fall(fpu, phase, d));
    fpu.lemma_none_of(
        fpu.sub(fpu.sub(fpu.mul(num(TWO), a), fpu.mul(a, a)), num(ONE)),
        num(ZERO),
    );
    fpu.lemma_none_of(
        fpu.add(fpu.add(fpu.mul(b, b), fpu.mul(num(TWO), b)), num(ONE)),
        num(ZERO),
    );
    fpu.lemma_none_of(s, rise);
    fpu.lemma_none_of(s, fall);
    fpu.lemma_nothing_added(s, fpu.mul(s, rise));
    assert(fpu.add(s, fpu.mul(s, rise)) == s);
    fpu.lemma_nothing_added(s, fpu.mul(s, fall));
}

/// Where the reset of a hard sync falls: within the sample, and at its end where the master
/// reaches the end of its cycle with it.
proof fn lemma_sync_fraction<A: Fn(Op, Plain, Plain) -> Plain>(
    fpu: &Fpu<A>,
    np: Plain,
    inc: Plain,
)
    requires
        fpu.rounds(),
        np.is_finite() && plain::unit() <= np.scaled() <= 2 * plain::unit(),
        inc.is_finite(),
    ensures
        ({
            let frac = sync_fraction(fpu, np, inc);
            &&& frac.is_finite()
            &&& 0 <= frac.scaled() <= plain::unit()
            &&& np.scaled() == plain::unit() ==> frac == num(ONE)
        }),
{
    plain::lemma_small_values();
    let u = plain::unit();
    let d = inc.max(num(F0_000000000001));
    plain::lemma_equal_scaled(num(F0_000000000001), d);
    plain::lemma_scaled_sign(num(F0_000000000001));
    let over = fpu.sub(np, num(ONE));
    fpu.lemma_sub_side(np, num(ONE), num(ZERO));
    fpu.lemma_sub_side(np, num(ONE), num(ONE));
    plain::lemma_between_finite(num(ZERO), over, num(ONE));
    power2::lemma2_to64_rest();
    power2::lemma2_to64();
    plain::lemma_power_scaled(87);
    plain::lemma_power_scaled(167);
    plain::lemma_power_scaled(168);
    let low = Plain { bits: 0x2b80_0000 };
    let p40 = Plain { bits: 0x5380_0000 };
    let p41 = Plain { bits: 0x5400_0000 };
    plain::lemma_equal_scaled(low, d);
    let k: int = 0x100_0000_0000;
    let (ls, ds) = (low.scaled(), d.scaled());
    assert(u * u <= (k * u) * ds) by (nonlinear_arith)
        requires
            ls * k == u,
            ls <= ds,
            u > 0,
            k > 0,
    ;
    let q = fpu.div(over, d);
    fpu.lemma_div_within(over, d, u, p40);
    assert(u + k * u <= p41.scaled()) by (nonlinear_arith)
        requires
            p41.scaled() == (2 * k) * u,
            k >= 1,
            u > 0,
    ;
    fpu.lemma_add_within(num(ONE), q, u, k * u, p41);
    let f = fpu.sub(num(ONE), q);
    plain::lemma_equal_scaled(num(MIN_POSITIVE), num(ONE));
    plain::lemma_scaled_sign(num(MIN_POSITIVE));
    plain::lemma_equal_scaled(f, num(ONE));
    plain::lemma_equal_scaled(f, num(MIN_POSITIVE));
    if np.scaled() == u {
        fpu.lemma_sub_side(np, num(ONE), num(ZERO));
        plain::lemma_equal_scaled(over, num(ZERO));
        assert(0 * ds == 0 && 0 * u == 0) by (nonlinear_arith);
        fpu.lemma_div_side(over, d, num(ZERO));
        plain::lemma_equal_scaled(q, num(ZERO));
        fpu.lemma_sub_side(num(ONE), q, num(ONE));
        assert(f == num(ONE));
    }
}

/// Hard sync: when the master ends its cycle the slave starts its own again. It is then no
/// further in than one of its increments, and at the very start where the master ended its
/// cycle with the sample. The master itself runs on as it would alone.
pub proof fn lemma_sync_restarts_the_slave<A: Fn(Op, Plain, Plain) -> Plain>(
    fpu: &Fpu<A>,
    master: OscLane,
    slave: OscLane,
    wave1: Waveform,
    wave2: Waveform,
    pw1: Plain,
    pw2: Plain,
)
    requires
        fpu.rounds(),
        math::is_phase(master.phase) && math::is_phase(master.inc),
        math::is_phase(slave.phase) && math::is_phase(slave.inc) && slave.inc.is_number(),
        num(ONE).at_most(fpu.add(master.phase, master.inc)),
    ensures
        ({
            let s = sync_step(fpu, master, slave, wave1, wave2, pw1, pw2);
            &&& s.master == master.advanced(fpu)
            &&& s.slave.sync_pending == num(ONE)
            &&& 0 <= s.slave.phase.scaled() <= slave.inc.scaled()
            &&& fpu.add(master.phase, master.inc).equals(num(ONE)) ==> s.slave.phase.is_zero()
        }),
{
    plain::lemma_small_values();
    let u = plain::unit();
    let np = fpu.add(master.phase, master.inc);
    fpu.lemma_add_side(master.phase, master.inc, num(TWO));
    plain::lemma_between_finite(num(ONE), np, num(TWO));
    plain::lemma_equal_scaled(np, num(ONE));
    lemma_sync_fraction(fpu, np, master.inc);
    let frac = sync_fraction(fpu, np, master.inc);
    let dt = slave.inc;
    let rest = fpu.sub(num(ONE), frac);
    fpu.lemma_sub_side(num(ONE), frac, num(ZERO));
    fpu.lemma_sub_side(num(ONE), frac, num(ONE));
    plain::lemma_between_finite(num(ZERO), rest, num(ONE));
    let post = fpu.mul(rest, dt);
    let (a, b) = (rest.scaled(), dt.scaled());
    assert(0 * u <= a * b && a * b <= b * u) by (nonlinear_arith)
        requires
            0 <= a <= u,
            0 <= b,
    ;
    fpu.lemma_mul_side(rest, dt, num(ZERO));
    fpu.lemma_mul_side(rest, dt, dt);
    plain::lemma_between_finite(num(ZERO), post, dt);
    lemma_phase_stays_in_cycle(fpu, slave);
    let free = advance(fpu, slave.phase, dt);
    fpu.lemma_sub_side(num(ONE), num(ONE), num(ZERO));
    let z = fpu.mul(free, fpu.sub(num(ONE), num(ONE)));
    fpu.lemma_none_of(free, fpu.sub(num(ONE), num(ONE)));
    plain::lemma_zero_scaled(z);
    let kept = fpu.mul(post, num(ONE));
    let c = post.scaled();
    assert(0 * u <= c * u && c * u <= b * u) by (nonlinear_arith)
        requires
            0 <= c <= b,
            u > 0,
    ;
    fpu.lemma_mul_side(post, num(ONE), num(ZERO));
    fpu.lemma_mul_side(post, num(ONE), dt);
    plain::lemma_between_finite(num(ZERO), kept, dt);
    fpu.lemma_add_side(z, kept, num(ZERO));
    fpu.lemma_add_side(z, kept, dt);
    plain::lemma_between_finite(num(ZERO), fpu.add(z, kept), dt);
    if np.equals(num(ONE)) {
        fpu.lemma_sub_side(num(ONE), frac, num(ZERO));
        plain::lemma_equal_scaled(rest, num(ZERO));
        fpu.lemma_none_of(dt, rest);
        fpu.lemma_none_of(num(ONE), post);
        fpu.lemma_nothing_added(z, kept);
    }
}

/// Phase modulation reads the master at its phase moved by the index times the slave, round
/// the cycle; neither oscillator runs any other way for it.
pub proof fn lemma_pm_moves_the_reading<A: Fn(Op, Plain, Plain) -> Plain>(
    fpu: &Fpu<A>,
    master: OscLane,
    slave: OscLane,
    pm_index: Plain,
    wave1: Waveform,
    wave2: Waveform,
    pw1: Plain,
    pw2: Plain,
    by: Plain,
    to: Plain,
    at: Plain,
)
    requires
        fpu.rounds(),
        master.phase.is_finite() && pm_index.is_finite(),
        by.is_number() && to.is_normal() && at.is_normal(),
        osc_sample(fpu, wave2, slave.phase, pw2, slave.inc).is_finite(),
        by.scaled() * plain::unit() == pm_index.scaled() * osc_sample(
            fpu,
            wave2,
            slave.phase,
            pw2,
            slave.inc,
        ).scaled(),
        to.scaled() == master.phase.scaled() + by.scaled(),
        0 <= to.scaled() < 2 * plain::unit(),
        at.scaled() == to.scaled() || at.scaled() == to.scaled() - plain::unit(),
        0 <= at.scaled() < plain::unit(),
    ensures
        ({
            let s = pm_step(fpu, master, slave, pm_index, wave1, wave2, pw1, pw2);
            &&& s.o1 == osc_sample(fpu, wave1, at, pw1, master.inc)
            &&& s.o2 == osc_sample(fpu, wave2, slave.phase, pw2, slave.inc)
            &&& s.master == master.advanced(fpu)
            &&& s.slave.phase == slave.advanced(fpu).phase
        }),
{
    plain::lemma_small_values();
    let s2 = osc_sample(fpu, wave2, slave.phase, pw2, slave.inc);
    fpu.lemma_mul_side(pm_index, s2, by);
    let m = fpu.mul(pm_index, s2);
    plain::lemma_equal_scaled(m, by);
    fpu.lemma_add_side(master.phase, m, to);
    let t = fpu.add(master.phase, m);
    assert(t == to);
    plain::lemma_equal_scaled(num(ONE), t);
    plain::lemma_equal_scaled(t, num(TWO));
    plain::lemma_scaled_sign(t);
    if to.scaled() < plain::unit() {
        plain::lemma_fraction_floor(t);
        plain::lemma_equal_scaled(to, at);
        fpu.lemma_sub_side(t, num(ZERO), at);
    } else {
        plain::lemma_one_floor(t);
        fpu.lemma_sub_side(t, num(ONE), at);
    }
    assert(wrap_both(fpu, t) == at);
}

/// A ring modulator turns over with its carrier.
pub proof fn lemma_ring_turns_with_its_carrier<A: Fn(Op, Plain, Plain) -> Plain>(
    fpu: &Fpu<A>,
    o1: Plain,
    o2: Plain,
    gain: Plain,
)
    requires
        fpu.rounds(),
        o1.is_finite() && o2.is_finite(),
        ({
            let c = fpu.mul(o2, num(HALF));
            let (u, v) = (fpu.add(o1, c), fpu.sub(o1, c));
            &&& c.is_finite()
            &&& u.is_normal() && v.is_normal()
            &&& ring_diode_block(fpu, u, gain).is_finite()
            &&& ring_diode_block(fpu, v, gain).is_finite()
        }),
    ensures
        ring_sample(fpu, o1, o2.neg(), gain).rank() == -ring_sample(fpu, o1, o2, gain).rank(),
{
    let h = num(HALF);
    let c = fpu.mul(o2, h);
    let n = fpu.mul(o2.neg(), h);
    fpu.lemma_mul_turns(o2, h);
    plain::lemma_neg_scaled(c);
    plain::lemma_equal_scaled(n, c.neg());
    let (u, v) = (fpu.add(o1, c), fpu.sub(o1, c));
    fpu.lemma_add_side(o1, n, v);
    fpu.lemma_sub_side(o1, n, u);
    fpu.lemma_negative_added(o1, c, n);
    assert(fpu.add(o1, n) == v && fpu.sub(o1, n) == u);
    fpu.lemma_sub_turns(ring_diode_block(fpu, u, gain), ring_diode_block(fpu, v, gain));
}

/// What one pair of diodes passes more than the other is heard of a ring modulator.
pub proof fn lemma_ring_hears_the_difference<A: Fn(Op, Plain, Plain) -> Plain>(
    fpu: &Fpu<A>,
    o1: Plain,
    o2: Plain,
    gain: Plain,
    r: Plain,
)
    requires
        fpu.rounds(),
        r.is_number(),
        ({
            let c = fpu.mul(o2, num(HALF));
            let more = ring_diode_block(fpu, fpu.add(o1, c), gain);
            let less = ring_diode_block(fpu, fpu.sub(o1, c), gain);
            &&& more.is_finite() && less.is_finite()
            &&& less.scaled() + r.scaled() <= more.scaled()
        }),
    ensures
        r.at_most(ring_sample(fpu, o1, o2, gain)),
{
    let c = fpu.mul(o2, num(HALF));
    fpu.lemma_sub_side(
        ring_diode_block(fpu, fpu.add(o1, c), gain),
        ring_diode_block(fpu, fpu.sub(o1, c), gain),
        r,
    );
}

/// What the responses of a filter are for, at the two ends of its range. A steady level, where
/// every stage has come to the input, passes the lowpass and the notch and is stopped by the
/// highpass and the bandpass. A change too fast for any stage passes the highpass and the
/// notch and is stopped by the lowpass and the bandpass. The levels are such that three and
/// five times them are numbers.
pub proof fn lemma_responses<A: Fn(Op, Plain, Plain) -> Plain>(
    fpu: &Fpu<A>,
    mode: FilterMode,
    poles: OtaPoles,
    c: Plain,
    c3: Plain,
    c5: Plain,
)
    requires
        fpu.rounds(),
        c.is_number() && c3.is_number() && c5.is_number(),
        c3.scaled() == 3 * c.scaled(),
        c5.scaled() == 5 * c.scaled(),
        c.mag() < 0x7e00_0000 && c3.mag() < 0x7e00_0000,
    ensures
        ({
            let slow = response(fpu, mode, poles, c, (c, c, c, c));
            let z = num(ZERO);
            let fast = response(fpu, mode, poles, c, (z, z, z, z));
            &&& mode == FilterMode::Lp ==> slow == c && fast == z
            &&& mode == FilterMode::Hp ==> slow.is_zero() && fast.equals(c)
            &&& mode == FilterMode::Bp ==> slow.is_zero() && fast.is_zero()
            &&& mode == FilterMode::Notch ==> slow.equals(c) && fast.equals(c)
        }),
{
    lemma_slow_response(fpu, mode, poles, c, c3, c5);
    lemma_fast_response(fpu, mode, poles, c);
}

proof fn lemma_slow_response<A: Fn(Op, Plain, Plain) -> Plain>(
    fpu: &Fpu<A>,
    mode: FilterMode,
    poles: OtaPoles,
    c: Plain,
    c3: Plain,
    c5: Plain,
)
    requires
        fpu.rounds(),
        c.is_number() && c3.is_number() && c5.is_number(),
        c3.scaled() == 3 * c.scaled(),
        c5.scaled() == 5 * c.scaled(),
        c.mag() < 0x7e00_0000 && c3.mag() < 0x7e00_0000,
    ensures
        ({
            let slow = response(fpu, mode, poles, c, (c, c, c, c));
            &&& mode == FilterMode::Lp ==> slow == c
            &&& mode == FilterMode::Hp ==> slow.is_zero()
            &&& mode == FilterMode::Bp ==> slow.is_zero()
            &&& mode == FilterMode::Notch ==> slow.equals(c)
        }),
{
    plain::lemma_small_values();
    power2::lemma2_to64();
    plain::lemma_whole_value(F6, 6, 21);
    let (u, s) = (plain::unit(), c.scaled());
    let z = num(ZERO);
    plain::lemma_twice(c);
    let c2 = plain::twice(c);
    plain::lemma_twice(c2);
    let c4 = plain::twice(c2);
    plain::lemma_twice(c4);
    let c8 = plain::twice(c4);
    plain::lemma_twice(c3);
    let c6 = plain::twice(c3);
    assert((2 * u) * s == (2 * s) * u && (4 * u) * s == (4 * s) * u && (6 * u) * s == (6 * s) * u
        && (8 * u) * s == (8 * s) * u) by (nonlinear_arith);
    let (m2, m4) = (fpu.mul(num(TWO), c), fpu.mul(num(FOUR), c));
    let (m6, m8) = (fpu.mul(num(F6), c), fpu.mul(num(F8), c));
    fpu.lemma_mul_side(num(TWO), c, c2);
    fpu.lemma_mul_side(num(FOUR), c, c4);
    fpu.lemma_mul_side(num(F6), c, c6);
    fpu.lemma_mul_side(num(F8), c, c8);
    plain::lemma_equal_scaled(m2, c2);
    plain::lemma_equal_scaled(m4, c4);
    plain::lemma_equal_scaled(m6, c6);
    plain::lemma_equal_scaled(m8, c8);
    plain::lemma_neg_scaled(c);
    plain::lemma_neg_scaled(c3);
    // Two poles.
    let a2 = fpu.sub(c, m2);
    fpu.lemma_sub_side(c, m2, c.neg());
    plain::lemma_equal_scaled(a2, c.neg());
    fpu.lemma_add_side(a2, c, z);
    fpu.lemma_add_side(a2, m2, c);
    let d = fpu.sub(c, c);
    fpu.lemma_sub_side(c, c, z);
    fpu.lemma_none_of(num(TWO), d);
    // Four poles.
    let a4 = fpu.sub(c, m4);
    fpu.lemma_sub_side(c, m4, c3.neg());
    plain::lemma_equal_scaled(a4, c3.neg());
    let h = fpu.add(a4, m6);
    fpu.lemma_add_side(a4, m6, c3);
    plain::lemma_equal_scaled(h, c3);
    let i = fpu.sub(h, m4);
    fpu.lemma_sub_side(h, m4, c.neg());
    plain::lemma_equal_scaled(i, c.neg());
    fpu.lemma_add_side(i, c, z);
    fpu.lemma_add_side(a2, c, z);
    fpu.lemma_none_of(num(FOUR), fpu.add(a2, c));
    let j = fpu.add(a4, m8);
    fpu.lemma_add_side(a4, m8, c5);
    plain::lemma_equal_scaled(j, c5);
    let k = fpu.sub(j, m8);
    fpu.lemma_sub_side(j, m8, c3.neg());
    plain::lemma_equal_scaled(k, c3.neg());
    fpu.lemma_add_side(k, m4, c);
}

proof fn lemma_fast_response<A: Fn(Op, Plain, Plain) -> Plain>(
    fpu: &Fpu<A>,
    mode: FilterMode,
    poles: OtaPoles,
    c: Plain,
)
    requires
        fpu.rounds(),
        c.is_number(),
    ensures
        ({
            let z = num(ZERO);
            let fast = response(fpu, mode, poles, c, (z, z, z, z));
            &&& mode == FilterMode::Lp ==> fast == z
            &&& mode == FilterMode::Hp ==> fast.equals(c)
            &&& mode == FilterMode::Bp ==> fast.is_zero()
            &&& mode == FilterMode::Notch ==> fast.equals(c)
        }),
{
    let z = num(ZERO);
    let (m2, m4) = (fpu.mul(num(TWO), z), fpu.mul(num(FOUR), z));
    let (m6, m8) = (fpu.mul(num(F6), z), fpu.mul(num(F8), z));
    fpu.lemma_none_of(num(TWO), z);
    fpu.lemma_none_of(num(FOUR), z);
    fpu.lemma_none_of(num(F6), z);
    fpu.lemma_none_of(num(F8), z);
    let a2 = fpu.sub(c, m2);
    let a4 = fpu.sub(c, m4);
    lemma_still_the_same(fpu, c, c, m2);
    lemma_still_the_same(fpu, c, c, m4);
    lemma_still_the_same(fpu, c, a2, z);
    lemma_still_the_same(fpu, c, a2, m2);
    lemma_still_the_same(fpu, c, a4, m6);
    lemma_still_the_same(fpu, c, a4, m8);
    let (h, j) = (fpu.add(a4, m6), fpu.add(a4, m8));
    lemma_still_the_same(fpu, c, h, m4);
    lemma_still_the_same(fpu, c, j, m8);
    lemma_still_the_same(fpu, c, fpu.sub(h, m4), z);
    lemma_still_the_same(fpu, c, fpu.sub(j, m8), m4);
    let d = fpu.sub(z, z);
    lemma_still_the_same(fpu, z, z, z);
    fpu.lemma_none_of(num(TWO), d);
    lemma_still_the_same(fpu, z, z, m2);
    lemma_still_the_same(fpu, z, fpu.sub(z, m2), z);
    fpu.lemma_none_of(num(FOUR), fpu.add(fpu.sub(z, m2), z));
}

/// What equals a number still does with nothing added or taken off.
proof fn lemma_still_the_same<A: Fn(Op, Plain, Plain) -> Plain>(
    fpu: &Fpu<A>,
    c: Plain,
    x: Plain,
    z: Plain,
)
    requires
        fpu.rounds(),
        c.is_number() && x.equals(c) && z.is_zero(),
    ensures
        fpu.add(x, z).equals(c),
        fpu.sub(x, z).equals(c),
{
    plain::lemma_equal_scaled(x, c);
    plain::lemma_zero_scaled(z);
    fpu.lemma_add_side(x, z, c);
    fpu.lemma_sub_side(x, z, c);
}

/// A bandpass puts out what its early stages have over its late ones, twice or four times it.
pub proof fn lemma_bandpass_gain<A: Fn(Op, Plain, Plain) -> Plain>(fpu: &Fpu<A>, u: Plain, c: Plain)
    requires
        fpu.rounds(),
        c.is_number() && c.mag() < 0x7e00_0000,
    ensures
        ({
            let z = num(ZERO);
            let two = response(fpu, FilterMode::Bp, OtaPoles::Two, u, (c, z, z, z));
            let four = response(fpu, FilterMode::Bp, OtaPoles::Four, u, (z, c, z, z));
            &&& two.scaled() == 2 * c.scaled()
            &&& four.scaled() == 4 * c.scaled()
        }),
{
    plain::lemma_small_values();
    let z = num(ZERO);
    let (w, s) = (plain::unit(), c.scaled());
    plain::lemma_twice(c);
    let c2 = plain::twice(c);
    plain::lemma_twice(c2);
    let c4 = plain::twice(c2);
    assert((2 * w) * s == (2 * s) * w && (4 * w) * s == (4 * s) * w) by (nonlinear_arith);
    lemma_still_the_same(fpu, c, c, z);
    let d = fpu.sub(c, z);
    plain::lemma_equal_scaled(d, c);
    fpu.lemma_mul_side(num(TWO), d, c2);
    plain::lemma_equal_scaled(fpu.mul(num(TWO), d), c2);
    fpu.lemma_none_of(num(TWO), z);
    let e = fpu.sub(c, fpu.mul(num(TWO), z));
    lemma_still_the_same(fpu, c, c, fpu.mul(num(TWO), z));
    lemma_still_the_same(fpu, c, e, z);
    plain::lemma_equal_scaled(fpu.add(e, z), c);
    fpu.lemma_mul_side(num(FOUR), fpu.add(e, z), c4);
    plain::lemma_equal_scaled(fpu.mul(num(FOUR), fpu.add(e, z)), c4);
}

/// Without feedback a voice's filter does not hear its own output, and with drive and feedback
/// it hears the sample turned up and its output taken off.
pub proof fn lemma_lane_without_feedback<A: Fn(Op, Plain, Plain) -> Plain>(
    fpu: &Fpu<A>,
    lane: OtaLane,
    y4: Plain,
    mode: FilterMode,
    poles: OtaPoles,
    x: Plain,
)
    requires
        fpu.rounds(),
        lane.now.k.is_zero(),
        lane.y4.is_finite() && y4.is_finite(),
        fpu.mul(lane.now.drive, x).is_normal(),
    ensures
        lane_step(fpu, lane, mode, poles, x) == lane_step(
            fpu,
            OtaLane { y4, ..lane },
            mode,
            poles,
            x,
        ),
{
    let d = fpu.mul(lane.now.drive, x);
    fpu.lemma_none_of(lane.y4, lane.now.k);
    fpu.lemma_none_of(y4, lane.now.k);
    fpu.lemma_nothing_added(d, fpu.mul(lane.now.k, lane.y4));
    fpu.lemma_nothing_added(d, fpu.mul(lane.now.k, y4));
    assert(fpu.sub(d, fpu.mul(lane.now.k, lane.y4)) == d);
    assert(fpu.sub(d, fpu.mul(lane.now.k, y4)) == d);
}

/// A ramp has no step where the coefficients are at their target, and steps toward it where
/// they are not; a step of the whole way arrives, wherever the way is a number.
pub proof fn lemma_ramp_heads_for_the_target<A: Fn(Op, Plain, Plain) -> Plain>(
    fpu: &Fpu<A>,
    now: OtaLadderCoeffs,
    target: OtaLadderCoeffs,
    inv: Plain,
    way: Plain,
)
    requires
        fpu.rounds(),
        now.g.is_finite() && target.g.is_number(),
        inv.is_finite() && inv.scaled() >= 0,
        way.is_number(),
        way.scaled() == target.g.scaled() - now.g.scaled(),
    ensures
        ({
            let step = ramp_toward(fpu, now, target, inv);
            &&& way.scaled() == 0 ==> step.g.is_zero()
            &&& way.scaled() >= 0 ==> num(ZERO).at_most(step.g)
            &&& way.scaled() <= 0 ==> step.g.at_most(num(ZERO))
            &&& inv == num(ONE) ==> fpu.add(now.g, step.g).equals(target.g)
        }),
{
    plain::lemma_small_values();
    let d = fpu.sub(target.g, now.g);
    fpu.lemma_sub_side(target.g, now.g, way);
    plain::lemma_equal_scaled(d, way);
    plain::lemma_scaled_sign(d);
    let (w, i, u) = (way.scaled(), inv.scaled(), plain::unit());
    assert(0 * u == 0 && (w >= 0 ==> w * i >= 0) && (w <= 0 ==> w * i <= 0)) by (nonlinear_arith)
        requires
            i >= 0,
    ;
    fpu.lemma_mul_side(d, inv, num(ZERO));
    if way.scaled() == 0 {
        fpu.lemma_none_of(inv, d);
    }
    if inv == num(ONE) {
        fpu.lemma_all_of(way);
        assert(w * u == w * u);
        fpu.lemma_mul_side(d, inv, way);
        plain::lemma_equal_scaled(fpu.mul(d, inv), way);
        fpu.lemma_add_side(now.g, fpu.mul(d, inv), target.g);
    }
}

/// At the very edge of a cycle the residual takes a whole half step off.
proof fn lemma_residual_at_the_edge<A: Fn(Op, Plain, Plain) -> Plain>(
    fpu: &Fpu<A>,
    t: Plain,
    d: Plain,
)
    requires
        fpu.rounds(),
        t.is_zero(),
        d.is_finite() && num(F0_000000000001).at_most(d),
        2 * d.scaled() <= plain::unit(),
    ensures
        blep_rise(fpu, t, d) == num(MINUS_ONE),
        blep_fall(fpu, t, d).is_zero(),
{
    plain::lemma_small_values();
    plain::lemma_zero_scaled(t);
    plain::lemma_equal_scaled(num(F0_000000000001), d);
    plain::lemma_scaled_sign(num(F0_000000000001));
    plain::lemma_scaled_sign(d);
    let (u, ds) = (plain::unit(), d.scaled());
    let a = fpu.div(t, d);
    assert(0 * u == 0 && 0 * ds == 0) by (nonlinear_arith);
    fpu.lemma_div_side(t, d, num(ZERO));
    fpu.lemma_none_of(num(TWO), a);
    fpu.lemma_none_of(a, a);
    let s = fpu.sub(fpu.mul(num(TWO), a), fpu.mul(a, a));
    fpu.lemma_nothing_added(fpu.mul(num(TWO), a), fpu.mul(a, a));
    plain::lemma_zero_scaled(s);
    fpu.lemma_sub_side(s, num(ONE), num(MINUS_ONE));
    let rise = fpu.sub(s, num(ONE));
    assert(rise == num(MINUS_ONE));
    fpu.lemma_all_of(num(MINUS_ONE));
    lemma_residual_is_finite(fpu, t, d);
    fpu.lemma_sub_side(num(ONE), d, num(HALF));
    plain::lemma_scaled_sign(num(HALF));
    let b = fpu.div(fpu.sub(t, num(ONE)), d);
    fpu.lemma_none_of(
        fpu.add(fpu.add(fpu.mul(b, b), fpu.mul(num(TWO), b)), num(ONE)),
        num(ZERO),
    );
}

/// An edge is band-limited: at the very edge a wave reads the middle of its step. So does a saw
/// at the start of its cycle, a pulse there and at its width, and the sub-oscillator at a wrap.
pub proof fn lemma_edges_are_rounded<A: Fn(Op, Plain, Plain) -> Plain>(
    fpu: &Fpu<A>,
    pw: Plain,
    dt: Plain,
    n: int,
    high: bool,
)
    requires
        fpu.rounds(),
        is_clear(pw, dt, n),
        dt.is_finite(),
    ensures
        osc_sample(fpu, Waveform::Saw, num(ZERO), pw, dt).is_zero(),
        osc_sample(fpu, Waveform::Pulse, num(ZERO), pw, dt).is_zero(),
        osc_sample(fpu, Waveform::Pulse, pw, pw, dt).is_zero(),
        sub_sample(fpu, num(ZERO), dt, high).is_zero(),
{
    let d = dt.max(num(F0_000000000001));
    plain::lemma_small_values();
    plain::lemma_steps(0x40_0000);
    power2::lemma_pow2_pos(126);
    let w = power2::pow2(126) as int;
    let m = n * w;
    assert(2 * m <= 0x80_0000 * w && m > 0) by (nonlinear_arith)
        requires
            0 < n < 0x40_0000,
            m == n * w,
            w > 0,
    ;
    let z = num(ZERO);
    lemma_residual_at_the_edge(fpu, z, d);
    let r = pblep(fpu, z, dt);
    fpu.lemma_nothing_added(num(MINUS_ONE), blep_fall(fpu, z, d));
    assert(r == num(MINUS_ONE));
    // The saw.
    fpu.lemma_none_of(num(TWO), z);
    let two_p = fpu.mul(num(TWO), z);
    plain::lemma_zero_scaled(two_p);
    fpu.lemma_sub_side(two_p, num(ONE), num(MINUS_ONE));
    assert(fpu.sub(two_p, num(ONE)) == num(MINUS_ONE));
    fpu.lemma_sub_side(num(MINUS_ONE), num(MINUS_ONE), z);
    // The pulse, at the start of the cycle.
    plain::lemma_equal_scaled(z, pw);
    lemma_clear_of_fall(fpu, z, pw, n);
    let pf = wrap_both(fpu, fpu.add(fpu.sub(z, pw), num(ONE)));
    plain::lemma_equal_scaled(d, pf);
    lemma_residual_is_local(fpu, pf, dt);
    lemma_bare_pulse(fpu, z, pw);
    fpu.lemma_add_side(num(ONE), r, z);
    let up = fpu.add(num(ONE), r);
    fpu.lemma_nothing_added(up, pblep(fpu, pf, dt));
    // The pulse, at its width.
    plain::lemma_equal_scaled(d, pw);
    lemma_residual_is_local(fpu, pw, dt);
    lemma_bare_pulse(fpu, pw, pw);
    let s = fpu.sub(pw, pw);
    fpu.lemma_sub_side(pw, pw, z);
    fpu.lemma_nothing_added(num(ONE), s);
    assert(fpu.add(s, num(ONE)) == num(ONE));
    plain::lemma_one_floor(num(ONE));
    let q = fpu.sub(num(ONE), num(ONE));
    fpu.lemma_sub_side(num(ONE), num(ONE), z);
    lemma_residual_at_the_edge(fpu, q, d);
    fpu.lemma_nothing_added(num(MINUS_ONE), blep_fall(fpu, q, d));
    assert(pblep(fpu, q, dt) == num(MINUS_ONE));
    fpu.lemma_nothing_added(num(MINUS_ONE), pblep(fpu, pw, dt));
    assert(fpu.add(num(MINUS_ONE), pblep(fpu, pw, dt)) == num(MINUS_ONE));
    // The sub-oscillator.
    let o = if high {
        num(ONE)
    } else {
        num(MINUS_ONE)
    };
    fpu.lemma_all_of(num(MINUS_ONE));
    fpu.lemma_mul_turns(num(ONE), num(MINUS_ONE));
    assert(num(ONE).neg() == num(MINUS_ONE));
    let turned = fpu.mul(o, num(MINUS_ONE));
    assert(turned == o.neg());
    plain::lemma_neg_scaled(o);
    fpu.lemma_add_side(o, turned, z);
    let flat = fpu.add(o, turned);
    let fall = blep_fall(fpu, z, d);
    fpu.lemma_none_of(o, fall);
    fpu.lemma_nothing_added(flat, fpu.mul(o, fall));
}

/// The reset of a hard sync falls at the very fraction of the sample at which the master ended
/// its cycle: the slave is then as much of its own increment in as the master is of its own,
/// wherever these shares are numbers.
pub proof fn lemma_sync_keeps_the_fraction<A: Fn(Op, Plain, Plain) -> Plain>(
    fpu: &Fpu<A>,
    master: OscLane,
    slave: OscLane,
    wave1: Waveform,
    wave2: Waveform,
    pw1: Plain,
    pw2: Plain,
    over: Plain,
    share: Plain,
    left: Plain,
    r: Plain,
)
    requires
        fpu.rounds(),
        math::is_phase(master.phase) && math::is_phase(master.inc),
        num(F0_000000000001).at_most(master.inc),
        math::is_phase(slave.phase) && math::is_phase(slave.inc) && slave.inc.is_number(),
        over.is_number() && share.is_number() && left.is_number() && r.is_number(),
        num(ONE).at_most(fpu.add(master.phase, master.inc)),
        over.scaled() == fpu.add(master.phase, master.inc).scaled() - plain::unit(),
        share.scaled() * master.inc.scaled() == over.scaled() * plain::unit(),
        left.scaled() == plain::unit() - share.scaled(),
        num(MIN_POSITIVE).at_most(left) && left.at_most(num(ONE)),
        r.scaled() * plain::unit() == share.scaled() * slave.inc.scaled(),
    ensures
        sync_step(fpu, master, slave, wave1, wave2, pw1, pw2).slave.phase.equals(r),
{
    plain::lemma_small_values();
    let u = plain::unit();
    let np = fpu.add(master.phase, master.inc);
    fpu.lemma_add_side(master.phase, master.inc, num(TWO));
    plain::lemma_between_finite(num(ONE), np, num(TWO));
    let d = master.inc.max(num(F0_000000000001));
    plain::lemma_equal_scaled(d, master.inc);
    plain::lemma_equal_scaled(num(F0_000000000001), d);
    plain::lemma_scaled_sign(num(F0_000000000001));
    fpu.lemma_sub_side(np, num(ONE), over);
    let o = fpu.sub(np, num(ONE));
    plain::lemma_equal_scaled(o, over);
    fpu.lemma_div_side(o, d, share);
    let q = fpu.div(o, d);
    plain::lemma_equal_scaled(q, share);
    fpu.lemma_sub_side(num(ONE), q, left);
    let f = fpu.sub(num(ONE), q);
    plain::lemma_equal_scaled(f, left);
    let frac = sync_fraction(fpu, np, master.inc);
    plain::lemma_equal_scaled(frac, left);
    fpu.lemma_sub_side(num(ONE), frac, share);
    let rest = fpu.sub(num(ONE), frac);
    plain::lemma_equal_scaled(rest, share);
    let dt = slave.inc;
    fpu.lemma_mul_side(rest, dt, r);
    let post = fpu.mul(rest, dt);
    plain::lemma_equal_scaled(post, r);
    lemma_phase_stays_in_cycle(fpu, slave);
    let free = advance(fpu, slave.phase, dt);
    fpu.lemma_sub_side(num(ONE), num(ONE), num(ZERO));
    let z = fpu.mul(free, fpu.sub(num(ONE), num(ONE)));
    fpu.lemma_none_of(free, fpu.sub(num(ONE), num(ONE)));
    plain::lemma_zero_scaled(z);
    fpu.lemma_all_of(r);
    fpu.lemma_mul_side(post, num(ONE), r);
    let kept = fpu.mul(post, num(ONE));
    plain::lemma_equal_scaled(kept, r);
    fpu.lemma_add_side(z, kept, r);
}

/// The step of a reset is rounded too: where the master ends its cycle with the sample, the next
/// sample of the slave carries half of the way back to where its wave would have been.
pub proof fn lemma_sync_step_is_rounded<A: Fn(Op, Plain, Plain) -> Plain>(
    fpu: &Fpu<A>,
    master: OscLane,
    slave: OscLane,
    wave1: Waveform,
    wave2: Waveform,
    pw1: Plain,
    pw2: Plain,
    from: Plain,
    way: Plain,
    half: Plain,
)
    requires
        fpu.rounds(),
        math::is_phase(master.phase) && math::is_phase(master.inc),
        fpu.add(master.phase, master.inc) == num(ONE),
        math::is_phase(slave.phase),
        slave.inc.is_number() && num(F0_000000000001).at_most(slave.inc),
        2 * slave.inc.scaled() <= plain::unit(),
        from == advance(fpu, slave.phase, slave.inc),
        way.is_number() && half.is_number(),
        naive_osc(fpu, wave2, from, pw2).is_finite(),
        forall|z: Plain| z.is_zero() ==> (#[trigger] naive_osc(fpu, wave2, z, pw2)).is_finite(),
        forall|z: Plain|
            z.is_zero() ==> way.scaled() == naive_osc(fpu, wave2, from, pw2).scaled()
                - (#[trigger] naive_osc(fpu, wave2, z, pw2)).scaled(),
        2 * half.scaled() == way.scaled(),
    ensures
        sync_step(fpu, master, slave, wave1, wave2, pw1, pw2).slave.sync_resid.equals(half),
{
    plain::lemma_small_values();
    let u = plain::unit();
    let np = num(ONE);
    lemma_sync_fraction(fpu, np, master.inc);
    let frac = sync_fraction(fpu, np, master.inc);
    let dt = slave.inc;
    fpu.lemma_sub_side(num(ONE), frac, num(ZERO));
    let rest = fpu.sub(num(ONE), frac);
    fpu.lemma_none_of(dt, rest);
    let post = fpu.mul(rest, dt);
    fpu.lemma_all_of(dt);
    plain::lemma_equal_scaled(num(F0_000000000001), dt);
    plain::lemma_scaled_sign(num(F0_000000000001));
    plain::lemma_scaled_sign(dt);
    assert(fpu.mul(frac, dt) == dt);
    let a = naive_osc(fpu, wave2, from, pw2);
    let b = naive_osc(fpu, wave2, post, pw2);
    fpu.lemma_sub_side(a, b, way);
    let delta = fpu.sub(a, b);
    plain::lemma_equal_scaled(delta, way);
    let d = dt.max(num(F0_000000000001));
    assert(d.rank() == dt.rank());
    plain::lemma_equal_scaled(d, dt);
    lemma_residual_at_the_edge(fpu, post, d);
    fpu.lemma_nothing_added(num(MINUS_ONE), blep_fall(fpu, post, d));
    let r = pblep(fpu, post, dt);
    assert(r == num(MINUS_ONE));
    assert(r.neg() == num(ONE));
    fpu.lemma_all_of(num(HALF));
    assert(fpu.mul(r.neg(), num(HALF)) == num(HALF));
    let (h, w, hs) = (num(HALF).scaled(), way.scaled(), half.scaled());
    assert(h * w == hs * u) by (nonlinear_arith)
        requires
            2 * h == u,
            2 * hs == w,
    ;
    fpu.lemma_mul_side(num(HALF), delta, half);
}

/// A saturated sample is finite.
proof fn lemma_tanh_c_bounds<A: Fn(Op, Plain, Plain) -> Plain>(fpu: &Fpu<A>, x: Plain)
    requires
        fpu.rounds(),
        x.is_finite(),
    ensures
        tanh_c(fpu, x).is_finite(),
        -0x100_0000 * plain::unit() <= tanh_c(fpu, x).scaled() <= 0x100_0000 * plain::unit(),
{
    plain::lemma_small_values();
    let c = x.clamp(num(MINUS_F2_5), num(F2_5));
    plain::lemma_equal_scaled(num(F2_5), num(FOUR));
    plain::lemma_neg_scaled(num(FOUR));
    plain::lemma_equal_scaled(num(MINUS_F2_5), num(FOUR).neg());
    plain::lemma_equal_scaled(c, num(F2_5));
    plain::lemma_equal_scaled(c, num(MINUS_F2_5));
    math::lemma_tanh_powers(fpu, c);
    let x2 = fpu.mul(c, c);
    let x4 = fpu.mul(x2, x2);
    let x6 = fpu.mul(x4, x2);
    let top = fpu.add(fpu.add(num(F10395), fpu.mul(num(F1260), x2)), fpu.mul(num(F21), x4));
    let lower = fpu.add(
        fpu.add(fpu.add(num(F10395), fpu.mul(num(F4725), x2)), fpu.mul(num(F210), x4)),
        fpu.mul(num(FOUR), x6),
    );
    let upper = fpu.mul(c, top);
    let p24 = num(0x4b80_0000);
    plain::lemma_power_scaled(151);
    power2::lemma2_to64();
    let (n, l, u) = (p24.scaled(), lower.scaled(), plain::unit());
    assert(n * u <= n * l) by (nonlinear_arith)
        requires
            0 < u <= l,
            n >= 0,
    ;
    fpu.lemma_div_within(upper, lower, n, p24);
}

/// What a voice's filter hears of a sample and of its own output: the more drive the more of the
/// sample, and the more feedback the less of an output of the same sign, so long as the
/// saturation keeps the order of the two levels that come of it.
pub proof fn lemma_lane_hears_drive_and_feedback<A: Fn(Op, Plain, Plain) -> Plain>(
    fpu: &Fpu<A>,
    weak: OtaLane,
    strong: OtaLane,
    mode: FilterMode,
    poles: OtaPoles,
    x: Plain,
)
    requires
        fpu.rounds(),
        strong == (OtaLane { now: strong.now, ..weak }),
        x.is_finite() && weak.s0.is_finite() && weak.y4.is_finite(),
        -16 * plain::unit() <= weak.s0.scaled() <= 16 * plain::unit(),
        weak.now.drive.is_finite() && strong.now.drive.is_finite(),
        weak.now.k.is_finite() && strong.now.k.is_finite(),
        weak.now.g == strong.now.g && weak.now.g.is_finite(),
        0 <= weak.now.g.scaled() <= plain::unit(),
        x.scaled() >= 0 && weak.y4.scaled() >= 0,
        weak.now.drive.at_most(strong.now.drive) && strong.now.k.at_most(weak.now.k),
        fpu.mul(weak.now.drive, x).is_finite() && fpu.mul(strong.now.drive, x).is_finite(),
        fpu.mul(weak.now.k, weak.y4).is_finite() && fpu.mul(strong.now.k, weak.y4).is_finite(),
        ({
            let a = fpu.sub(fpu.mul(weak.now.drive, x), fpu.mul(weak.now.k, weak.y4));
            let b = fpu.sub(fpu.mul(strong.now.drive, x), fpu.mul(strong.now.k, weak.y4));
            &&& a.is_finite() && b.is_finite()
            &&& a.at_most(b) ==> tanh_c(fpu, a).at_most(tanh_c(fpu, b))
        }),
    ensures
        lane_step(fpu, weak, mode, poles, x).0.s0.at_most(
            lane_step(fpu, strong, mode, poles, x).0.s0,
        ),
{
    plain::lemma_small_values();
    power2::lemma2_to64();
    plain::lemma_power_scaled(152);
    plain::lemma_power_scaled(153);
    plain::lemma_power_scaled(154);
    let (p25, p26, p27) = (num(0x4c00_0000), num(0x4c80_0000), num(0x4d00_0000));
    let u = plain::unit();
    assert(p25.scaled() == 0x200_0000 * u && p26.scaled() == 2 * p25.scaled() && p27.scaled() == 2
        * p26.scaled()) by (nonlinear_arith)
        requires
            p25.scaled() == power2::pow2(25) * u,
            p26.scaled() == power2::pow2(26) * u,
            p27.scaled() == power2::pow2(27) * u,
            power2::pow2(25) == 0x200_0000,
            power2::pow2(26) == 0x400_0000,
            power2::pow2(27) == 0x800_0000,
    ;
    let (cw, cs) = (weak.now, strong.now);
    let (dw, ds) = (fpu.mul(cw.drive, x), fpu.mul(cs.drive, x));
    let (kw, ks) = (fpu.mul(cw.k, weak.y4), fpu.mul(cs.k, weak.y4));
    fpu.lemma_scaling_rises(cw.drive, cs.drive, x);
    fpu.lemma_scaling_rises(cs.k, cw.k, weak.y4);
    plain::lemma_equal_scaled(dw, ds);
    plain::lemma_equal_scaled(ks, kw);
    fpu.lemma_sub_order(dw, kw, ds, ks);
    let (a, b) = (fpu.sub(dw, kw), fpu.sub(ds, ks));
    lemma_tanh_c_bounds(fpu, a);
    lemma_tanh_c_bounds(fpu, b);
    let (ta, tb) = (tanh_c(fpu, a), tanh_c(fpu, b));
    plain::lemma_equal_scaled(ta, tb);
    let s = weak.s0;
    let (ea, eb) = (fpu.sub(ta, s), fpu.sub(tb, s));
    fpu.lemma_add_within(ta, s, 0x100_0000 * u, 16 * u, p25);
    fpu.lemma_add_within(tb, s, 0x100_0000 * u, 16 * u, p25);
    fpu.lemma_sub_order(ta, s, tb, s);
    plain::lemma_equal_scaled(ea, eb);
    let (va, vb) = (fpu.mul(ea, cw.g), fpu.mul(eb, cw.g));
    fpu.lemma_mul_within(ea, cw.g, p25.scaled(), u, p25);
    fpu.lemma_mul_within(eb, cw.g, p25.scaled(), u, p25);
    fpu.lemma_scaling_rises(ea, eb, cw.g);
    plain::lemma_equal_scaled(va, vb);
    let (ya, yb) = (fpu.add(va, s), fpu.add(vb, s));
    fpu.lemma_add_within(va, s, p25.scaled(), 16 * u, p26);
    fpu.lemma_add_within(vb, s, p25.scaled(), 16 * u, p26);
    fpu.lemma_add_order(va, s, vb, s);
    plain::lemma_equal_scaled(ya, yb);
    fpu.lemma_add_order(ya, va, yb, vb);
}

/// The coefficients of a voice's filter move on by their step with every sample, wherever the sums
/// are numbers; the steps and the targets stay.
pub proof fn lemma_lane_ramps<A: Fn(Op, Plain, Plain) -> Plain>(
    fpu: &Fpu<A>,
    lane: OtaLane,
    mode: FilterMode,
    poles: OtaPoles,
    x: Plain,
    r: Plain,
)
    requires
        fpu.rounds(),
        r.is_number(),
        lane.now.g.is_finite() && lane.step.g.is_finite(),
        lane.now.k.is_finite() && lane.step.k.is_finite(),
        lane.now.drive.is_finite() && lane.step.drive.is_finite(),
    ensures
        ({
            let next = lane_step(fpu, lane, mode, poles, x).0;
            let (c, s) = (lane.now, lane.step);
            &&& r.scaled() == c.g.scaled() + s.g.scaled() ==> next.now.g.equals(r)
            &&& r.scaled() == c.k.scaled() + s.k.scaled() ==> next.now.k.equals(r)
            &&& r.scaled() == c.drive.scaled() + s.drive.scaled() ==> next.now.drive.equals(r)
            &&& next.step == lane.step && next.target == lane.target
        }),
{
    fpu.lemma_add_side(lane.now.g, lane.step.g, r);
    fpu.lemma_add_side(lane.now.k, lane.step.k, r);
    fpu.lemma_add_side(lane.now.drive, lane.step.drive, r);
}

/// A stage that has come to its saturated input stays there.
pub proof fn lemma_open_stage_settles<A: Fn(Op, Plain, Plain) -> Plain>(
    fpu: &Fpu<A>,
    input: Plain,
    g: Plain,
)
    requires
        fpu.rounds(),
        g.is_finite(),
        tanh_c(fpu, input).is_number(),
    ensures
        open_stage(fpu, input, tanh_c(fpu, input), g).0.equals(tanh_c(fpu, input)),
        open_stage(fpu, input, tanh_c(fpu, input), g).1.equals(tanh_c(fpu, input)),
{
    plain::lemma_zero_scaled(num(ZERO));
    let x = tanh_c(fpu, input);
    let d = fpu.sub(x, x);
    fpu.lemma_sub_side(x, x, num(ZERO));
    let a = fpu.mul(d, g);
    fpu.lemma_none_of(g, d);
    fpu.lemma_nothing_added(x, a);
    let y = fpu.add(a, x);
    plain::lemma_equal_scaled(y, x);
    plain::lemma_zero_scaled(a);
    fpu.lemma_add_side(y, a, x);
}

/// One part of a ramp: what is to be gone, over the samples that it takes.
proof fn lemma_ramp_part<A: Fn(Op, Plain, Plain) -> Plain>(
    fpu: &Fpu<A>,
    from: Plain,
    to: Plain,
    inv: Plain,
    n: int,
    way: Plain,
    step: Plain,
)
    requires
        fpu.rounds(),
        from.is_finite() && to.is_finite() && inv.is_finite(),
        way.is_number() && step.is_number(),
        inv.scaled() * n == plain::unit() && n > 0,
        way.scaled() == to.scaled() - from.scaled(),
        step.scaled() * n == way.scaled(),
    ensures
        fpu.mul(fpu.sub(to, from), inv).equals(step),
{
    let d = fpu.sub(to, from);
    fpu.lemma_sub_side(to, from, way);
    plain::lemma_equal_scaled(d, way);
    let (s, w, i, u) = (step.scaled(), way.scaled(), inv.scaled(), plain::unit());
    assert(w * i == s * u) by (nonlinear_arith)
        requires
            s * n == w,
            i * n == u,
    ;
    fpu.lemma_mul_side(d, inv, step);
}

/// A ramp over some samples takes as many equal steps to its target, in each coefficient,
/// wherever the share of a sample, the way and the step are numbers; a ramp over a single sample
/// or none is at its target and stays there.
pub proof fn lemma_ramp_arrives<A: Fn(Op, Plain, Plain) -> Plain>(
    fpu: &Fpu<A>,
    lane: OtaLane,
    steps: usize,
    share: Plain,
    way: Plain,
    step: Plain,
)
    requires
        fpu.rounds(),
        steps < 0x100_0000,
        lane.now.g.is_finite() && lane.target.g.is_finite(),
        lane.now.k.is_finite() && lane.target.k.is_finite(),
        lane.now.drive.is_finite() && lane.target.drive.is_finite(),
        share.is_number() && way.is_number() && step.is_number(),
        share.scaled() * steps == plain::unit(),
        step.scaled() * steps == way.scaled(),
    ensures
        ({
            let r = PolyOtaLadder::ramped(fpu, lane, steps);
            let (a, b) = (lane.now, lane.target);
            &&& r.target == b
            &&& steps <= 1 ==> r.now == b && r.step.g.is_zero() && r.step.k.is_zero()
                && r.step.drive.is_zero()
            &&& steps > 1 ==> {
                &&& r.now == a
                &&& way.scaled() == b.g.scaled() - a.g.scaled() ==> r.step.g.equals(step)
                &&& way.scaled() == b.k.scaled() - a.k.scaled() ==> r.step.k.equals(step)
                &&& way.scaled() == b.drive.scaled() - a.drive.scaled() ==> r.step.drive.equals(
                    step,
                )
            }
        }),
{
    plain::lemma_small_values();
    if steps > 1 {
        plain::lemma_exact_int(steps as i64);
        let n = Plain::from_index(steps);
        let (s, k, u) = (share.scaled(), steps as int, plain::unit());
        assert(s * (k * u) == u * u && k * u > 0) by (nonlinear_arith)
            requires
                s * k == u,
                k > 1,
                u > 0,
        ;
        fpu.lemma_div_side(num(ONE), n, share);
        let inv = fpu.div(num(ONE), n);
        plain::lemma_equal_scaled(inv, share);
        let (a, b) = (lane.now, lane.target);
        if way.scaled() == b.g.scaled() - a.g.scaled() {
            lemma_ramp_part(fpu, a.g, b.g, inv, k, way, step);
        }
        if way.scaled() == b.k.scaled() - a.k.scaled() {
            lemma_ramp_part(fpu, a.k, b.k, inv, k, way, step);
        }
        if way.scaled() == b.drive.scaled() - a.drive.scaled() {
            lemma_ramp_part(fpu, a.drive, b.drive, inv, k, way, step);
        }
    }
}

} // verus!
