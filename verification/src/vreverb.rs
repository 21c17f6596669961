//! Bucket-brigade reverb: a six-tap line, allpass diffusers and the stereo reverb built
//! from them.
use crate::bbd::{
    self, lpf_alpha, line_for_duration, read_cubic, recon_bank, saturation, ContinuousPoleBank,
    Jitter, OnePoleLpf, Saturation,
};
use crate::chorus::lfo_advanced;
use crate::delay::{self, DelayLine, Ring};
use crate::fpu::{Fpu, Op};
use crate::math::{self, fast_tanh, flush_denormal};
use crate::nums::{
    F0_001, F0_05, F0_15, F0_2, F0_25, F0_3, F0_4082483, F0_6, F0_7, F0_95, F1194, F1200, F1726,
    F180, F1_2, F2790, F3328, F35, F396, F6, F662, F8000, FOUR, HALF, ONE, TWO, ZERO,
};
use crate::plain::{num, Plain};
use crate::plain;
use vstd::prelude::*;

verus! {

broadcast use crate::plain::group_by_rank;

/// Taps on a [`TappedDelayLine`].
pub const N_TAPS: usize = 6;

/// The tap positions as fractions of the full delay: mutually unrelated spacings,
/// the last at the full delay itself.
pub open spec fn spec_tap_fractions<A: Fn(Op, Plain, Plain) -> Plain>(
    fpu: &Fpu<A>,
) -> Seq<Plain> {
    seq![fpu.div(num(F396), num(F3328)), fpu.div(num(F662), num(F3328)), fpu.div(
        num(F1194),
        num(F3328),
    ), fpu.div(
        num(F1726),
        num(F3328),
    ), fpu.div(num(F2790), num(F3328)), fpu.div(num(F3328), num(F3328))]
}

fn tap_fractions<A: Fn(Op, Plain, Plain) -> Plain>(fpu: &Fpu<A>) -> (r: [Plain; N_TAPS])
    requires
        fpu.valid(),
    ensures
        r@ == spec_tap_fractions(fpu),
{
    let r: [Plain; N_TAPS] = [
        fpu.div(num(F396), num(F3328)),
        fpu.div(num(F662), num(F3328)),
        fpu.div(num(F1194), num(F3328)),
        fpu.div(num(F1726), num(F3328)),
        fpu.div(num(F2790), num(F3328)),
        fpu.div(num(F3328), num(F3328)),
    ];
    assert(r@ =~= spec_tap_fractions(fpu));
    r
}

/// What a [`TappedDelayLine`] carries from sample to sample.
#[verifier::ext_equal]
pub struct TappedState {
    pub ring: Ring,
    pub input_bank: ContinuousPoleBank,
    pub jitter: Jitter,
}

impl TappedState {
    pub open spec fn wf(self) -> bool {
        bbd::readable(self.ring) && self.jitter.wf()
    }

    /// One sample on: input filter, saturating write, and a cubic read at every
    /// fraction of the jittered delay.
    #[verifier::opaque]
    pub open spec fn processed<A: Fn(Op, Plain, Plain) -> Plain>(
        self,
        fpu: &Fpu<A>,
        sat: Saturation,
        sample_rate: Plain,
        fractions: Seq<Plain>,
        x: Plain,
        full_delay_s: Plain,
    ) -> (Self, Seq<Plain>) {
        let input_bank = self.input_bank.advanced(fpu, x);
        let ring = self.ring.written(sat.charge(fpu, input_bank.real_output(fpu)));
        let (jitter, swung) = self.jitter.applied(fpu, full_delay_s);
        let full = fpu.mul(swung, sample_rate);
        (
            TappedState { ring, input_bank, jitter },
            Seq::new(N_TAPS as nat, |k: int| tap_at(fpu, ring, fpu.mul(fractions[k], full))),
        )
    }
}

/// A tap `offset` samples back, held to what the line can reach.
pub open spec fn tap_at<A: Fn(Op, Plain, Plain) -> Plain>(
    fpu: &Fpu<A>,
    ring: Ring,
    offset: Plain,
) -> Plain {
    let top = Plain::from_index((ring.cells.len() - 2) as usize);
    bbd::cubic(fpu, ring, offset.clamp(num(ZERO), top))
}

/// A bucket-brigade line read at [`N_TAPS`] fixed fractions of its delay.
pub struct TappedDelayLine {
    pub buf: DelayLine,
    pub input_bank: ContinuousPoleBank,
    pub jitter: Jitter,
    pub sample_rate: Plain,
    pub sat: Saturation,
    pub tap_frac: [Plain; N_TAPS],
}

impl View for TappedDelayLine {
    type V = TappedState;

    open spec fn view(&self) -> TappedState {
        TappedState { ring: self.buf@, input_bank: self.input_bank, jitter: self.jitter }
    }
}

impl TappedDelayLine {
    pub fn new<A: Fn(Op, Plain, Plain) -> Plain>(
        fpu: &Fpu<A>,
        max_delay_s: Plain,
        sample_rate: Plain,
        drive: Plain,
        seed: u32,
    ) -> (r: Self)
        requires
            fpu.valid(),
            ({
                let secs = fpu.add(max_delay_s, fpu.div(num(TWO), sample_rate));
                fpu.mul(secs, sample_rate).ceil_index() <= usize::MAX / 32
            }),
        ensures
            r@.wf(),
            ({
                let secs = fpu.add(max_delay_s, fpu.div(num(TWO), sample_rate));
                delay::is_capacity(
                    r@.ring.cells.len() as int,
                    fpu.mul(secs, sample_rate).ceil_index() as int,
                )
            }),
            r@ == (TappedState {
                ring: Ring::silent(r@.ring.cells.len()),
                input_bank: recon_bank(fpu, sample_rate),
                jitter: Jitter::seeded(seed, num(ZERO)),
            }),
            r.sample_rate == sample_rate,
            r.sat == saturation(fpu, drive),
            r.tap_frac@ == spec_tap_fractions(fpu),
    {
        let secs = fpu.add(max_delay_s, fpu.div(num(TWO), sample_rate));
        TappedDelayLine {
            buf: line_for_duration(fpu, secs, sample_rate),
            input_bank: recon_bank(fpu, sample_rate),
            jitter: Jitter::new(seed, num(ZERO)),
            sample_rate,
            sat: saturation(fpu, drive),
            tap_frac: tap_fractions(fpu),
        }
    }

    pub fn set_jitter_amount(&mut self, amount: Plain)
        ensures
            final(self)@ == (TappedState {
                jitter: Jitter { amount: amount.clamp(num(ZERO), num(ONE)), ..old(self).jitter },
                ..old(self)@
            }),
            final(self).sample_rate == old(self).sample_rate,
            final(self).sat == old(self).sat,
            final(self).tap_frac == old(self).tap_frac,
    {
        self.jitter.amount = amount.clamp(num(ZERO), num(ONE));
    }

    pub fn clear(&mut self)
        ensures
            final(self)@ == old(self)@.cleared(),
            old(self)@.wf() ==> final(self)@.wf(),
            final(self).sample_rate == old(self).sample_rate,
            final(self).sat == old(self).sat,
            final(self).tap_frac == old(self).tap_frac,
    {
        self.buf.clear();
        self.input_bank.reset();
        self.jitter.rest();
    }

    /// Push one sample and read all taps at their fractions of `full_delay_s`.
    pub fn process_tapped<A: Fn(Op, Plain, Plain) -> Plain>(
        &mut self,
        fpu: &Fpu<A>,
        x: Plain,
        full_delay_s: Plain,
    ) -> (r: [Plain; N_TAPS])
        requires
            fpu.valid(),
            old(self)@.wf(),
        ensures
            (final(self)@, r@) == old(self)@.processed(
                fpu,
                old(self).sat,
                old(self).sample_rate,
                old(self).tap_frac@,
                x,
                full_delay_s,
            ),
            final(self)@.wf(),
            final(self).sample_rate == old(self).sample_rate,
            final(self).sat == old(self).sat,
            final(self).tap_frac == old(self).tap_frac,
    {
        reveal(TappedState::processed);
        self.input_bank.advance(fpu, x);
        let charge = self.sat.charge(fpu, self.input_bank.real_output(fpu));
        self.buf.write(charge);
        let swung = self.jitter.apply(fpu, full_delay_s);
        let full = fpu.mul(swung, self.sample_rate);
        let r: [Plain; N_TAPS] = [
            self.tap(fpu, 0, full),
            self.tap(fpu, 1, full),
            self.tap(fpu, 2, full),
            self.tap(fpu, 3, full),
            self.tap(fpu, 4, full),
            self.tap(fpu, 5, full),
        ];
        proof {
            let ring = self.buf@;
            let fractions = self.tap_frac@;
            assert(r@ =~= Seq::new(
                N_TAPS as nat,
                |k: int| tap_at(fpu, ring, fpu.mul(fractions[k], full)),
            ));
        }
        r
    }

    fn tap<A: Fn(Op, Plain, Plain) -> Plain>(&self, fpu: &Fpu<A>, k: usize, full: Plain) -> (r:
        Plain)
        requires
            fpu.valid(),
            self@.wf(),
            k < N_TAPS,
        ensures
            r == tap_at(fpu, self.buf@, fpu.mul(self.tap_frac@[k as int], full)),
    {
        let top = Plain::from_index(self.buf.capacity() - 2);
        proof {
            plain::lemma_count_not_negative(top);
        }
        let offset = fpu.mul(self.tap_frac[k], full).clamp(num(ZERO), top);
        read_cubic(fpu, &self.buf, offset)
    }
}

impl TappedState {
    pub open spec fn cleared(self) -> Self {
        TappedState {
            ring: Ring::silent(self.ring.cells.len()),
            input_bank: self.input_bank.silenced(),
            jitter: Jitter { counter: 0, value: num(ZERO), ..self.jitter },
        }
    }
}

/// What an [`AllpassDiffuser`] is set to and what it holds.
#[verifier::ext_equal]
pub struct DiffuserState {
    pub ring: Ring,
    pub delay_samples: int,
    pub g: Plain,
}

impl DiffuserState {
    pub open spec fn wf(self) -> bool {
        &&& bbd::readable(self.ring)
        &&& 0 <= self.delay_samples <= self.ring.cells.len()
    }

    /// What went into the line as many samples ago as the delay says, a single one at least.
    pub open spec fn delayed(self) -> Plain {
        self.ring.history(
            if self.delay_samples > 1 {
                self.delay_samples - 1
            } else {
                0
            },
        )
    }

    /// One sample on: `y = -g * x + v` with `v` from the line, into which `x + g * y` goes.
    /// With `g` at zero the sample passes and the line rests.
    pub open spec fn processed<A: Fn(Op, Plain, Plain) -> Plain>(
        self,
        fpu: &Fpu<A>,
        x: Plain,
    ) -> (Self, Plain) {
        if self.g.equals(num(ZERO)) {
            (self, x)
        } else {
            let y = fpu.add(fpu.mul(self.g.neg(), x), self.delayed());
            let v = fpu.add(x, fpu.mul(self.g, y));
            (DiffuserState { ring: self.ring.written(v), ..self }, y)
        }
    }

    /// Diffusion at zero is a bit-exact bypass.
    pub proof fn lemma_zero_bypasses<A: Fn(Op, Plain, Plain) -> Plain>(self, fpu: &Fpu<A>, x: Plain)
        requires
            self.g == num(ZERO),
        ensures
            self.processed(fpu, x) == (self, x),
    {
    }

    /// The diffuser after a run of samples.
    pub open spec fn after<A: Fn(Op, Plain, Plain) -> Plain>(
        self,
        fpu: &Fpu<A>,
        xs: Seq<Plain>,
    ) -> Self
        decreases xs.len(),
    {
        if xs.len() == 0 {
            self
        } else {
            self.after(fpu, xs.drop_last()).processed(fpu, xs.last()).0
        }
    }

    /// The delay is exact to the sample: what goes into the line with one sample comes out of it
    /// `delay_samples` samples later, whatever is heard in between.
    pub proof fn lemma_delay_is_exact<A: Fn(Op, Plain, Plain) -> Plain>(
        self,
        fpu: &Fpu<A>,
        x: Plain,
        xs: Seq<Plain>,
        z: Plain,
    )
        requires
            self.wf(),
            !self.g.equals(num(ZERO)),
            xs.len() + 1 == self.delay_samples,
        ensures
            ({
                let (s, y) = self.processed(fpu, x);
                let v = fpu.add(x, fpu.mul(self.g, y));
                s.after(fpu, xs).processed(fpu, z).1 == fpu.add(fpu.mul(self.g.neg(), z), v)
            }),
    {
        let (s, y) = self.processed(fpu, x);
        let v = fpu.add(x, fpu.mul(self.g, y));
        self.ring.lemma_last_write(v);
        s.lemma_ages(fpu, xs, v);
    }

    proof fn lemma_ages<A: Fn(Op, Plain, Plain) -> Plain>(
        self,
        fpu: &Fpu<A>,
        xs: Seq<Plain>,
        v: Plain,
    )
        requires
            self.wf(),
            !self.g.equals(num(ZERO)),
            self.ring.history(0) == v,
            xs.len() < self.ring.cells.len(),
        ensures
            ({
                let s = self.after(fpu, xs);
                &&& s.wf() && s.g == self.g && s.delay_samples == self.delay_samples
                &&& s.ring.cells.len() == self.ring.cells.len()
                &&& s.ring.history(xs.len() as int) == v
            }),
        decreases xs.len(),
    {
        if xs.len() > 0 {
            let before = self.after(fpu, xs.drop_last());
            self.lemma_ages(fpu, xs.drop_last(), v);
            let y = before.processed(fpu, xs.last()).1;
            let w = fpu.add(xs.last(), fpu.mul(before.g, y));
            before.ring.lemma_last_write(w);
            before.ring.lemma_write_ages(w, xs.len() - 1);
        }
    }
}

/// Single-stage allpass: flat magnitude, dispersive phase, by a whole number of samples.
pub struct AllpassDiffuser {
    pub buf: DelayLine,
    pub delay_samples: usize,
    pub g: Plain,
}

impl View for AllpassDiffuser {
    type V = DiffuserState;

    open spec fn view(&self) -> DiffuserState {
        DiffuserState { ring: self.buf@, delay_samples: self.delay_samples as int, g: self.g }
    }
}

impl AllpassDiffuser {
    pub fn new(max_delay_samples: usize) -> (r: Self)
        requires
            2 <= max_delay_samples <= usize::MAX / 32,
        ensures
            r@.wf(),
            delay::is_capacity(r@.ring.cells.len() as int, max_delay_samples as int),
            r@ == (DiffuserState {
                ring: Ring::silent(r@.ring.cells.len()),
                delay_samples: 0,
                g: num(ZERO),
            }),
    {
        AllpassDiffuser {
            buf: DelayLine::with_cells(max_delay_samples),
            delay_samples: 0,
            g: num(ZERO),
        }
    }

    /// The delay is held to what the line can reach.
    pub fn set_params(&mut self, delay_samples: usize, g: Plain)
        requires
            old(self)@.wf(),
        ensures
            final(self)@ == old(self)@.with_params(delay_samples as int, g),
            final(self)@.wf(),
    {
        let most: usize = self.buf.capacity();
        self.delay_samples = if delay_samples < most {
            delay_samples
        } else {
            most
        };
        self.g = g;
    }

    pub fn reset(&mut self)
        ensures
            final(self)@ == (DiffuserState {
                ring: Ring::silent(old(self)@.ring.cells.len()),
                ..old(self)@
            }),
            old(self)@.wf() ==> final(self)@.wf(),
    {
        self.buf.clear();
    }

    pub fn process<A: Fn(Op, Plain, Plain) -> Plain>(&mut self, fpu: &Fpu<A>, x: Plain) -> (r:
        Plain)
        requires
            fpu.valid(),
            old(self)@.wf(),
        ensures
            (final(self)@, r) == old(self)@.processed(fpu, x),
            final(self)@.wf(),
    {
        if self.g.equals(num(ZERO)) {
            return x;
        }
        let back: usize = if self.delay_samples > 1 {
            self.delay_samples - 1
        } else {
            0
        };
        let delayed = self.buf.past(back);
        let y = fpu.add(fpu.mul(self.g.neg(), x), delayed);
        let v = fpu.add(x, fpu.mul(self.g, y));
        self.buf.write(v);
        y
    }
}

impl DiffuserState {
    pub open spec fn with_params(self, delay_samples: int, g: Plain) -> Self {
        let most = self.ring.cells.len() as int;
        DiffuserState {
            delay_samples: if delay_samples < most {
                delay_samples
            } else {
                most
            },
            g,
            ..self
        }
    }
}

pub open spec fn spec_size_to_delay_s<A: Fn(Op, Plain, Plain) -> Plain>(
    fpu: &Fpu<A>,
    size: Plain,
) -> Plain {
    fpu.mul(
        fpu.add(num(F35), fpu.mul(fpu.sub(num(F180), num(F35)), size.clamp(num(ZERO), num(ONE)))),
        num(F0_001),
    )
}

/// The longest tap in seconds, for a size in `[0, 1]`.
#[verifier::when_used_as_spec(spec_size_to_delay_s)]
pub fn size_to_delay_s<A: Fn(Op, Plain, Plain) -> Plain>(fpu: &Fpu<A>, size: Plain) -> (r: Plain)
    requires
        fpu.valid(),
    ensures
        r == size_to_delay_s(fpu, size),
{
    fpu.mul(
        fpu.add(num(F35), fpu.mul(fpu.sub(num(F180), num(F35)), size.clamp(num(ZERO), num(ONE)))),
        num(F0_001),
    )
}

pub open spec fn spec_damping_fc_hz<A: Fn(Op, Plain, Plain) -> Plain>(
    fpu: &Fpu<A>,
    damping: Plain,
) -> Plain {
    let d = damping.clamp(num(ZERO), num(ONE));
    let lo = fpu.ln(num(F1200));
    let hi = fpu.ln(num(F8000));
    fpu.exp(fpu.add(hi, fpu.mul(fpu.sub(lo, hi), d)))
}

/// The cutoff of the feedback damping: bright at 0, dark at 1.
#[verifier::when_used_as_spec(spec_damping_fc_hz)]
pub fn damping_fc_hz<A: Fn(Op, Plain, Plain) -> Plain>(fpu: &Fpu<A>, damping: Plain) -> (r: Plain)
    requires
        fpu.valid(),
    ensures
        r == damping_fc_hz(fpu, damping),
{
    let d = damping.clamp(num(ZERO), num(ONE));
    let lo = fpu.ln(num(F1200));
    let hi = fpu.ln(num(F8000));
    fpu.exp(fpu.add(hi, fpu.mul(fpu.sub(lo, hi), d)))
}

pub open spec fn spec_mod_rate_hz<A: Fn(Op, Plain, Plain) -> Plain>(
    fpu: &Fpu<A>,
    mod_rate: Plain,
) -> Plain {
    let r = mod_rate.clamp(num(ZERO), num(ONE));
    fpu.mul(num(F0_05), fpu.pow(fpu.div(num(F6), num(F0_05)), r))
}

/// The rate of the clock modulation, log-mapped from `[0, 1]`.
#[verifier::when_used_as_spec(spec_mod_rate_hz)]
pub fn mod_rate_hz<A: Fn(Op, Plain, Plain) -> Plain>(fpu: &Fpu<A>, mod_rate: Plain) -> (r: Plain)
    requires
        fpu.valid(),
    ensures
        r == mod_rate_hz(fpu, mod_rate),
{
    let r = mod_rate.clamp(num(ZERO), num(ONE));
    fpu.mul(num(F0_05), fpu.pow(fpu.div(num(F6), num(F0_05)), r))
}

pub open spec fn spec_reverb_triangle<A: Fn(Op, Plain, Plain) -> Plain>(
    fpu: &Fpu<A>,
    phase: Plain,
) -> Plain {
    fpu.sub(fpu.mul(num(FOUR), fpu.sub(phase, num(HALF)).abs()), num(ONE))
}

/// Triangle in `[-1, 1]` from a phase in `[0, 1)`.
#[verifier::when_used_as_spec(spec_reverb_triangle)]
pub fn reverb_triangle<A: Fn(Op, Plain, Plain) -> Plain>(fpu: &Fpu<A>, phase: Plain) -> (r: Plain)
    requires
        fpu.valid(),
    ensures
        r == reverb_triangle(fpu, phase),
{
    fpu.sub(fpu.mul(num(FOUR), fpu.sub(phase, num(HALF)).abs()), num(ONE))
}

/// What a [`StereoVReverb`] carries from sample to sample.
#[verifier::ext_equal]
pub struct VReverbState {
    pub line: TappedState,
    /// The longest tap of the previous sample, damped and scaled by the decay.
    pub fb: Plain,
    pub damp: OnePoleLpf,
    pub diff_l0: DiffuserState,
    pub diff_l1: DiffuserState,
    pub diff_r0: DiffuserState,
    pub diff_r1: DiffuserState,
    pub out_bank_l: ContinuousPoleBank,
    pub out_bank_r: ContinuousPoleBank,
    pub lfo_phase: Plain,
}

/// What a [`StereoVReverb`] is set to.
#[derive(Clone, Copy, Debug, PartialEq, Eq, Structural)]
pub struct VReverbParams {
    pub full_delay_s: Plain,
    pub decay: Plain,
    pub lfo_inc: Plain,
    /// The largest swing of the delay, as a fraction of it.
    pub mod_depth: Plain,
    pub sample_rate: Plain,
    pub sat: Saturation,
}

impl VReverbParams {
    /// What a new reverb is set to.
    pub open spec fn initial<A: Fn(Op, Plain, Plain) -> Plain>(
        fpu: &Fpu<A>,
        sample_rate: Plain,
    ) -> Self {
        VReverbParams {
            full_delay_s: size_to_delay_s(fpu, num(HALF)),
            decay: num(F0_6),
            lfo_inc: fpu.div(mod_rate_hz(fpu, num(F0_3)), sample_rate),
            mod_depth: fpu.mul(num(F0_2), num(F0_15)),
            sample_rate,
            sat: saturation(fpu, num(F1_2)),
        }
    }
}

impl VReverbState {
    /// A silent reverb as it is made for a rate.
    pub open spec fn is_fresh<A: Fn(Op, Plain, Plain) -> Plain>(
        self,
        fpu: &Fpu<A>,
        sample_rate: Plain,
        seed: u32,
    ) -> bool {
        let secs = fpu.add(num(F0_25), fpu.div(num(TWO), sample_rate));
        &&& delay::is_capacity(
            self.line.ring.cells.len() as int,
            fpu.mul(secs, sample_rate).ceil_index() as int,
        )
        &&& self.line.ring == Ring::silent(self.line.ring.cells.len())
        &&& self.line.input_bank == recon_bank(fpu, sample_rate)
        &&& self.line.jitter == Jitter::seeded(seed, num(ZERO))
        &&& self.fb == num(ZERO)
        &&& self.damp == (OnePoleLpf {
            alpha: lpf_alpha(fpu, damping_fc_hz(fpu, num(HALF)), sample_rate),
            y: num(ZERO),
        })
        &&& self.diff_l0.is_fresh(DIFFUSER_L0 as int)
        &&& self.diff_l1.is_fresh(DIFFUSER_L1 as int)
        &&& self.diff_r0.is_fresh(DIFFUSER_R0 as int)
        &&& self.diff_r1.is_fresh(DIFFUSER_R1 as int)
        &&& self.out_bank_l == recon_bank(fpu, sample_rate)
        &&& self.out_bank_r == recon_bank(fpu, sample_rate)
        &&& self.lfo_phase == num(ZERO)
    }

    pub open spec fn wf(self) -> bool {
        &&& self.line.wf()
        &&& self.diff_l0.wf() && self.diff_l1.wf()
        &&& self.diff_r0.wf() && self.diff_r1.wf()
    }

    /// One sample on: the line takes the dry sample and the feedback; its taps, in
    /// two polarities, go through the diffusers and the output filters.
    #[verifier::opaque]
    pub open spec fn processed<A: Fn(Op, Plain, Plain) -> Plain>(
        self,
        fpu: &Fpu<A>,
        p: VReverbParams,
        dry: Plain,
    ) -> (Self, (Plain, Plain)) {
        let lfo_phase = lfo_advanced(fpu, self.lfo_phase, p.lfo_inc);
        let full_delay = fpu.mul(
            p.full_delay_s,
            fpu.add(num(ONE), fpu.mul(p.mod_depth, reverb_triangle(fpu, lfo_phase))),
        );
        let (line, t) = self.line.processed(
            fpu,
            p.sat,
            p.sample_rate,
            spec_tap_fractions(fpu),
            fpu.add(dry, self.fb),
            full_delay,
        );
        let (damp, fb_filt) = self.damp.processed(fpu, t[5]);
        let mix_l = fpu.sub(fpu.add(fpu.sub(fpu.add(fpu.sub(t[0], t[1]), t[2]), t[3]), t[4]), t[5]);
        let mix_r = fpu.add(fpu.add(fpu.sub(fpu.sub(fpu.add(t[0], t[1]), t[2]), t[3]), t[4]), t[5]);
        let (diff_l0, l0) = self.diff_l0.processed(fpu, fpu.mul(num(F0_4082483), mix_l));
        let (diff_r0, r0) = self.diff_r0.processed(fpu, fpu.mul(num(F0_4082483), mix_r));
        let (diff_l1, l1) = self.diff_l1.processed(fpu, l0);
        let (diff_r1, r1) = self.diff_r1.processed(fpu, r0);
        let out_bank_l = self.out_bank_l.advanced(fpu, l1);
        let out_bank_r = self.out_bank_r.advanced(fpu, r1);
        (
            VReverbState {
                line,
                fb: fast_tanh(fpu, fpu.mul(p.decay, fb_filt)),
                damp,
                diff_l0,
                diff_l1,
                diff_r0,
                diff_r1,
                out_bank_l,
                out_bank_r,
                lfo_phase,
            },
            (
                flush_denormal(out_bank_l.real_output(fpu)),
                flush_denormal(out_bank_r.real_output(fpu)),
            ),
        )
    }

    /// The state and both outputs after the first `n` samples of `dry`.
    #[verifier::opaque]
    pub open spec fn after<A: Fn(Op, Plain, Plain) -> Plain>(
        self,
        fpu: &Fpu<A>,
        p: VReverbParams,
        dry: Seq<Plain>,
        n: nat,
    ) -> (Self, Seq<Plain>, Seq<Plain>)
        decreases n,
    {
        if n == 0 {
            (self, Seq::empty(), Seq::empty())
        } else {
            let (s, l, r) = self.after(fpu, p, dry, (n - 1) as nat);
            let (t, out) = s.processed(fpu, p, dry[n - 1]);
            (t, l.push(out.0), r.push(out.1))
        }
    }

    pub open spec fn cleared(self) -> Self {
        VReverbState {
            line: self.line.cleared(),
            fb: num(ZERO),
            damp: OnePoleLpf { y: num(ZERO), ..self.damp },
            diff_l0: DiffuserState {
                ring: Ring::silent(self.diff_l0.ring.cells.len()),
                ..self.diff_l0
            },
            diff_l1: DiffuserState {
                ring: Ring::silent(self.diff_l1.ring.cells.len()),
                ..self.diff_l1
            },
            diff_r0: DiffuserState {
                ring: Ring::silent(self.diff_r0.ring.cells.len()),
                ..self.diff_r0
            },
            diff_r1: DiffuserState {
                ring: Ring::silent(self.diff_r1.ring.cells.len()),
                ..self.diff_r1
            },
            out_bank_l: self.out_bank_l.silenced(),
            out_bank_r: self.out_bank_r.silenced(),
            lfo_phase: num(ZERO),
        }
    }
}

/// Vintage bucket-brigade reverb: one line with six taps, two polarity mixes for
/// decorrelated stereo, one feedback path through a damping lowpass, and a triangle
/// clock modulation. Puts out the wet signal alone.
pub struct StereoVReverb {
    pub line: TappedDelayLine,
    pub fb: Plain,
    pub damp: OnePoleLpf,
    pub diff_l0: AllpassDiffuser,
    pub diff_l1: AllpassDiffuser,
    pub diff_r0: AllpassDiffuser,
    pub diff_r1: AllpassDiffuser,
    pub out_bank_l: ContinuousPoleBank,
    pub out_bank_r: ContinuousPoleBank,
    pub full_delay_s: Plain,
    pub decay: Plain,
    pub lfo_phase: Plain,
    pub lfo_inc: Plain,
    pub mod_depth: Plain,
    pub sample_rate: Plain,
}

impl View for StereoVReverb {
    type V = VReverbState;

    open spec fn view(&self) -> VReverbState {
        VReverbState {
            line: self.line@,
            fb: self.fb,
            damp: self.damp,
            diff_l0: self.diff_l0@,
            diff_l1: self.diff_l1@,
            diff_r0: self.diff_r0@,
            diff_r1: self.diff_r1@,
            out_bank_l: self.out_bank_l,
            out_bank_r: self.out_bank_r,
            lfo_phase: self.lfo_phase,
        }
    }
}

/// Delays of the left diffusers in samples.
pub const DIFFUSER_L0: usize = 251;

pub const DIFFUSER_L1: usize = 419;

/// Delays of the right diffusers in samples.
pub const DIFFUSER_R0: usize = 311;

pub const DIFFUSER_R1: usize = 487;

impl StereoVReverb {
    /// The line is at the reverb's rate and has the fixed taps.
    pub open spec fn wf<A: Fn(Op, Plain, Plain) -> Plain>(&self, fpu: &Fpu<A>) -> bool {
        &&& self@.wf()
        &&& self.line.sample_rate == self.sample_rate
        &&& self.line.tap_frac@ == spec_tap_fractions(fpu)
    }

    pub open spec fn params(&self) -> VReverbParams {
        VReverbParams {
            full_delay_s: self.full_delay_s,
            decay: self.decay,
            lfo_inc: self.lfo_inc,
            mod_depth: self.mod_depth,
            sample_rate: self.sample_rate,
            sat: self.line.sat,
        }
    }

    /// The rate leaves the line within what memory can hold.
    pub open spec fn fits<A: Fn(Op, Plain, Plain) -> Plain>(
        fpu: &Fpu<A>,
        sample_rate: Plain,
    ) -> bool {
        let secs = fpu.add(num(F0_25), fpu.div(num(TWO), sample_rate));
        fpu.mul(secs, sample_rate).ceil_index() <= usize::MAX / 32
    }

    /// Whether the line at a rate is within what memory can hold.
    pub fn can_fit<A: Fn(Op, Plain, Plain) -> Plain>(fpu: &Fpu<A>, sample_rate: Plain) -> (r: bool)
        requires
            fpu.valid(),
        ensures
            r == StereoVReverb::fits(fpu, sample_rate),
    {
        let secs = fpu.add(num(F0_25), fpu.div(num(TWO), sample_rate));
        fpu.mul(secs, sample_rate).ceil_index() <= usize::MAX / 32
    }

    pub fn new<A: Fn(Op, Plain, Plain) -> Plain>(
        fpu: &Fpu<A>,
        sample_rate: Plain,
        seed: u32,
    ) -> (r: Self)
        requires
            fpu.valid(),
            StereoVReverb::fits(fpu, sample_rate),
        ensures
            r.wf(fpu),
            r@.is_fresh(fpu, sample_rate, seed),
            r.params() == VReverbParams::initial(fpu, sample_rate),
    {
        let line = TappedDelayLine::new(fpu, num(F0_25), sample_rate, num(F1_2), seed);
        let mut damp = OnePoleLpf::default();
        damp.set_cutoff(fpu, damping_fc_hz(fpu, num(HALF)), sample_rate);
        StereoVReverb {
            line,
            fb: num(ZERO),
            damp,
            diff_l0: AllpassDiffuser::new(DIFFUSER_L0),
            diff_l1: AllpassDiffuser::new(DIFFUSER_L1),
            diff_r0: AllpassDiffuser::new(DIFFUSER_R0),
            diff_r1: AllpassDiffuser::new(DIFFUSER_R1),
            out_bank_l: recon_bank(fpu, sample_rate),
            out_bank_r: recon_bank(fpu, sample_rate),
            full_delay_s: size_to_delay_s(fpu, num(HALF)),
            decay: num(F0_6),
            lfo_phase: num(ZERO),
            lfo_inc: fpu.div(mod_rate_hz(fpu, num(F0_3)), sample_rate),
            mod_depth: fpu.mul(num(F0_2), num(F0_15)),
            sample_rate,
        }
    }

    /// Set the six underlying knobs, each in `[0, 1]`; the decay is held to 0.95.
    pub fn set_params<A: Fn(Op, Plain, Plain) -> Plain>(
        &mut self,
        fpu: &Fpu<A>,
        size: Plain,
        decay: Plain,
        damping: Plain,
        mod_rate: Plain,
        mod_depth: Plain,
        jitter: Plain,
    )
        requires
            fpu.valid(),
            old(self).wf(fpu),
        ensures
            final(self).wf(fpu),
            final(self).params() == (VReverbParams {
                full_delay_s: size_to_delay_s(fpu, size),
                decay: decay.clamp(num(ZERO), num(F0_95)),
                lfo_inc: fpu.div(mod_rate_hz(fpu, mod_rate), old(self).sample_rate),
                mod_depth: fpu.mul(mod_depth.clamp(num(ZERO), num(ONE)), num(F0_15)),
                ..old(self).params()
            }),
            final(self)@ == (VReverbState {
                line: TappedState {
                    jitter: Jitter {
                        amount: jitter.clamp(num(ZERO), num(ONE)),
                        ..old(self)@.line.jitter
                    },
                    ..old(self)@.line
                },
                damp: OnePoleLpf {
                    alpha: lpf_alpha(fpu, damping_fc_hz(fpu, damping), old(self).sample_rate),
                    ..old(self).damp
                },
                ..old(self)@
            }),
    {
        self.full_delay_s = size_to_delay_s(fpu, size);
        self.decay = decay.clamp(num(ZERO), num(F0_95));
        self.damp.set_cutoff(fpu, damping_fc_hz(fpu, damping), self.sample_rate);
        self.lfo_inc = fpu.div(mod_rate_hz(fpu, mod_rate), self.sample_rate);
        self.mod_depth = fpu.mul(mod_depth.clamp(num(ZERO), num(ONE)), num(F0_15));
        self.line.set_jitter_amount(jitter);
    }

    /// Set the diffusion in `[0, 1]`: 0 is a bypass, 1 the largest stable
    /// coefficient.
    pub fn set_diffusion<A: Fn(Op, Plain, Plain) -> Plain>(&mut self, fpu: &Fpu<A>, amount: Plain)
        requires
            fpu.valid(),
            old(self).wf(fpu),
        ensures
            final(self).wf(fpu),
            final(self).params() == old(self).params(),
            ({
                let g = fpu.mul(amount.clamp(num(ZERO), num(ONE)), num(F0_7));
                final(self)@ == VReverbState {
                    diff_l0: old(self)@.diff_l0.with_params(DIFFUSER_L0 as int, g),
                    diff_l1: old(self)@.diff_l1.with_params(DIFFUSER_L1 as int, g),
                    diff_r0: old(self)@.diff_r0.with_params(DIFFUSER_R0 as int, g),
                    diff_r1: old(self)@.diff_r1.with_params(DIFFUSER_R1 as int, g),
                    ..old(self)@
                }
            }),
    {
        let g = fpu.mul(amount.clamp(num(ZERO), num(ONE)), num(F0_7));
        self.diff_l0.set_params(DIFFUSER_L0, g);
        self.diff_r0.set_params(DIFFUSER_R0, g);
        self.diff_l1.set_params(DIFFUSER_L1, g);
        self.diff_r1.set_params(DIFFUSER_R1, g);
    }

    /// Silence the reverb. Its parameters stay.
    pub fn reset<A: Fn(Op, Plain, Plain) -> Plain>(&mut self, fpu: &Fpu<A>)
        requires
            old(self).wf(fpu),
        ensures
            final(self).wf(fpu),
            final(self).params() == old(self).params(),
            final(self)@ == old(self)@.cleared(),
    {
        self.line.clear();
        self.fb = num(ZERO);
        self.damp.reset();
        self.diff_l0.reset();
        self.diff_r0.reset();
        self.diff_l1.reset();
        self.diff_r1.reset();
        self.out_bank_l.reset();
        self.out_bank_r.reset();
        self.lfo_phase = num(ZERO);
    }

    /// Process one sample of the dry signal.
    fn process<A: Fn(Op, Plain, Plain) -> Plain>(&mut self, fpu: &Fpu<A>, dry: Plain) -> (r: (
        Plain,
        Plain,
    ))
        requires
            fpu.valid(),
            old(self).wf(fpu),
        ensures
            final(self).wf(fpu),
            final(self).params() == old(self).params(),
            (final(self)@, r) == old(self)@.processed(fpu, old(self).params(), dry),
    {
        reveal(VReverbState::processed);
        self.lfo_phase = lfo_advanced(fpu, self.lfo_phase, self.lfo_inc);
        let full_delay = fpu.mul(
            self.full_delay_s,
            fpu.add(num(ONE), fpu.mul(self.mod_depth, reverb_triangle(fpu, self.lfo_phase))),
        );
        let t = self.line.process_tapped(fpu, fpu.add(dry, self.fb), full_delay);
        let fb_filt = self.damp.process(fpu, t[5]);
        self.fb = fast_tanh(fpu, fpu.mul(self.decay, fb_filt));
        let mix_l = fpu.sub(fpu.add(fpu.sub(fpu.add(fpu.sub(t[0], t[1]), t[2]), t[3]), t[4]), t[5]);
        let mix_r = fpu.add(fpu.add(fpu.sub(fpu.sub(fpu.add(t[0], t[1]), t[2]), t[3]), t[4]), t[5]);
        let l0 = self.diff_l0.process(fpu, fpu.mul(num(F0_4082483), mix_l));
        let r0 = self.diff_r0.process(fpu, fpu.mul(num(F0_4082483), mix_r));
        let l1 = self.diff_l1.process(fpu, l0);
        let r1 = self.diff_r1.process(fpu, r0);
        self.out_bank_l.advance(fpu, l1);
        self.out_bank_r.advance(fpu, r1);
        (
            flush_denormal(self.out_bank_l.real_output(fpu)),
            flush_denormal(self.out_bank_r.real_output(fpu)),
        )
    }

    /// Run one block over as many samples as all three slices have. `l` and `r`
    /// receive the wet signal; what they hold beyond stays.
    pub fn process_block<A: Fn(Op, Plain, Plain) -> Plain>(
        &mut self,
        fpu: &Fpu<A>,
        dry: &[Plain],
        l: &mut [Plain],
        r: &mut [Plain],
    )
        requires
            fpu.valid(),
            old(self).wf(fpu),
        ensures
            final(self).wf(fpu),
            final(self).params() == old(self).params(),
            final(l)@.len() == old(l)@.len(),
            final(r)@.len() == old(r)@.len(),
            ({
                let n = block_len(dry@, old(l)@, old(r)@);
                let (s, wet_l, wet_r) = old(self)@.after(fpu, old(self).params(), dry@, n);
                &&& final(self)@ == s
                &&& final(l)@ == wet_l + old(l)@.skip(n as int)
                &&& final(r)@ == wet_r + old(r)@.skip(n as int)
            }),
    {
        let mut n: usize = dry.len();
        if l.len() < n {
            n = l.len();
        }
        if r.len() < n {
            n = r.len();
        }
        let mut i: usize = 0;
        proof {
            reveal(VReverbState::after);
            assert(l@ =~= Seq::<Plain>::empty() + l@.skip(0));
            assert(r@ =~= Seq::<Plain>::empty() + r@.skip(0));
        }
        while i < n
            invariant
                fpu.valid(),
                self.wf(fpu),
                self.params() == old(self).params(),
                i <= n,
                n == block_len(dry@, old(l)@, old(r)@),
                l@.len() == old(l)@.len(),
                r@.len() == old(r)@.len(),
                ({
                    let (s, wet_l, wet_r) = old(self)@.after(
                        fpu,
                        old(self).params(),
                        dry@,
                        i as nat,
                    );
                    &&& self@ == s
                    &&& wet_l.len() == i
                    &&& wet_r.len() == i
                    &&& l@ == wet_l + old(l)@.skip(i as int)
                    &&& r@ == wet_r + old(r)@.skip(i as int)
                }),
            decreases n - i,
        {
            reveal(VReverbState::after);
            let (x, y) = self.process(fpu, dry[i]);
            let ghost (l0, r0) = (l@, r@);
            l[i] = x;
            r[i] = y;
            i = i + 1;
            proof {
                let (s, wet_l, wet_r) = old(self)@.after(fpu, old(self).params(), dry@, i as nat);
                assert(l@ =~= wet_l + old(l)@.skip(i as int));
                assert(r@ =~= wet_r + old(r)@.skip(i as int));
            }
        }
    }
}

/// The samples that a block covers.
pub open spec fn block_len(dry: Seq<Plain>, l: Seq<Plain>, r: Seq<Plain>) -> nat {
    let n = if l.len() < dry.len() {
        l.len()
    } else {
        dry.len()
    };
    if r.len() < n {
        r.len()
    } else {
        n
    }
}

impl DiffuserState {
    /// Silent, bypassed, and with room for `n` samples.
    pub open spec fn is_fresh(self, n: int) -> bool {
        &&& delay::is_capacity(self.ring.cells.len() as int, n)
        &&& self.ring == Ring::silent(self.ring.cells.len())
        &&& self.delay_samples == 0
        &&& self.g == num(ZERO)
    }
}

/// With no decay nothing is fed back after any sample, whatever the line holds.
pub proof fn lemma_no_decay_no_feedback<A: Fn(Op, Plain, Plain) -> Plain>(
    fpu: &Fpu<A>,
    s: VReverbState,
    p: VReverbParams,
    dry: Plain,
)
    requires
        fpu.rounds(),
        p.decay.is_zero(),
        s.processed(fpu, p, dry).0.damp.y.is_finite(),
    ensures
        s.processed(fpu, p, dry).0.fb.is_zero(),
{
    reveal(VReverbState::processed);
    let y = s.processed(fpu, p, dry).0.damp.y;
    fpu.lemma_none_of(y, p.decay);
    math::lemma_tanh_keeps_sign(fpu, fpu.mul(p.decay, y));
}

/// A longer decay feeds back no less: with two decays and the same line, what the damping
/// filter lets through is the same, and the feedback of the longer decay is at least as large,
/// so long as the saturation keeps the order of the two shares of it.
pub proof fn lemma_longer_decay_feeds_back_more<A: Fn(Op, Plain, Plain) -> Plain>(
    fpu: &Fpu<A>,
    s: VReverbState,
    short: VReverbParams,
    long: VReverbParams,
    dry: Plain,
)
    requires
        fpu.rounds(),
        long == (VReverbParams { decay: long.decay, ..short }),
        short.decay.is_finite() && long.decay.is_finite(),
        0 <= short.decay.scaled() && short.decay.at_most(long.decay),
        s.processed(fpu, short, dry).0.damp.y.is_finite(),
        ({
            let y = s.processed(fpu, short, dry).0.damp.y;
            math::tanh_keeps_order(fpu, fpu.mul(short.decay, y), fpu.mul(long.decay, y))
        }),
    ensures
        ({
            let (a, b) = (s.processed(fpu, short, dry).0, s.processed(fpu, long, dry).0);
            &&& a.damp == b.damp && a.line == b.line
            &&& a.fb.mag() <= b.fb.mag()
        }),
{
    reveal(VReverbState::processed);
    let y = s.processed(fpu, short, dry).0.damp.y;
    let (d, e, w) = (short.decay.scaled(), long.decay.scaled(), y.scaled());
    plain::lemma_equal_scaled(short.decay, long.decay);
    plain::lemma_small_values();
    let (a, b) = (fpu.mul(short.decay, y), fpu.mul(long.decay, y));
    let u = plain::unit();
    assert(0 * u == 0) by (nonlinear_arith);
    if w >= 0 {
        assert(0 <= d * w && d * w <= e * w) by (nonlinear_arith)
            requires
                0 <= d <= e,
                w >= 0,
        ;
        fpu.lemma_mul_side(short.decay, y, num(ZERO));
        fpu.lemma_mul_order(short.decay, y, long.decay, y);
    } else {
        assert(e * w <= d * w && d * w <= 0) by (nonlinear_arith)
            requires
                0 <= d <= e,
                w < 0,
        ;
        fpu.lemma_mul_side(short.decay, y, num(ZERO));
        fpu.lemma_mul_order(long.decay, y, short.decay, y);
    }
}

/// What is fed back has the sign of what the damping filter lets through, and at full decay is
/// that, saturated.
pub proof fn lemma_feedback_keeps_sign<A: Fn(Op, Plain, Plain) -> Plain>(
    fpu: &Fpu<A>,
    s: VReverbState,
    p: VReverbParams,
    dry: Plain,
)
    requires
        fpu.rounds(),
        p.decay.is_finite() && 0 <= p.decay.scaled(),
        s.processed(fpu, p, dry).0.damp.y.is_finite(),
        fpu.mul(p.decay, s.processed(fpu, p, dry).0.damp.y).is_finite(),
    ensures
        ({
            let next = s.processed(fpu, p, dry).0;
            &&& next.damp.y.scaled() >= 0 ==> next.fb.scaled() >= 0
            &&& next.damp.y.scaled() <= 0 ==> next.fb.scaled() <= 0
            &&& p.decay == num(ONE) && next.damp.y.is_normal() ==> next.fb == fast_tanh(
                fpu,
                next.damp.y,
            )
        }),
{
    reveal(VReverbState::processed);
    let y = s.processed(fpu, p, dry).0.damp.y;
    let x = fpu.mul(p.decay, y);
    plain::lemma_small_values();
    let (d, w, u) = (p.decay.scaled(), y.scaled(), plain::unit());
    assert(0 * u == 0 && (w >= 0 ==> d * w >= 0) && (w <= 0 ==> d * w <= 0)) by (nonlinear_arith)
        requires
            d >= 0,
    ;
    fpu.lemma_mul_side(p.decay, y, num(ZERO));
    plain::lemma_equal_scaled(x, num(ZERO));
    math::lemma_tanh_keeps_sign(fpu, x);
    if p.decay == num(ONE) && y.is_normal() {
        fpu.lemma_all_of(y);
        assert(x == y);
    }
}

/// Without modulation depth the delay stands still: the oscillator that would swing it is not
/// heard.
pub proof fn lemma_no_depth_no_swing<A: Fn(Op, Plain, Plain) -> Plain>(
    fpu: &Fpu<A>,
    s: VReverbState,
    p: VReverbParams,
    dry: Plain,
    phase: Plain,
)
    requires
        fpu.rounds(),
        p.mod_depth.is_zero(),
        p.full_delay_s.is_normal(),
        reverb_triangle(fpu, lfo_advanced(fpu, s.lfo_phase, p.lfo_inc)).is_finite(),
        reverb_triangle(fpu, lfo_advanced(fpu, phase, p.lfo_inc)).is_finite(),
    ensures
        ({
            let (a, x) = s.processed(fpu, p, dry);
            let (b, y) = (VReverbState { lfo_phase: phase, ..s }).processed(fpu, p, dry);
            &&& x == y
            &&& a == (VReverbState { lfo_phase: a.lfo_phase, ..b })
        }),
{
    reveal(VReverbState::processed);
    lemma_still(fpu, p.full_delay_s, p.mod_depth, lfo_advanced(fpu, s.lfo_phase, p.lfo_inc));
    lemma_still(fpu, p.full_delay_s, p.mod_depth, lfo_advanced(fpu, phase, p.lfo_inc));
}

proof fn lemma_still<A: Fn(Op, Plain, Plain) -> Plain>(
    fpu: &Fpu<A>,
    delay: Plain,
    depth: Plain,
    phase: Plain,
)
    requires
        fpu.rounds(),
        depth.is_zero(),
        delay.is_normal(),
        reverb_triangle(fpu, phase).is_finite(),
    ensures
        fpu.mul(delay, fpu.add(num(ONE), fpu.mul(depth, reverb_triangle(fpu, phase)))) == delay,
{
    plain::lemma_small_values();
    let t = fpu.mul(depth, reverb_triangle(fpu, phase));
    fpu.lemma_none_of(reverb_triangle(fpu, phase), depth);
    fpu.lemma_nothing_added(num(ONE), t);
    assert(fpu.add(num(ONE), t) == num(ONE));
    fpu.lemma_all_of(delay);
}

/// A larger size is no shorter a reverb, and a size beyond an end is taken as the end.
pub proof fn lemma_size_lengthens<A: Fn(Op, Plain, Plain) -> Plain>(
    fpu: &Fpu<A>,
    small: Plain,
    large: Plain,
)
    requires
        fpu.rounds(),
        !small.is_nan() && !large.is_nan(),
        small.at_most(large),
    ensures
        size_to_delay_s(fpu, small).at_most(size_to_delay_s(fpu, large)),
        small.at_most(num(ZERO)) ==> size_to_delay_s(fpu, small).equals(
            fpu.mul(num(F35), num(F0_001)),
        ),
        num(ONE).at_most(large) ==> size_to_delay_s(fpu, large).equals(
            fpu.mul(num(F180), num(F0_001)),
        ),
{
    plain::lemma_small_values();
    vstd::arithmetic::power2::lemma2_to64();
    plain::lemma_whole_value(F35, 35, 18);
    plain::lemma_whole_value(F180, 180, 16);
    plain::lemma_whole_value(0x4311_0000, 145, 16);
    let u = plain::unit();
    let range = fpu.sub(num(F180), num(F35));
    fpu.lemma_sub_side(num(F180), num(F35), num(0x4311_0000));
    assert(range == num(0x4311_0000));
    let (a, b) = (small.clamp(num(ZERO), num(ONE)), large.clamp(num(ZERO), num(ONE)));
    plain::lemma_equal_scaled(a, b);
    plain::lemma_equal_scaled(num(ZERO), a);
    plain::lemma_equal_scaled(b, num(ONE));
    let (p, q) = (fpu.mul(range, a), fpu.mul(range, b));
    let (s, t) = (a.scaled(), b.scaled());
    assert(0 * u <= (145 * u) * s && (145 * u) * s <= (145 * u) * t && (145 * u) * t <= (145 * u)
        * u) by (nonlinear_arith)
        requires
            0 <= s <= t <= u,
            u > 0,
    ;
    fpu.lemma_mul_side(range, a, num(ZERO));
    fpu.lemma_mul_side(range, b, num(0x4311_0000));
    fpu.lemma_mul_order(range, a, range, b);
    plain::lemma_between_finite(num(ZERO), p, num(0x4311_0000));
    plain::lemma_between_finite(num(ZERO), q, num(0x4311_0000));
    plain::lemma_equal_scaled(p, q);
    let (x, y) = (fpu.add(num(F35), p), fpu.add(num(F35), q));
    fpu.lemma_add_order(num(F35), p, num(F35), q);
    fpu.lemma_add_side(num(F35), p, num(F35));
    fpu.lemma_add_side(num(F35), q, num(F180));
    plain::lemma_between_finite(num(F35), x, num(F180));
    plain::lemma_between_finite(num(F35), y, num(F180));
    plain::lemma_scaled_sign(num(F0_001));
    fpu.lemma_scaling_rises(x, y, num(F0_001));
    if small.at_most(num(ZERO)) {
        plain::lemma_equal_scaled(a, num(ZERO));
        assert((145 * u) * 0 == 0 * u) by (nonlinear_arith);
        fpu.lemma_mul_side(range, a, num(ZERO));
        plain::lemma_equal_scaled(p, num(ZERO));
        fpu.lemma_add_side(num(F35), p, num(F35));
        assert(x == num(F35));
    }
    if num(ONE).at_most(large) {
        fpu.lemma_mul_side(range, b, num(0x4311_0000));
        plain::lemma_equal_scaled(q, num(0x4311_0000));
        fpu.lemma_add_side(num(F35), q, num(F180));
        assert(y == num(F180));
    }
}

/// One more tap in a sum of taps of which one alone sounds.
proof fn lemma_tap_joins<A: Fn(Op, Plain, Plain) -> Plain>(
    fpu: &Fpu<A>,
    sum: Plain,
    t: Plain,
    x: Plain,
    here: bool,
    v: Plain,
)
    requires
        fpu.rounds(),
        x.is_normal() && v.is_normal(),
        here ==> sum.is_zero() && t == x,
        !here ==> t.is_zero() && (sum.is_zero() || sum == v),
    ensures
        here ==> fpu.add(sum, t) == x && fpu.sub(sum, t) == x.neg(),
        !here && sum == v ==> fpu.add(sum, t) == v && fpu.sub(sum, t) == v,
        !here && sum.is_zero() ==> fpu.add(sum, t).is_zero() && fpu.sub(sum, t).is_zero(),
{
    if here {
        plain::lemma_zero_scaled(sum);
        plain::lemma_neg_scaled(x);
        fpu.lemma_add_side(sum, t, x);
        fpu.lemma_sub_side(sum, t, x.neg());
    } else if sum == v {
        fpu.lemma_nothing_added(v, t);
    } else {
        fpu.lemma_nothing_added(sum, t);
    }
}

/// The sides hear the taps in two polarities, so that they differ: with one tap alone sounding,
/// what goes into the first diffuser of each side is the scaled tap, turned over on the left for
/// every second tap, and on the right for the third and the fourth. Each side then goes through
/// both of its own diffusers and its own output filter.
pub proof fn lemma_taps_in_two_polarities<A: Fn(Op, Plain, Plain) -> Plain>(
    fpu: &Fpu<A>,
    s: VReverbState,
    p: VReverbParams,
    dry: Plain,
    k: int,
)
    requires
        fpu.rounds(),
        0 <= k < 6,
        ({
            let phase = lfo_advanced(fpu, s.lfo_phase, p.lfo_inc);
            let full = fpu.mul(
                p.full_delay_s,
                fpu.add(num(ONE), fpu.mul(p.mod_depth, reverb_triangle(fpu, phase))),
            );
            let t = s.line.processed(
                fpu,
                p.sat,
                p.sample_rate,
                spec_tap_fractions(fpu),
                fpu.add(dry, s.fb),
                full,
            ).1;
            &&& t[k].is_normal()
            &&& forall|j: int| 0 <= j < 6 && j != k ==> (#[trigger] t[j]).is_zero()
            &&& fpu.mul(num(F0_4082483), t[k]).is_normal()
        }),
    ensures
        ({
            let phase = lfo_advanced(fpu, s.lfo_phase, p.lfo_inc);
            let full = fpu.mul(
                p.full_delay_s,
                fpu.add(num(ONE), fpu.mul(p.mod_depth, reverb_triangle(fpu, phase))),
            );
            let t = s.line.processed(
                fpu,
                p.sat,
                p.sample_rate,
                spec_tap_fractions(fpu),
                fpu.add(dry, s.fb),
                full,
            ).1;
            let y = fpu.mul(num(F0_4082483), t[k]);
            let next = s.processed(fpu, p, dry).0;
            let left = if k % 2 == 1 {
                y.neg()
            } else {
                y
            };
            let right = if k == 2 || k == 3 {
                y.neg()
            } else {
                y
            };
            let (l0, r0) = (s.diff_l0.processed(fpu, left), s.diff_r0.processed(fpu, right));
            let (l1, r1) = (s.diff_l1.processed(fpu, l0.1), s.diff_r1.processed(fpu, r0.1));
            &&& next.diff_l0 == l0.0 && next.diff_r0 == r0.0
            &&& next.diff_l1 == l1.0 && next.diff_r1 == r1.0
            &&& next.out_bank_l == s.out_bank_l.advanced(fpu, l1.1)
            &&& next.out_bank_r == s.out_bank_r.advanced(fpu, r1.1)
        }),
{
    reveal(VReverbState::processed);
    let phase = lfo_advanced(fpu, s.lfo_phase, p.lfo_inc);
    let full = fpu.mul(
        p.full_delay_s,
        fpu.add(num(ONE), fpu.mul(p.mod_depth, reverb_triangle(fpu, phase))),
    );
    let t = s.line.processed(
        fpu,
        p.sat,
        p.sample_rate,
        spec_tap_fractions(fpu),
        fpu.add(dry, s.fb),
        full,
    ).1;
    let x = t[k];
    let left = if k % 2 == 1 {
        x.neg()
    } else {
        x
    };
    let right = if k == 2 || k == 3 {
        x.neg()
    } else {
        x
    };
    let l1 = fpu.sub(t[0], t[1]);
    let l2 = fpu.add(l1, t[2]);
    let l3 = fpu.sub(l2, t[3]);
    let l4 = fpu.add(l3, t[4]);
    lemma_tap_joins(fpu, t[0], t[1], x, k == 1, left);
    lemma_tap_joins(fpu, l1, t[2], x, k == 2, left);
    lemma_tap_joins(fpu, l2, t[3], x, k == 3, left);
    lemma_tap_joins(fpu, l3, t[4], x, k == 4, left);
    lemma_tap_joins(fpu, l4, t[5], x, k == 5, left);
    let r1 = fpu.add(t[0], t[1]);
    let r2 = fpu.sub(r1, t[2]);
    let r3 = fpu.sub(r2, t[3]);
    let r4 = fpu.add(r3, t[4]);
    lemma_tap_joins(fpu, t[0], t[1], x, k == 1, right);
    lemma_tap_joins(fpu, r1, t[2], x, k == 2, right);
    lemma_tap_joins(fpu, r2, t[3], x, k == 3, right);
    lemma_tap_joins(fpu, r3, t[4], x, k == 4, right);
    lemma_tap_joins(fpu, r4, t[5], x, k == 5, right);
    fpu.lemma_mul_turns(x, num(F0_4082483));
    let (a, b) = (x.scaled(), num(F0_4082483).scaled());
    assert(a * b == b * a) by (nonlinear_arith);
    fpu.lemma_mul_order(x, num(F0_4082483), num(F0_4082483), x);
    fpu.lemma_mul_order(num(F0_4082483), x, x, num(F0_4082483));
    assert(fpu.mul(num(F0_4082483), x.neg()) == fpu.mul(num(F0_4082483), x).neg());
}

/// More damping is a lower cutoff, so long as the unit keeps the order of the two logarithms and
/// of the two exponentials; without damping it is the bright end.
pub proof fn lemma_damping_darkens<A: Fn(Op, Plain, Plain) -> Plain>(
    fpu: &Fpu<A>,
    less: Plain,
    more: Plain,
)
    requires
        fpu.rounds(),
        less.at_most(more),
        ({
            let (lo, hi) = (fpu.ln(num(F1200)), fpu.ln(num(F8000)));
            &&& lo.is_number() && hi.is_number() && lo.at_most(hi)
            &&& -16 * plain::unit() <= lo.scaled() && hi.scaled() <= 16 * plain::unit()
        }),
        forall|x: Plain, y: Plain|
            x.at_most(y) ==> #[trigger] fpu.exp(x).at_most(#[trigger] fpu.exp(y)),
    ensures
        damping_fc_hz(fpu, more).at_most(damping_fc_hz(fpu, less)),
        less.at_most(num(ZERO)) ==> damping_fc_hz(fpu, less) == fpu.exp(fpu.ln(num(F8000)))
            || fpu.ln(num(F8000)).is_zero(),
{
    plain::lemma_small_values();
    vstd::arithmetic::power2::lemma2_to64();
    plain::lemma_whole_value(0x4200_0000, 32, 18);
    plain::lemma_whole_value(0x4280_0000, 64, 17);
    let u = plain::unit();
    let (lo, hi) = (fpu.ln(num(F1200)), fpu.ln(num(F8000)));
    plain::lemma_equal_scaled(lo, hi);
    let (c, d) = (less.clamp(num(ZERO), num(ONE)), more.clamp(num(ZERO), num(ONE)));
    plain::lemma_equal_scaled(c, d);
    plain::lemma_equal_scaled(num(ZERO), c);
    plain::lemma_equal_scaled(d, num(ONE));
    let w = fpu.sub(lo, hi);
    fpu.lemma_add_within(lo, hi, 16 * u, 16 * u, num(0x4200_0000));
    fpu.lemma_sub_side(lo, hi, num(ZERO));
    plain::lemma_equal_scaled(w, num(ZERO));
    let (k, s, t) = (w.scaled(), c.scaled(), d.scaled());
    assert(k * t <= k * s) by (nonlinear_arith)
        requires
            k <= 0,
            s <= t,
    ;
    fpu.lemma_mul_within(w, c, 32 * u, u, num(0x4200_0000));
    fpu.lemma_mul_within(w, d, 32 * u, u, num(0x4200_0000));
    fpu.lemma_mul_order(w, d, w, c);
    let (a, b) = (fpu.mul(w, c), fpu.mul(w, d));
    plain::lemma_equal_scaled(b, a);
    fpu.lemma_add_order(hi, b, hi, a);
    if less.at_most(num(ZERO)) {
        plain::lemma_equal_scaled(c, num(ZERO));
        plain::lemma_scaled_sign(c);
        fpu.lemma_none_of(w, c);
        fpu.lemma_nothing_added(hi, a);
    }
}

/// A higher rate knob is a faster modulation, so long as the unit keeps the order of the two
/// powers.
pub proof fn lemma_rate_knob_speeds_up<A: Fn(Op, Plain, Plain) -> Plain>(
    fpu: &Fpu<A>,
    low: Plain,
    high: Plain,
)
    requires
        fpu.rounds(),
        low.at_most(high),
        ({
            let span = fpu.div(num(F6), num(F0_05));
            let (a, b) = (low.clamp(num(ZERO), num(ONE)), high.clamp(num(ZERO), num(ONE)));
            &&& fpu.pow(span, a).is_finite() && fpu.pow(span, b).is_finite()
            &&& a.at_most(b) ==> fpu.pow(span, a).at_most(fpu.pow(span, b))
        }),
    ensures
        mod_rate_hz(fpu, low).at_most(mod_rate_hz(fpu, high)),
{
    let span = fpu.div(num(F6), num(F0_05));
    let (a, b) = (low.clamp(num(ZERO), num(ONE)), high.clamp(num(ZERO), num(ONE)));
    plain::lemma_scaled_sign(num(F0_05));
    fpu.lemma_scaling_rises(fpu.pow(span, a), fpu.pow(span, b), num(F0_05));
}

/// A cleared reverb holds nothing of what it heard, and keeps its settings.
pub proof fn lemma_cleared_holds_nothing(s: VReverbState, i: int)
    ensures
        ({
            let r = s.cleared();
            &&& r.fb.is_zero() && r.damp.y.is_zero() && r.lfo_phase.is_zero()
            &&& 0 <= i < s.line.ring.cells.len() ==> r.line.ring.cells[i].is_zero()
            &&& 0 <= i < s.diff_l0.ring.cells.len() ==> r.diff_l0.ring.cells[i].is_zero()
            &&& 0 <= i < s.diff_l1.ring.cells.len() ==> r.diff_l1.ring.cells[i].is_zero()
            &&& 0 <= i < s.diff_r0.ring.cells.len() ==> r.diff_r0.ring.cells[i].is_zero()
            &&& 0 <= i < s.diff_r1.ring.cells.len() ==> r.diff_r1.ring.cells[i].is_zero()
            &&& r.line.ring.cells.len() == s.line.ring.cells.len()
            &&& r.diff_l0.delay_samples == s.diff_l0.delay_samples && r.diff_l0.g == s.diff_l0.g
            &&& r.diff_l1.delay_samples == s.diff_l1.delay_samples && r.diff_l1.g == s.diff_l1.g
            &&& r.diff_r0.delay_samples == s.diff_r0.delay_samples && r.diff_r0.g == s.diff_r0.g
            &&& r.diff_r1.delay_samples == s.diff_r1.delay_samples && r.diff_r1.g == s.diff_r1.g
            &&& r.damp.alpha == s.damp.alpha
        }),
{
}

/// What a diffuser puts out is the delayed sample less its share of the new one: with nothing in
/// the line the share alone, turned over, and with nothing new the delayed sample alone; what it
/// writes is the new sample, with nothing to put out.
pub proof fn lemma_diffuser_shares<A: Fn(Op, Plain, Plain) -> Plain>(
    fpu: &Fpu<A>,
    s: DiffuserState,
    x: Plain,
    r: Plain,
)
    requires
        fpu.rounds(),
        s.g.is_normal() && x.is_finite() && s.delayed().is_number() && r.is_number(),
    ensures
        ({
            let y = s.processed(fpu, x).1;
            &&& s.delayed().is_zero() && r.scaled() * plain::unit() == -(s.g.scaled() * x.scaled())
                ==> y.equals(r)
            &&& x.is_zero() ==> y.equals(s.delayed())
        }),
{
    plain::lemma_neg_scaled(s.g);
    let (g, k) = (s.g.scaled(), x.scaled());
    assert((-g) * k == -(g * k)) by (nonlinear_arith);
    fpu.lemma_mul_side(s.g.neg(), x, r);
    let m = fpu.mul(s.g.neg(), x);
    if x.is_zero() {
        fpu.lemma_none_of(s.g.neg(), x);
        fpu.lemma_nothing_added(s.delayed(), m);
    }
    if s.delayed().is_zero() && r.scaled() * plain::unit() == -(g * k) {
        plain::lemma_zero_scaled(s.delayed());
        plain::lemma_equal_scaled(m, r);
        fpu.lemma_add_side(m, s.delayed(), r);
    }
}

/// The loop is fed by the last tap alone, which lies at the full delay: with nothing at that tap
/// and a damping filter at rest nothing is fed back, whatever the other taps read.
pub proof fn lemma_last_tap_feeds_back<A: Fn(Op, Plain, Plain) -> Plain>(
    fpu: &Fpu<A>,
    s: VReverbState,
    p: VReverbParams,
    dry: Plain,
)
    requires
        fpu.rounds(),
        s.damp.alpha.is_finite() && p.decay.is_finite(),
        s.damp.y.is_zero(),
        ({
            let phase = lfo_advanced(fpu, s.lfo_phase, p.lfo_inc);
            let full = fpu.mul(
                p.full_delay_s,
                fpu.add(num(ONE), fpu.mul(p.mod_depth, reverb_triangle(fpu, phase))),
            );
            s.line.processed(
                fpu,
                p.sat,
                p.sample_rate,
                spec_tap_fractions(fpu),
                fpu.add(dry, s.fb),
                full,
            ).1[5].is_zero()
        }),
    ensures
        s.processed(fpu, p, dry).0.damp.y.is_zero(),
        s.processed(fpu, p, dry).0.fb.is_zero(),
        spec_tap_fractions(fpu)[5].equals(num(ONE)),
{
    reveal(VReverbState::processed);
    lemma_taps_in_order(fpu, 4);
    let phase = lfo_advanced(fpu, s.lfo_phase, p.lfo_inc);
    let full = fpu.mul(
        p.full_delay_s,
        fpu.add(num(ONE), fpu.mul(p.mod_depth, reverb_triangle(fpu, phase))),
    );
    let x = s.line.processed(
        fpu,
        p.sat,
        p.sample_rate,
        spec_tap_fractions(fpu),
        fpu.add(dry, s.fb),
        full,
    ).1[5];
    fpu.lemma_nothing_added(x, s.damp.y);
    let d = fpu.sub(x, s.damp.y);
    fpu.lemma_none_of(s.damp.alpha, d);
    let m = fpu.mul(s.damp.alpha, d);
    fpu.lemma_nothing_added(s.damp.y, m);
    let y = fpu.add(s.damp.y, m);
    fpu.lemma_none_of(p.decay, y);
    math::lemma_tanh_keeps_sign(fpu, fpu.mul(p.decay, y));
}

/// The taps lie one after another within the delay, the last at its end.
pub proof fn lemma_taps_in_order<A: Fn(Op, Plain, Plain) -> Plain>(fpu: &Fpu<A>, i: int)
    requires
        fpu.rounds(),
        0 <= i < 5,
    ensures
        num(ZERO).at_most(spec_tap_fractions(fpu)[i]),
        spec_tap_fractions(fpu)[i].at_most(spec_tap_fractions(fpu)[i + 1]),
        spec_tap_fractions(fpu)[5].equals(num(ONE)),
{
    plain::lemma_small_values();
    vstd::arithmetic::power2::lemma2_to64();
    plain::lemma_whole_value(F396, 396, 15);
    plain::lemma_whole_value(F662, 662, 14);
    plain::lemma_whole_value(F1194, 1194, 13);
    plain::lemma_whole_value(F1726, 1726, 13);
    plain::lemma_whole_value(F2790, 2790, 12);
    plain::lemma_whole_value(F3328, 3328, 12);
    let b = num(F3328);
    let u = plain::unit();
    lemma_tap_before(fpu, num(F396), num(F662), b);
    lemma_tap_before(fpu, num(F662), num(F1194), b);
    lemma_tap_before(fpu, num(F1194), num(F1726), b);
    lemma_tap_before(fpu, num(F1726), num(F2790), b);
    lemma_tap_before(fpu, num(F2790), b, b);
    assert(u * b.scaled() == b.scaled() * u) by (nonlinear_arith);
    fpu.lemma_div_side(b, b, num(ONE));
}

proof fn lemma_tap_before<A: Fn(Op, Plain, Plain) -> Plain>(
    fpu: &Fpu<A>,
    x: Plain,
    y: Plain,
    b: Plain,
)
    requires
        fpu.rounds(),
        x.is_finite() && y.is_finite() && b.is_finite(),
        0 <= x.scaled() <= y.scaled(),
        b.scaled() > 0,
    ensures
        num(ZERO).at_most(fpu.div(x, b)),
        fpu.div(x, b).at_most(fpu.div(y, b)),
{
    plain::lemma_small_values();
    let (s, t, k, u) = (x.scaled(), y.scaled(), b.scaled(), plain::unit());
    assert(s * k <= t * k && 0 * k == 0 && 0 <= s * u) by (nonlinear_arith)
        requires
            0 <= s <= t,
            k > 0,
            u > 0,
    ;
    fpu.lemma_div_order(x, b, y, b);
    fpu.lemma_div_side(x, b, num(ZERO));
}

} // verus!
