//! One control block of a layer's voices.
use crate::CHANNELS_PER_LAYER;
use crate::adsr::{AdsrCore, AdsrStage};
use crate::fpu::{Fpu, Op};
use crate::hpf::{self, HpfKernel};
use crate::lanes::{splat, Lanes};
use crate::math::{self, fast_exp2, note_to_hz, SineTable};
use crate::modulation::{
    amp_base, block_glide, lfo_src, mod_only_targets, onset_advanced, onset_gain, resolve_mod,
    sweep_targets, BlockCtx, ModSources,
};
use crate::noise::NoiseSource;
use crate::nums::{F0_01, F0_05, F0_95, F10, F12, F20, HALF, MINUS_ONE, ONE, TWO, ZERO};
use crate::ota_ladder::OtaLadderCoeffs;
use crate::plain::{self, num, Plain};
use crate::poly::{
    lane_step, osc_sample, pm_step, poly_ring_mod, poly_sub_square, ring_sample, sub_sample,
    sync_step, OscLane, OtaLane, PairStep, PolyOtaLadder,
};
use crate::tpt::{self, compute_g, one_pole};
use crate::voice::{Channel, VoiceBank};
use vstd::prelude::*;

verus! {

broadcast use crate::plain::group_by_rank;

/// One voice and all its kernels.
#[derive(Clone, Copy, Debug, PartialEq, Eq, Structural)]
pub struct VoiceLane {
    pub ch: Channel,
    pub o1: OscLane,
    pub o2: OscLane,
    pub noise: NoiseSource,
    pub hpf: HpfKernel,
    pub ota: OtaLane,
}

/// What a voice takes into a block: its bookkeeping with the glide moved on, the
/// oscillators' increments and pulse widths, the filter's coefficients, and the tremolo.
#[derive(Clone, Copy, Debug, PartialEq, Eq, Structural)]
pub struct Prepared {
    pub ch: Channel,
    pub inc1: Plain,
    pub inc2: Plain,
    pub pw1: Plain,
    pub pw2: Plain,
    pub coeffs: OtaLadderCoeffs,
    pub trem: Plain,
}

pub open spec fn spec_resolved<A: Fn(Op, Plain, Plain) -> Plain>(
    fpu: &Fpu<A>,
    ctx: &BlockCtx,
    glide: bool,
    coeff: Plain,
    ch: Channel,
    raw: Plain,
) -> Prepared {
    let lfo1 = fpu.mul(raw, onset_gain(fpu, ch.onset, ctx.lfo1_delay_time, ctx.lfo1_fade));
    let tremolo = lfo_src(ctx.amp_lfo_sel, lfo1, ctx.lfo2_val);
    let m = resolve_mod(
        fpu,
        ctx,
        &ModSources {
            e1: ch.env1.level,
            e2: ch.env2.level,
            lfo1,
            lfo2: ctx.lfo2_val,
            velocity: ch.velocity,
            note: ch.note,
        },
    );
    let target = Plain::from_int(ch.note as i64);
    let from = if ch.trigger_pending && (!glide || !ch.glide_valid) {
        target
    } else {
        ch.glide_semi
    };
    let pitch = fpu.add(from, fpu.mul(coeff, fpu.sub(target, from)));
    let detune = fpu.mul(ch.detune_cents, num(F0_01));
    let (only1, only2) = mod_only_targets(ctx.cross_mod_type, m.pitch_mod_only);
    let (sweep1, sweep2) = sweep_targets(ctx.cross_mod_type, m.sweep_mod);
    let s1 = fpu.total(
        seq![ctx.base_semis, pitch, ctx.osc1_semi, m.pitch_mod, only1, sweep1, detune],
    );
    let s2 = fpu.total(
        seq![ctx.base_semis, pitch, ctx.osc2_semi, m.pitch_mod, only2, sweep2, detune],
    );
    let cutoff_hz = fpu.mul(ctx.cutoff, fast_exp2(fpu, fpu.div(m.cutoff_mod, num(F12))));
    Prepared {
        ch: Channel {
            glide_semi: pitch,
            glide_valid: ch.glide_valid || ch.trigger_pending,
            trigger_pending: false,
            ..ch
        },
        inc1: fpu.div(note_to_hz(fpu, s1), ctx.os_sample_rate),
        inc2: fpu.div(note_to_hz(fpu, s2), ctx.os_sample_rate),
        pw1: fpu.add(ctx.osc1_pw, m.pwm_mod).clamp(num(F0_05), num(F0_95)),
        pw2: fpu.add(ctx.osc2_pw, m.pwm_mod).clamp(num(F0_05), num(F0_95)),
        coeffs: OtaLadderCoeffs::new(fpu, cutoff_hz, ctx.os_sample_rate, ctx.resonance, ctx.drive),
        trem: fpu.sub(
            num(ONE),
            fpu.mul(fpu.mul(ctx.amp_lfo_depth, num(HALF)), fpu.sub(num(ONE), tremolo)),
        ),
    }
}

/// What a voice takes into a block, given what its LFO 1 reads. A voice that starts a
/// note snaps to it, unless it has a pitch to glide from.
#[verifier::when_used_as_spec(spec_resolved)]
pub fn resolved<A: Fn(Op, Plain, Plain) -> Plain>(
    fpu: &Fpu<A>,
    ctx: &BlockCtx,
    glide: bool,
    coeff: Plain,
    ch: Channel,
    raw: Plain,
) -> (r: Prepared)
    requires
        fpu.valid(),
        tpt::filterable(fpu, ctx.os_sample_rate),
    ensures
        r == resolved(fpu, ctx, glide, coeff, ch, raw),
{
    let lfo1 = fpu.mul(raw, onset_gain(fpu, ch.onset, ctx.lfo1_delay_time, ctx.lfo1_fade));
    let tremolo = lfo_src(ctx.amp_lfo_sel, lfo1, ctx.lfo2_val);
    let m = resolve_mod(
        fpu,
        ctx,
        &ModSources {
            e1: ch.env1.level,
            e2: ch.env2.level,
            lfo1,
            lfo2: ctx.lfo2_val,
            velocity: ch.velocity,
            note: ch.note,
        },
    );
    let target = Plain::from_int(ch.note as i64);
    let from = if ch.trigger_pending && (!glide || !ch.glide_valid) {
        target
    } else {
        ch.glide_semi
    };
    let pitch = fpu.add(from, fpu.mul(coeff, fpu.sub(target, from)));
    let detune = fpu.mul(ch.detune_cents, num(F0_01));
    let (only1, only2) = mod_only_targets(ctx.cross_mod_type, m.pitch_mod_only);
    let (sweep1, sweep2) = sweep_targets(ctx.cross_mod_type, m.sweep_mod);
    proof {
        fpu.lemma_total(
            seq![ctx.base_semis, pitch, ctx.osc1_semi, m.pitch_mod, only1, sweep1, detune],
        );
        fpu.lemma_total(
            seq![ctx.base_semis, pitch, ctx.osc2_semi, m.pitch_mod, only2, sweep2, detune],
        );
    }
    let played = fpu.add(ctx.base_semis, pitch);
    let s1 = fpu.add(
        fpu.add(fpu.add(fpu.add(fpu.add(played, ctx.osc1_semi), m.pitch_mod), only1), sweep1),
        detune,
    );
    let s2 = fpu.add(
        fpu.add(fpu.add(fpu.add(fpu.add(played, ctx.osc2_semi), m.pitch_mod), only2), sweep2),
        detune,
    );
    let cutoff_hz = fpu.mul(ctx.cutoff, fast_exp2(fpu, fpu.div(m.cutoff_mod, num(F12))));
    Prepared {
        ch: Channel {
            glide_semi: pitch,
            glide_valid: ch.glide_valid || ch.trigger_pending,
            trigger_pending: false,
            ..ch
        },
        inc1: fpu.div(note_to_hz(fpu, s1), ctx.os_sample_rate),
        inc2: fpu.div(note_to_hz(fpu, s2), ctx.os_sample_rate),
        pw1: fpu.add(ctx.osc1_pw, m.pwm_mod).clamp(num(F0_05), num(F0_95)),
        pw2: fpu.add(ctx.osc2_pw, m.pwm_mod).clamp(num(F0_05), num(F0_95)),
        coeffs: OtaLadderCoeffs::new(fpu, cutoff_hz, ctx.os_sample_rate, ctx.resonance, ctx.drive),
        trem: fpu.sub(
            num(ONE),
            fpu.mul(fpu.mul(ctx.amp_lfo_depth, num(HALF)), fpu.sub(num(ONE), tremolo)),
        ),
    }
}

/// What a voice takes into a block, its LFO 1 moved on by one reading.
#[verifier::opaque]
pub open spec fn prepared<A: Fn(Op, Plain, Plain) -> Plain>(
    fpu: &Fpu<A>,
    ctx: &BlockCtx,
    glide: (bool, Plain),
    ch: Channel,
) -> Prepared {
    let lfo1 = ch.lfo1.with_rate(fpu, ctx.lfo1_rate_hz).advanced(fpu);
    let raw = lfo1.reading(fpu, ctx.lfo1_shape);
    resolved(fpu, ctx, glide.0, glide.1, Channel { lfo1, ..ch }, raw)
}

/// What holds throughout a block.
#[verifier::ext_equal]
pub struct Pass {
    pub ctx: BlockCtx,
    pub ring_gain: Plain,
    pub hpf_active: bool,
    /// No envelope moves during the block.
    pub env_static: bool,
    pub onset_dt: Plain,
    pub onset_cap: Plain,
    pub pw1: Seq<Plain>,
    pub pw2: Seq<Plain>,
    pub trem: Seq<Plain>,
    /// The voices that start a note with the block.
    pub trig: Seq<bool>,
}

/// What holds throughout a block.
pub struct BlockPlan {
    pub ctx: BlockCtx,
    pub ring_gain: Plain,
    pub hpf_active: bool,
    /// No envelope moves during the block.
    pub env_static: bool,
    pub onset_dt: Plain,
    pub onset_cap: Plain,
    pub pw1: Lanes,
    pub pw2: Lanes,
    pub trem: Lanes,
    /// The voices that start a note with the block.
    pub trig: [bool; CHANNELS_PER_LAYER],
}

impl View for BlockPlan {
    type V = Pass;

    open spec fn view(&self) -> Pass {
        Pass {
            ctx: self.ctx,
            ring_gain: self.ring_gain,
            hpf_active: self.hpf_active,
            env_static: self.env_static,
            onset_dt: self.onset_dt,
            onset_cap: self.onset_cap,
            pw1: self.pw1@,
            pw2: self.pw2@,
            trem: self.trem@,
            trig: self.trig@,
        }
    }
}

/// A silent voice, or a held one that has reached the sustain of both its envelopes.
pub open spec fn is_settled(ch: Channel) -> bool {
    ch.active ==> {
        &&& ch.gate
        &&& ch.env1.stage == AdsrStage::Sustain && ch.env1.level == ch.env1.sustain
        &&& ch.env2.stage == AdsrStage::Sustain && ch.env2.level == ch.env2.sustain
    }
}

/// No voice starts a note, and every sounding voice is held at the sustain of both its
/// envelopes.
pub open spec fn all_settled(trig: Seq<bool>, channels: Seq<Channel>) -> bool {
    &&& forall|v: int| 0 <= v < CHANNELS_PER_LAYER ==> !#[trigger] trig[v]
    &&& forall|v: int| 0 <= v < CHANNELS_PER_LAYER ==> is_settled(#[trigger] channels[v])
}

/// Whether a block can leave the envelopes alone.
pub fn envelopes_static(
    trig: &[bool; CHANNELS_PER_LAYER],
    channels: &[Channel; CHANNELS_PER_LAYER],
) -> (r: bool)
    ensures
        r == all_settled(trig@, channels@),
{
    for v in 0..CHANNELS_PER_LAYER
        invariant
            forall|i: int| 0 <= i < v ==> !#[trigger] trig@[i],
            forall|i: int| 0 <= i < v ==> is_settled(#[trigger] channels@[i]),
    {
        let c = channels[v];
        if trig[v] {
            return false;
        }
        let held: bool = c.env1.stage == AdsrStage::Sustain && c.env1.level == c.env1.sustain
            && c.env2.stage == AdsrStage::Sustain && c.env2.level == c.env2.sustain;
        if c.active && !(c.gate && held) {
            assert(!is_settled(channels@[v as int]));
            return false;
        }
    }
    true
}

/// The oscillators of a voice one sample on, by the interaction in force.
pub open spec fn osc_pair<A: Fn(Op, Plain, Plain) -> Plain>(
    fpu: &Fpu<A>,
    ctx: &BlockCtx,
    o1: OscLane,
    o2: OscLane,
    pw1: Plain,
    pw2: Plain,
) -> PairStep {
    if ctx.sync {
        sync_step(fpu, o1, o2, ctx.osc1_wave, ctx.osc2_wave, pw1, pw2)
    } else if !ctx.pm_index.equals(num(ZERO)) {
        pm_step(fpu, o1, o2, ctx.pm_index, ctx.osc1_wave, ctx.osc2_wave, pw1, pw2)
    } else {
        PairStep {
            master: o1.advanced(fpu),
            slave: o2.advanced(fpu),
            o1: osc_sample(fpu, ctx.osc1_wave, o1.phase, pw1, o1.inc),
            o2: osc_sample(fpu, ctx.osc2_wave, o2.phase, pw2, o2.inc),
        }
    }
}

/// What a voice's sources sum to: the oscillators, the ring modulator in the place of
/// oscillator 1, the sub-oscillator below the oscillator that sets the period, the noise.
pub open spec fn source_mix<A: Fn(Op, Plain, Plain) -> Plain>(
    fpu: &Fpu<A>,
    p: Pass,
    pair: PairStep,
    noise: Plain,
) -> Plain {
    let ctx = p.ctx;
    let first = if ctx.ring_mode {
        ring_sample(fpu, pair.o1, pair.o2, p.ring_gain)
    } else {
        pair.o1
    };
    let oscs = fpu.add(fpu.mul(first, ctx.osc1_level), fpu.mul(pair.o2, ctx.osc2_level));
    let period = if ctx.sync {
        pair.slave
    } else {
        pair.master
    };
    let with_sub = if ctx.sub_level.equals(num(ZERO)) {
        oscs
    } else {
        let sub = sub_sample(fpu, period.phase, period.inc, pair.master.sub_high);
        fpu.add(oscs, fpu.mul(sub, ctx.sub_level))
    };
    if ctx.noise_level.equals(num(ZERO)) {
        with_sub
    } else {
        fpu.add(with_sub, fpu.mul(noise, ctx.noise_level))
    }
}

/// The noise of a voice one sample on, if it is heard.
pub open spec fn noise_step<A: Fn(Op, Plain, Plain) -> Plain>(
    fpu: &Fpu<A>,
    ctx: &BlockCtx,
    noise: NoiseSource,
) -> (NoiseSource, Plain) {
    if ctx.noise_level.equals(num(ZERO)) {
        (noise, num(ZERO))
    } else {
        noise.stepped(fpu, ctx.noise_color)
    }
}

/// The high-pass filter of a voice one sample on, if it is engaged.
pub open spec fn hpf_step<A: Fn(Op, Plain, Plain) -> Plain>(
    fpu: &Fpu<A>,
    active: bool,
    hpf: HpfKernel,
    x: Plain,
) -> (HpfKernel, Plain) {
    if active {
        (HpfKernel { s: one_pole(fpu, x, hpf.s, hpf.a).0, ..hpf }, hpf::passed(fpu, hpf, x))
    } else {
        (hpf, x)
    }
}

/// A voice one oversampled sample on, and what its filter puts out: sources, high-pass
/// filter, ladder.
pub open spec fn sounded<A: Fn(Op, Plain, Plain) -> Plain>(
    fpu: &Fpu<A>,
    p: Pass,
    v: int,
    l: VoiceLane,
) -> (VoiceLane, Plain) {
    let pair = osc_pair(fpu, &p.ctx, l.o1, l.o2, p.pw1[v], p.pw2[v]);
    let (noise, n) = noise_step(fpu, &p.ctx, l.noise);
    let mix = source_mix(fpu, p, pair, n);
    let (hpf, x) = hpf_step(fpu, p.hpf_active, l.hpf, mix);
    let (ota, y) = lane_step(
        fpu,
        l.ota,
        p.ctx.filter_mode,
        PolyOtaLadder::poles_of(p.ctx.filter_slope),
        x,
    );
    (VoiceLane { ch: l.ch, o1: pair.master, o2: pair.slave, noise, hpf, ota }, y)
}

/// The first `k` voices through their amplifiers, summed in order.
pub open spec fn mono_sum<A: Fn(Op, Plain, Plain) -> Plain>(
    fpu: &Fpu<A>,
    filtered: Seq<Plain>,
    amp: Seq<Plain>,
    k: nat,
) -> Plain
    decreases k,
{
    if k == 0 {
        num(ZERO)
    } else {
        fpu.add(
            mono_sum(fpu, filtered, amp, (k - 1) as nat),
            fpu.mul(filtered[k - 1], amp[k - 1]),
        )
    }
}

/// The voices and the buffer that they are rendered into.
#[verifier::ext_equal]
pub struct Rendering {
    pub lanes: Seq<VoiceLane>,
    pub out: Seq<Plain>,
}

/// A voice's envelopes one base-rate frame on.
#[verifier::opaque]
pub open spec fn env_step<A: Fn(Op, Plain, Plain) -> Plain>(
    fpu: &Fpu<A>,
    p: Pass,
    v: int,
    first: bool,
    ch: Channel,
) -> Channel {
    if p.env_static {
        ch
    } else {
        Channel {
            env1: ch.env1.ticked(fpu, p.trig[v] && first, ch.gate),
            env2: ch.env2.ticked(fpu, p.trig[v] && first, ch.gate),
            ..ch
        }
    }
}

/// The amplifier of a voice: the level of envelope 2 or its gate, times the tremolo.
#[verifier::opaque]
pub open spec fn amp_of<A: Fn(Op, Plain, Plain) -> Plain>(
    fpu: &Fpu<A>,
    p: Pass,
    v: int,
    ch: Channel,
) -> Plain {
    let level = ch.env2.level.clamp(num(ZERO), num(ONE));
    fpu.mul(amp_base(ch.active, ch.gate, p.ctx.amp_env_bypass, level), p.trem[v])
}

/// A voice at the end of a base-rate frame: LFO 1 further into its onset, and the voice
/// freed once it is let go and both envelopes are idle.
pub open spec fn frame_end<A: Fn(Op, Plain, Plain) -> Plain>(
    fpu: &Fpu<A>,
    p: Pass,
    ch: Channel,
) -> Channel {
    let done = !p.env_static && ch.active && !ch.gate && ch.env1.is_idle() && ch.env2.is_idle();
    Channel {
        onset: onset_advanced(fpu, ch.onset, p.onset_dt, p.onset_cap),
        active: ch.active && !done,
        ..ch
    }
}

/// Every voice one oversampled sample on, their sum added to sample `i` of the buffer.
pub open spec fn sampled<A: Fn(Op, Plain, Plain) -> Plain>(
    fpu: &Fpu<A>,
    p: Pass,
    level_comp: Plain,
    amp: Seq<Plain>,
    r: Rendering,
    i: int,
) -> Rendering {
    let filtered = Seq::new(r.lanes.len(), |v: int| sounded(fpu, p, v, r.lanes[v]).1);
    let sum = mono_sum(fpu, filtered, amp, r.lanes.len());
    Rendering {
        lanes: Seq::new(r.lanes.len(), |v: int| sounded(fpu, p, v, r.lanes[v]).0),
        out: r.out.update(i, fpu.add(r.out[i], fpu.mul(sum, level_comp))),
    }
}

/// `k` oversampled samples on from sample `i` of the buffer.
pub open spec fn oversampled<A: Fn(Op, Plain, Plain) -> Plain>(
    fpu: &Fpu<A>,
    p: Pass,
    level_comp: Plain,
    amp: Seq<Plain>,
    r: Rendering,
    i: int,
    k: nat,
) -> Rendering
    decreases k,
{
    if k == 0 {
        r
    } else {
        sampled(
            fpu,
            p,
            level_comp,
            amp,
            oversampled(fpu, p, level_comp, amp, r, i, (k - 1) as nat),
            i + k - 1,
        )
    }
}

/// Base-rate frame `i`: the envelopes, the oversampled samples, the end of the frame.
pub open spec fn framed<A: Fn(Op, Plain, Plain) -> Plain>(
    fpu: &Fpu<A>,
    p: Pass,
    level_comp: Plain,
    r: Rendering,
    i: int,
) -> Rendering {
    let ticked = Seq::new(
        r.lanes.len(),
        |v: int| VoiceLane { ch: env_step(fpu, p, v, i == 0, r.lanes[v].ch), ..r.lanes[v] },
    );
    let amp = Seq::new(r.lanes.len(), |v: int| amp_of(fpu, p, v, ticked[v].ch));
    let s = oversampled(
        fpu,
        p,
        level_comp,
        amp,
        Rendering { lanes: ticked, out: r.out },
        i * p.ctx.os,
        p.ctx.os as nat,
    );
    Rendering {
        lanes: Seq::new(
            s.lanes.len(),
            |v: int| VoiceLane { ch: frame_end(fpu, p, s.lanes[v].ch), ..s.lanes[v] },
        ),
        out: s.out,
    }
}

/// The first `n` base-rate frames of a block.
pub open spec fn frames<A: Fn(Op, Plain, Plain) -> Plain>(
    fpu: &Fpu<A>,
    p: Pass,
    level_comp: Plain,
    r: Rendering,
    n: nat,
) -> Rendering
    decreases n,
{
    if n == 0 {
        r
    } else {
        framed(fpu, p, level_comp, frames(fpu, p, level_comp, r, (n - 1) as nat), n - 1)
    }
}

/// The voices at the start of a block of `n` base-rate frames.
pub open spec fn block_start<A: Fn(Op, Plain, Plain) -> Plain>(
    fpu: &Fpu<A>,
    ctx: &BlockCtx,
    glide: (bool, Plain),
    n: usize,
    lanes: Seq<VoiceLane>,
) -> Seq<VoiceLane> {
    Seq::new(
        lanes.len(),
        |v: int|
            {
                let l = lanes[v];
                let q = prepared(fpu, ctx, glide, l.ch);
                VoiceLane {
                    ch: q.ch,
                    o1: OscLane { inc: q.inc1, ..l.o1 },
                    o2: OscLane { inc: q.inc2, ..l.o2 },
                    noise: l.noise,
                    hpf: if num(F20).less(ctx.hpf_cutoff) {
                        HpfKernel {
                            a: compute_g(fpu, ctx.hpf_cutoff, ctx.os_sample_rate),
                            ..l.hpf
                        }
                    } else {
                        l.hpf
                    },
                    ota: PolyOtaLadder::ramped(
                        fpu,
                        OtaLane { target: q.coeffs, ..l.ota },
                        (n * ctx.os) as usize,
                    ),
                }
            },
    )
}

/// What holds throughout the block that the voices are about to play.
pub open spec fn block_pass<A: Fn(Op, Plain, Plain) -> Plain>(
    fpu: &Fpu<A>,
    ctx: &BlockCtx,
    glide: (bool, Plain),
    lanes: Seq<VoiceLane>,
) -> Pass {
    let trig = Seq::new(lanes.len(), |v: int| lanes[v].ch.trigger_pending);
    Pass {
        ctx: *ctx,
        ring_gain: fpu.pow(num(F10), num(F0_05)),
        hpf_active: num(F20).less(ctx.hpf_cutoff),
        env_static: all_settled(trig, Seq::new(lanes.len(), |v: int| lanes[v].ch)),
        onset_dt: fpu.div(num(ONE), base_rate(fpu, ctx)),
        onset_cap: fpu.add(ctx.lfo1_delay_time, ctx.lfo1_fade),
        pw1: Seq::new(lanes.len(), |v: int| prepared(fpu, ctx, glide, lanes[v].ch).pw1),
        pw2: Seq::new(lanes.len(), |v: int| prepared(fpu, ctx, glide, lanes[v].ch).pw2),
        trem: Seq::new(lanes.len(), |v: int| prepared(fpu, ctx, glide, lanes[v].ch).trem),
        trig,
    }
}

/// A block of voices added into a buffer: as many base-rate frames as fit it.
pub open spec fn rendered<A: Fn(Op, Plain, Plain) -> Plain>(
    fpu: &Fpu<A>,
    ctx: &BlockCtx,
    level_comp: Plain,
    unison: bool,
    r: Rendering,
) -> Rendering {
    let n = (r.out.len() / ctx.os as nat) as usize;
    let glide = block_glide(fpu, ctx.portamento_time, unison, n, base_rate(fpu, ctx));
    frames(
        fpu,
        block_pass(fpu, ctx, glide, r.lanes),
        level_comp,
        Rendering { lanes: block_start(fpu, ctx, glide, n, r.lanes), out: r.out },
        n as nat,
    )
}

pub open spec fn spec_base_rate<A: Fn(Op, Plain, Plain) -> Plain>(
    fpu: &Fpu<A>,
    ctx: &BlockCtx,
) -> Plain {
    fpu.div(ctx.os_sample_rate, Plain::from_index(ctx.os))
}

/// The sample rate before oversampling.
#[verifier::when_used_as_spec(spec_base_rate)]
pub fn base_rate<A: Fn(Op, Plain, Plain) -> Plain>(fpu: &Fpu<A>, ctx: &BlockCtx) -> (r: Plain)
    requires
        fpu.valid(),
    ensures
        r == base_rate(fpu, ctx),
{
    fpu.div(ctx.os_sample_rate, Plain::from_index(ctx.os))
}

impl VoiceBank {
    /// Voice `v` and all its kernels.
    pub open spec fn lane(&self, v: int) -> VoiceLane {
        VoiceLane {
            ch: self.channels@[v],
            o1: self.osc1.lanes@[v],
            o2: self.osc2.lanes@[v],
            noise: self.noise.lanes@[v],
            hpf: self.hpf.lane(v),
            ota: self.ladder.lanes@[v],
        }
    }

    pub open spec fn lanes(&self) -> Seq<VoiceLane> {
        Seq::new(CHANNELS_PER_LAYER as nat, |v: int| self.lane(v))
    }

    /// What rendering leaves alone.
    pub open spec fn same_notes(&self, other: &VoiceBank) -> bool {
        &&& self.level_comp == other.level_comp
        &&& self.unison == other.unison
        &&& self.lfo1_seed == other.lfo1_seed
        &&& self.unison_rng == other.unison_rng
        &&& self.mono == other.mono
    }

    /// Render one control block into the oversampled buffer `out`, adding all voices.
    pub fn render_block<A: Fn(Op, Plain, Plain) -> Plain>(
        &mut self,
        fpu: &Fpu<A>,
        table: &SineTable,
        out: &mut [Plain],
        ctx: &BlockCtx,
    )
        requires
            fpu.valid(),
            table.tabulates(fpu),
            old(self).wf(),
            ctx.os > 0,
            tpt::filterable(fpu, ctx.os_sample_rate),
        ensures
            final(self).wf(),
            final(self).same_notes(old(self)),
            final(self).ladder.mode == ctx.filter_mode,
            final(self).ladder.poles == PolyOtaLadder::poles_of(ctx.filter_slope),
            ({
                let r = rendered(
                    fpu,
                    ctx,
                    old(self).level_comp,
                    old(self).unison,
                    Rendering { lanes: old(self).lanes(), out: old(out)@ },
                );
                final(self).lanes() == r.lanes && final(out)@ == r.out
            }),
            final(out)@.len() == old(out)@.len(),
    {
        let os: usize = ctx.os;
        let base_frames: usize = out.len() / os;
        let (glide, coeff) = block_glide(
            fpu,
            ctx.portamento_time,
            self.unison,
            base_frames,
            base_rate(fpu, ctx),
        );
        proof {
            lemma_frames_fit(old(out)@.len() as int, os as int, base_frames as int);
        }
        let plan = self.start_block(fpu, table, ctx, glide, coeff, base_frames);
        let ghost p = plan@;
        let ghost level_comp = self.level_comp;
        let ghost start = Rendering { lanes: self.lanes(), out: out@ };
        for i in 0..base_frames
            invariant
                fpu.valid(),
                self.wf(),
                self.same_notes(old(self)),
                plan@ == p,
                p.ctx == ctx,
                ctx.os == os,
                os > 0,
                base_frames * os <= out@.len(),
                out@.len() == old(out)@.len(),
                level_comp == self.level_comp,
                self.ladder.mode == ctx.filter_mode,
                self.ladder.poles == PolyOtaLadder::poles_of(ctx.filter_slope),
                self.lanes() == frames(fpu, p, level_comp, start, i as nat).lanes,
                out@ == frames(fpu, p, level_comp, start, i as nat).out,
        {
            let ghost before = Rendering { lanes: self.lanes(), out: out@ };
            proof {
                assert(before =~= frames(fpu, p, level_comp, start, i as nat));
                assert(i * os + os <= base_frames * os) by (nonlinear_arith)
                    requires
                        i < base_frames,
                        os > 0,
                ;
            }
            self.render_frame(fpu, &plan, out, i);
        }
    }

    /// Resolve every voice for a block.
    fn start_block<A: Fn(Op, Plain, Plain) -> Plain>(
        &mut self,
        fpu: &Fpu<A>,
        table: &SineTable,
        ctx: &BlockCtx,
        glide: bool,
        coeff: Plain,
        base_frames: usize,
    ) -> (r: BlockPlan)
        requires
            fpu.valid(),
            table.tabulates(fpu),
            old(self).wf(),
            ctx.os > 0,
            base_frames * ctx.os <= usize::MAX,
            tpt::filterable(fpu, ctx.os_sample_rate),
        ensures
            final(self).wf(),
            final(self).same_notes(old(self)),
            final(self).ladder.mode == ctx.filter_mode,
            final(self).ladder.poles == PolyOtaLadder::poles_of(ctx.filter_slope),
            final(self).lanes() == block_start(
                fpu,
                ctx,
                (glide, coeff),
                base_frames,
                old(self).lanes(),
            ),
            r@ == block_pass(fpu, ctx, (glide, coeff), old(self).lanes()),
    {
        let mut trig: [bool; CHANNELS_PER_LAYER] = splat(false);
        let mut pw1: Lanes = splat(num(HALF));
        let mut pw2: Lanes = splat(num(HALF));
        let mut trem: Lanes = splat(num(ONE));
        for v in 0..CHANNELS_PER_LAYER
            invariant
                forall|i: int|
                    0 <= i < v ==> #[trigger] trig@[i] == old(self).channels@[i].trigger_pending,
                *self == *old(self),
        {
            trig[v] = self.channels[v].trigger_pending;
        }
        let env_static: bool = envelopes_static(&trig, &self.channels);
        for v in 0..CHANNELS_PER_LAYER
            invariant
                fpu.valid(),
                table.tabulates(fpu),
                old(self).wf(),
                tpt::filterable(fpu, ctx.os_sample_rate),
                self.noise == old(self).noise,
                self.hpf == old(self).hpf,
                self.same_notes(old(self)),
                forall|i: int|
                    0 <= i < v ==> {
                        let q = prepared(fpu, ctx, (glide, coeff), old(self).channels@[i]);
                        (#[trigger] self.channels@[i]) == q.ch && self.channels@[i].wf()
                    },
                forall|i: int|
                    0 <= i < v ==> (#[trigger] self.osc1.lanes@[i]) == (OscLane {
                        inc: prepared(fpu, ctx, (glide, coeff), old(self).channels@[i]).inc1,
                        ..old(self).osc1.lanes@[i]
                    }),
                forall|i: int|
                    0 <= i < v ==> (#[trigger] self.osc2.lanes@[i]) == (OscLane {
                        inc: prepared(fpu, ctx, (glide, coeff), old(self).channels@[i]).inc2,
                        ..old(self).osc2.lanes@[i]
                    }),
                forall|i: int|
                    0 <= i < v ==> (#[trigger] self.ladder.lanes@[i]) == (OtaLane {
                        target: prepared(fpu, ctx, (glide, coeff), old(self).channels@[i]).coeffs,
                        ..old(self).ladder.lanes@[i]
                    }),
                forall|i: int|
                    0 <= i < v ==> (#[trigger] pw1@[i]) == prepared(
                        fpu,
                        ctx,
                        (glide, coeff),
                        old(self).channels@[i],
                    ).pw1,
                forall|i: int|
                    0 <= i < v ==> (#[trigger] pw2@[i]) == prepared(
                        fpu,
                        ctx,
                        (glide, coeff),
                        old(self).channels@[i],
                    ).pw2,
                forall|i: int|
                    0 <= i < v ==> (#[trigger] trem@[i]) == prepared(
                        fpu,
                        ctx,
                        (glide, coeff),
                        old(self).channels@[i],
                    ).trem,
                forall|i: int|
                    v <= i < CHANNELS_PER_LAYER ==> #[trigger] self.channels@[i] == old(
                        self,
                    ).channels@[i],
                forall|i: int|
                    v <= i < CHANNELS_PER_LAYER ==> #[trigger] self.osc1.lanes@[i] == old(
                        self,
                    ).osc1.lanes@[i],
                forall|i: int|
                    v <= i < CHANNELS_PER_LAYER ==> #[trigger] self.osc2.lanes@[i] == old(
                        self,
                    ).osc2.lanes@[i],
                forall|i: int|
                    v <= i < CHANNELS_PER_LAYER ==> #[trigger] self.ladder.lanes@[i] == old(
                        self,
                    ).ladder.lanes@[i],
        {
            let ch = self.channels[v];
            proof {
                assert(old(self).playing().channels[v as int].lfo1.wf());
            }
            let q = prepare_voice(fpu, table, ctx, glide, coeff, ch);
            self.channels[v] = q.ch;
            self.osc1.set_inc(v, q.inc1);
            self.osc2.set_inc(v, q.inc2);
            self.ladder.set_coeffs(v, q.coeffs);
            pw1[v] = q.pw1;
            pw2[v] = q.pw2;
            trem[v] = q.trem;
        }
        self.ladder.set_response(ctx.filter_mode, ctx.filter_slope);
        let hpf_active: bool = num(F20).less(ctx.hpf_cutoff);
        if hpf_active {
            self.hpf.set_cutoff_all(fpu, ctx.hpf_cutoff, ctx.os_sample_rate);
        }
        self.ladder.prepare_ramp(fpu, base_frames * ctx.os);
        let r = BlockPlan {
            ctx: *ctx,
            ring_gain: fpu.pow(num(F10), num(F0_05)),
            hpf_active,
            env_static,
            onset_dt: fpu.div(num(ONE), base_rate(fpu, ctx)),
            onset_cap: fpu.add(ctx.lfo1_delay_time, ctx.lfo1_fade),
            pw1,
            pw2,
            trem,
            trig,
        };
        proof {
            let lanes = old(self).lanes();
            assert(trig@ =~= Seq::new(lanes.len(), |v: int| lanes[v].ch.trigger_pending));
            assert(old(self).channels@ =~= Seq::new(lanes.len(), |v: int| lanes[v].ch));
            assert(r@ =~= block_pass(fpu, ctx, (glide, coeff), lanes));
            assert(self.lanes() =~= block_start(fpu, ctx, (glide, coeff), base_frames, lanes));
        }
        r
    }

    /// Render one base-rate frame.
    fn render_frame<A: Fn(Op, Plain, Plain) -> Plain>(
        &mut self,
        fpu: &Fpu<A>,
        plan: &BlockPlan,
        out: &mut [Plain],
        i: usize,
    )
        requires
            fpu.valid(),
            old(self).wf(),
            plan.ctx.os > 0,
            i * plan.ctx.os + plan.ctx.os <= old(out)@.len(),
            old(self).ladder.mode == plan.ctx.filter_mode,
            old(self).ladder.poles == PolyOtaLadder::poles_of(plan.ctx.filter_slope),
        ensures
            final(self).wf(),
            final(self).same_notes(old(self)),
            final(self).ladder.mode == old(self).ladder.mode,
            final(self).ladder.poles == old(self).ladder.poles,
            final(out)@.len() == old(out)@.len(),
            ({
                let r = framed(
                    fpu,
                    plan@,
                    old(self).level_comp,
                    Rendering { lanes: old(self).lanes(), out: old(out)@ },
                    i as int,
                );
                final(self).lanes() == r.lanes && final(out)@ == r.out
            }),
    {
        let len: usize = out.len();
        let os: usize = plan.ctx.os;
        proof {
            lemma_offset_fits(i as int, os as int, len as int);
        }
        let frame: usize = i * os;
        let amp = self.tick_envelopes(fpu, plan, i == 0);
        let ghost p = plan@;
        let ghost ticked = Rendering { lanes: self.lanes(), out: out@ };
        let ghost level_comp = self.level_comp;
        for k in 0..os
            invariant
                fpu.valid(),
                self.wf(),
                self.same_notes(old(self)),
                plan@ == p,
                plan.ctx.os == os,
                frame == i * os,
                frame + os <= len,
                len == out@.len(),
                out@.len() == old(out)@.len(),
                level_comp == self.level_comp,
                self.ladder.mode == plan.ctx.filter_mode,
                self.ladder.poles == PolyOtaLadder::poles_of(plan.ctx.filter_slope),
                self.lanes() == oversampled(
                    fpu,
                    p,
                    level_comp,
                    amp@,
                    ticked,
                    frame as int,
                    k as nat,
                ).lanes,
                out@ == oversampled(fpu, p, level_comp, amp@, ticked, frame as int, k as nat).out,
        {
            let ghost before = Rendering { lanes: self.lanes(), out: out@ };
            proof {
                assert(before =~= oversampled(
                    fpu,
                    p,
                    level_comp,
                    amp@,
                    ticked,
                    frame as int,
                    k as nat,
                ));
            }
            let filtered = self.next_sample(fpu, plan);
            let sum = amplified_sum(fpu, &filtered, &amp);
            let n: usize = frame + k;
            out[n] = fpu.add(out[n], fpu.mul(sum, self.level_comp));
            proof {
                let after = sampled(fpu, p, level_comp, amp@, before, n as int);
                assert(filtered@ =~= Seq::new(
                    before.lanes.len(),
                    |v: int| sounded(fpu, p, v, before.lanes[v]).1,
                ));
                assert(self.lanes() =~= after.lanes);
                assert(out@ =~= after.out);
            }
        }
        let ghost s = Rendering { lanes: self.lanes(), out: out@ };
        self.end_frame(fpu, plan);
        proof {
            let r = Rendering { lanes: old(self).lanes(), out: old(out)@ };
            assert(ticked.lanes =~= Seq::new(
                r.lanes.len(),
                |v: int|
                    VoiceLane { ch: env_step(fpu, p, v, i == 0, r.lanes[v].ch), ..r.lanes[v] },
            ));
            assert(amp@ =~= Seq::new(
                r.lanes.len(),
                |v: int| amp_of(fpu, p, v, ticked.lanes[v].ch),
            ));
            assert(s =~= oversampled(
                fpu,
                p,
                level_comp,
                amp@,
                ticked,
                i * p.ctx.os,
                p.ctx.os as nat,
            ));
            assert(self.lanes() =~= framed(fpu, p, level_comp, r, i as int).lanes);
        }
    }

    /// The envelopes of a frame, and the amplifiers that follow them.
    fn tick_envelopes<A: Fn(Op, Plain, Plain) -> Plain>(
        &mut self,
        fpu: &Fpu<A>,
        plan: &BlockPlan,
        first: bool,
    ) -> (amp: Lanes)
        requires
            fpu.valid(),
            old(self).wf(),
        ensures
            final(self).wf(),
            final(self).same_notes(old(self)),
            final(self).osc1 == old(self).osc1,
            final(self).osc2 == old(self).osc2,
            final(self).noise == old(self).noise,
            final(self).hpf == old(self).hpf,
            final(self).ladder == old(self).ladder,
            forall|v: int|
                0 <= v < CHANNELS_PER_LAYER ==> #[trigger] final(self).channels@[v] == env_step(
                    fpu,
                    plan@,
                    v,
                    first,
                    old(self).channels@[v],
                ),
            forall|v: int|
                0 <= v < CHANNELS_PER_LAYER ==> #[trigger] amp@[v] == amp_of(
                    fpu,
                    plan@,
                    v,
                    final(self).channels@[v],
                ),
    {
        let mut amp: Lanes = splat(num(ZERO));
        for v in 0..CHANNELS_PER_LAYER
            invariant
                fpu.valid(),
                old(self).wf(),
                self.same_notes(old(self)),
                self.osc1 == old(self).osc1,
                self.osc2 == old(self).osc2,
                self.noise == old(self).noise,
                self.hpf == old(self).hpf,
                self.ladder == old(self).ladder,
                forall|i: int|
                    0 <= i < v ==> (#[trigger] self.channels@[i]) == env_step(
                        fpu,
                        plan@,
                        i,
                        first,
                        old(self).channels@[i],
                    ) && self.channels@[i].wf(),
                forall|i: int|
                    v <= i < CHANNELS_PER_LAYER ==> #[trigger] self.channels@[i] == old(
                        self,
                    ).channels@[i],
                forall|i: int|
                    0 <= i < v ==> #[trigger] amp@[i] == amp_of(
                        fpu,
                        plan@,
                        i,
                        self.channels@[i],
                    ),
        {
            let ch = self.channels[v];
            proof {
                assert(old(self).playing().channels[v as int].lfo1.wf());
            }
            let (next, gain) = tick_voice(fpu, plan, v, first, ch);
            amp[v] = gain;
            self.channels[v] = next;
        }
        amp
    }

    /// One oversampled sample of every voice, up to the filters' outputs.
    fn next_sample<A: Fn(Op, Plain, Plain) -> Plain>(
        &mut self,
        fpu: &Fpu<A>,
        plan: &BlockPlan,
    ) -> (filtered: Lanes)
        requires
            fpu.valid(),
            old(self).wf(),
            old(self).ladder.mode == plan.ctx.filter_mode,
            old(self).ladder.poles == PolyOtaLadder::poles_of(plan.ctx.filter_slope),
        ensures
            final(self).wf(),
            final(self).same_notes(old(self)),
            final(self).channels == old(self).channels,
            final(self).ladder.mode == old(self).ladder.mode,
            final(self).ladder.poles == old(self).ladder.poles,
            forall|v: int|
                0 <= v < CHANNELS_PER_LAYER ==> #[trigger] final(self).lane(v) == sounded(
                    fpu,
                    plan@,
                    v,
                    old(self).lane(v),
                ).0,
            forall|v: int|
                0 <= v < CHANNELS_PER_LAYER ==> #[trigger] filtered@[v] == sounded(
                    fpu,
                    plan@,
                    v,
                    old(self).lane(v),
                ).1,
    {
        let (o1, o2) = self.run_oscillators(fpu, plan);
        let mix = self.mix_sources(fpu, plan, &o1, &o2);
        let mut filtered: Lanes = splat(num(ZERO));
        if plan.hpf_active {
            let mut hp: Lanes = splat(num(ZERO));
            self.hpf.process(fpu, &mix, &mut hp);
            self.ladder.process(fpu, &hp, &mut filtered);
        } else {
            self.ladder.process(fpu, &mix, &mut filtered);
        }
        filtered
    }

    fn run_oscillators<A: Fn(Op, Plain, Plain) -> Plain>(
        &mut self,
        fpu: &Fpu<A>,
        plan: &BlockPlan,
    ) -> (r: (Lanes, Lanes))
        requires
            fpu.valid(),
        ensures
            old(self).wf() ==> final(self).wf(),
            final(self).same_notes(old(self)),
            final(self).noise == old(self).noise,
            final(self).hpf == old(self).hpf,
            final(self).ladder == old(self).ladder,
            final(self).channels == old(self).channels,
            forall|v: int|
                0 <= v < CHANNELS_PER_LAYER ==> #[trigger] final(self).osc1.lanes@[v] == osc_pair(
                    fpu,
                    &plan.ctx,
                    old(self).osc1.lanes@[v],
                    old(self).osc2.lanes@[v],
                    plan.pw1@[v],
                    plan.pw2@[v],
                ).master,
            forall|v: int|
                0 <= v < CHANNELS_PER_LAYER ==> #[trigger] final(self).osc2.lanes@[v] == osc_pair(
                    fpu,
                    &plan.ctx,
                    old(self).osc1.lanes@[v],
                    old(self).osc2.lanes@[v],
                    plan.pw1@[v],
                    plan.pw2@[v],
                ).slave,
            forall|v: int|
                0 <= v < CHANNELS_PER_LAYER ==> #[trigger] r.0@[v] == osc_pair(
                    fpu,
                    &plan.ctx,
                    old(self).osc1.lanes@[v],
                    old(self).osc2.lanes@[v],
                    plan.pw1@[v],
                    plan.pw2@[v],
                ).o1,
            forall|v: int|
                0 <= v < CHANNELS_PER_LAYER ==> #[trigger] r.1@[v] == osc_pair(
                    fpu,
                    &plan.ctx,
                    old(self).osc1.lanes@[v],
                    old(self).osc2.lanes@[v],
                    plan.pw1@[v],
                    plan.pw2@[v],
                ).o2,
    {
        let ctx = &plan.ctx;
        let mut o1: Lanes = splat(num(ZERO));
        let mut o2: Lanes = splat(num(ZERO));
        if ctx.sync {
            self.osc1.process_sync(
                fpu,
                &mut self.osc2,
                ctx.osc1_wave,
                ctx.osc2_wave,
                &plan.pw1,
                &plan.pw2,
                &mut o1,
                &mut o2,
            );
        } else if !ctx.pm_index.equals(num(ZERO)) {
            self.osc1.process_pm(
                fpu,
                &mut self.osc2,
                ctx.pm_index,
                ctx.osc1_wave,
                ctx.osc2_wave,
                &plan.pw1,
                &plan.pw2,
                &mut o1,
                &mut o2,
            );
        } else {
            self.osc1.process(fpu, ctx.osc1_wave, &plan.pw1, &mut o1);
            self.osc2.process(fpu, ctx.osc2_wave, &plan.pw2, &mut o2);
        }
        (o1, o2)
    }

    /// What the sources sum to, the oscillators having run.
    fn mix_sources<A: Fn(Op, Plain, Plain) -> Plain>(
        &mut self,
        fpu: &Fpu<A>,
        plan: &BlockPlan,
        o1: &Lanes,
        o2: &Lanes,
    ) -> (mix: Lanes)
        requires
            fpu.valid(),
        ensures
            old(self).wf() ==> final(self).wf(),
            final(self).same_notes(old(self)),
            final(self).osc1 == old(self).osc1,
            final(self).osc2 == old(self).osc2,
            final(self).hpf == old(self).hpf,
            final(self).ladder == old(self).ladder,
            final(self).channels == old(self).channels,
            forall|v: int|
                0 <= v < CHANNELS_PER_LAYER ==> #[trigger] final(self).noise.lanes@[v]
                    == noise_step(fpu, &plan.ctx, old(self).noise.lanes@[v]).0,
            forall|v: int|
                0 <= v < CHANNELS_PER_LAYER ==> #[trigger] mix@[v] == source_mix(
                    fpu,
                    plan@,
                    PairStep {
                        master: old(self).osc1.lanes@[v],
                        slave: old(self).osc2.lanes@[v],
                        o1: o1@[v],
                        o2: o2@[v],
                    },
                    noise_step(fpu, &plan.ctx, old(self).noise.lanes@[v]).1,
                ),
    {
        let ctx = &plan.ctx;
        let sub_on: bool = !ctx.sub_level.equals(num(ZERO));
        let noise_on: bool = !ctx.noise_level.equals(num(ZERO));
        let mut first: Lanes = *o1;
        if ctx.ring_mode {
            poly_ring_mod(fpu, o1, o2, plan.ring_gain, &mut first);
        }
        let mut sub: Lanes = splat(num(ZERO));
        if sub_on {
            if ctx.sync {
                poly_sub_square(fpu, &self.osc2, &self.osc1, &mut sub);
            } else {
                poly_sub_square(fpu, &self.osc1, &self.osc1, &mut sub);
            }
        }
        let mut noise: Lanes = splat(num(ZERO));
        if noise_on {
            self.noise.process(fpu, ctx.noise_color, &mut noise);
        }
        let mut mix: Lanes = splat(num(ZERO));
        for v in 0..CHANNELS_PER_LAYER
            invariant
                fpu.valid(),
                forall|i: int|
                    0 <= i < v ==> #[trigger] mix@[i] == {
                        let oscs = fpu.add(
                            fpu.mul(first@[i], ctx.osc1_level),
                            fpu.mul(o2@[i], ctx.osc2_level),
                        );
                        let with_sub = if sub_on {
                            fpu.add(oscs, fpu.mul(sub@[i], ctx.sub_level))
                        } else {
                            oscs
                        };
                        if noise_on {
                            fpu.add(with_sub, fpu.mul(noise@[i], ctx.noise_level))
                        } else {
                            with_sub
                        }
                    },
        {
            let mut x = fpu.add(fpu.mul(first[v], ctx.osc1_level), fpu.mul(o2[v], ctx.osc2_level));
            if sub_on {
                x = fpu.add(x, fpu.mul(sub[v], ctx.sub_level));
            }
            if noise_on {
                x = fpu.add(x, fpu.mul(noise[v], ctx.noise_level));
            }
            mix[v] = x;
        }
        mix
    }

    /// The end of a frame: LFO 1's onset moves on, and finished voices are freed.
    fn end_frame<A: Fn(Op, Plain, Plain) -> Plain>(&mut self, fpu: &Fpu<A>, plan: &BlockPlan)
        requires
            fpu.valid(),
            old(self).wf(),
        ensures
            final(self).wf(),
            final(self).same_notes(old(self)),
            final(self).osc1 == old(self).osc1,
            final(self).osc2 == old(self).osc2,
            final(self).noise == old(self).noise,
            final(self).hpf == old(self).hpf,
            final(self).ladder == old(self).ladder,
            forall|v: int|
                0 <= v < CHANNELS_PER_LAYER ==> #[trigger] final(self).channels@[v] == frame_end(
                    fpu,
                    plan@,
                    old(self).channels@[v],
                ),
    {
        for v in 0..CHANNELS_PER_LAYER
            invariant
                fpu.valid(),
                old(self).wf(),
                self.same_notes(old(self)),
                self.osc1 == old(self).osc1,
                self.osc2 == old(self).osc2,
                self.noise == old(self).noise,
                self.hpf == old(self).hpf,
                self.ladder == old(self).ladder,
                forall|i: int|
                    0 <= i < v ==> (#[trigger] self.channels@[i]) == frame_end(
                        fpu,
                        plan@,
                        old(self).channels@[i],
                    ) && self.channels@[i].wf(),
                forall|i: int|
                    v <= i < CHANNELS_PER_LAYER ==> #[trigger] self.channels@[i] == old(
                        self,
                    ).channels@[i],
        {
            let mut ch = self.channels[v];
            proof {
                assert(old(self).playing().channels[v as int].lfo1.wf());
            }
            ch.onset = onset_advanced(fpu, ch.onset, plan.onset_dt, plan.onset_cap);
            if !plan.env_static && ch.active && !ch.gate && ch.env1.is_idle() && ch.env2.is_idle() {
                ch.active = false;
            }
            self.channels[v] = ch;
        }
    }
}

/// Move a voice's LFO 1 on and resolve the voice for a block.
fn prepare_voice<A: Fn(Op, Plain, Plain) -> Plain>(
    fpu: &Fpu<A>,
    table: &SineTable,
    ctx: &BlockCtx,
    glide: bool,
    coeff: Plain,
    ch: Channel,
) -> (r: Prepared)
    requires
        fpu.valid(),
        table.tabulates(fpu),
        ch.wf(),
        tpt::filterable(fpu, ctx.os_sample_rate),
    ensures
        r == prepared(fpu, ctx, (glide, coeff), ch),
        r.ch.wf(),
{
    reveal(prepared);
    let mut moved = ch;
    moved.lfo1.set_rate(fpu, ctx.lfo1_rate_hz);
    let raw = moved.lfo1.next(fpu, table, ctx.lfo1_shape);
    resolved(fpu, ctx, glide, coeff, moved, raw)
}

/// Move a voice's envelopes on by a frame, and read its amplifier.
fn tick_voice<A: Fn(Op, Plain, Plain) -> Plain>(
    fpu: &Fpu<A>,
    plan: &BlockPlan,
    v: usize,
    first: bool,
    ch: Channel,
) -> (r: (Channel, Plain))
    requires
        fpu.valid(),
        ch.wf(),
        v < CHANNELS_PER_LAYER,
    ensures
        r.0 == env_step(fpu, plan@, v as int, first, ch),
        r.1 == amp_of(fpu, plan@, v as int, r.0),
        r.0.wf(),
{
    reveal(env_step);
    reveal(amp_of);
    let mut next = ch;
    let mut level = ch.env2.level.clamp(num(ZERO), num(ONE));
    if !plan.env_static {
        let t: bool = plan.trig[v] && first;
        proof {
            ch.env1.lemma_tick_keeps_wf(fpu, t, ch.gate);
            ch.env2.lemma_tick_keeps_wf(fpu, t, ch.gate);
        }
        next.env1.tick(fpu, t, ch.gate);
        level = next.env2.tick(fpu, t, ch.gate);
    }
    let gain = fpu.mul(
        amp_base(ch.active, ch.gate, plan.ctx.amp_env_bypass, level),
        plan.trem[v],
    );
    (next, gain)
}

/// Whole frames fit the buffer.
proof fn lemma_frames_fit(len: int, os: int, n: int)
    requires
        os > 0,
        len >= 0,
        n == len / os,
    ensures
        n * os <= len,
        n >= 0,
{
    assert(n * os <= len && n >= 0) by (nonlinear_arith)
        requires
            os > 0,
            len >= 0,
            n == len / os,
    ;
}

proof fn lemma_offset_fits(i: int, os: int, len: int)
    requires
        i >= 0,
        os > 0,
        i * os + os <= len,
    ensures
        0 <= i * os <= len,
{
    assert(0 <= i * os) by (nonlinear_arith)
        requires
            i >= 0,
            os > 0,
    ;
}

/// The voices through their amplifiers, summed in order.
fn amplified_sum<A: Fn(Op, Plain, Plain) -> Plain>(
    fpu: &Fpu<A>,
    filtered: &Lanes,
    amp: &Lanes,
) -> (r: Plain)
    requires
        fpu.valid(),
    ensures
        r == mono_sum(fpu, filtered@, amp@, CHANNELS_PER_LAYER as nat),
{
    let mut sum = num(ZERO);
    for v in 0..CHANNELS_PER_LAYER
        invariant
            fpu.valid(),
            sum == mono_sum(fpu, filtered@, amp@, v as nat),
    {
        sum = fpu.add(sum, fpu.mul(filtered[v], amp[v]));
    }
    sum
}

/// A tick of the envelopes leaves a sounding voice that has settled as it is.
pub proof fn lemma_settled_voice_stands<A: Fn(Op, Plain, Plain) -> Plain>(
    fpu: &Fpu<A>,
    ch: Channel,
)
    requires
        is_settled(ch),
        ch.active,
    ensures
        ch.env1.ticked(fpu, false, ch.gate) == ch.env1,
        ch.env2.ticked(fpu, false, ch.gate) == ch.env2,
{
    ch.env1.lemma_sustain_holds(fpu);
    ch.env2.lemma_sustain_holds(fpu);
}

/// What the oversampled samples of a frame leave of a voice.
proof fn lemma_oversampled_keeps_channels<A: Fn(Op, Plain, Plain) -> Plain>(
    fpu: &Fpu<A>,
    p: Pass,
    level_comp: Plain,
    amp: Seq<Plain>,
    r: Rendering,
    i: int,
    k: nat,
    v: int,
)
    requires
        0 <= v < r.lanes.len(),
    ensures
        ({
            let s = oversampled(fpu, p, level_comp, amp, r, i, k);
            s.lanes.len() == r.lanes.len() && s.lanes[v].ch == r.lanes[v].ch
        }),
    decreases k,
{
    if k > 0 {
        lemma_oversampled_keeps_channels(fpu, p, level_comp, amp, r, i, (k - 1) as nat, v);
    }
}

/// No block frees a voice whose note is held, and no block lets a note go: whatever is
/// rendered, a voice keeps its note and its gate, and a held voice keeps sounding.
pub proof fn lemma_held_voice_is_not_freed<A: Fn(Op, Plain, Plain) -> Plain>(
    fpu: &Fpu<A>,
    p: Pass,
    level_comp: Plain,
    r: Rendering,
    n: nat,
    v: int,
)
    requires
        0 <= v < r.lanes.len(),
    ensures
        ({
            let (c, s) = (r.lanes[v].ch, frames(fpu, p, level_comp, r, n));
            let d = s.lanes[v].ch;
            &&& s.lanes.len() == r.lanes.len()
            &&& d.note == c.note && d.gate == c.gate && d.velocity == c.velocity
            &&& c.gate ==> d.active == c.active
            &&& !c.active ==> !d.active
        }),
    decreases n,
{
    if n > 0 {
        lemma_held_voice_is_not_freed(fpu, p, level_comp, r, (n - 1) as nat, v);
        reveal(env_step);
        let q = frames(fpu, p, level_comp, r, (n - 1) as nat);
        let i = n - 1;
        let ticked = Seq::new(
            q.lanes.len(),
            |v: int| VoiceLane { ch: env_step(fpu, p, v, i == 0, q.lanes[v].ch), ..q.lanes[v] },
        );
        let amp = Seq::new(q.lanes.len(), |v: int| amp_of(fpu, p, v, ticked[v].ch));
        lemma_oversampled_keeps_channels(
            fpu,
            p,
            level_comp,
            amp,
            Rendering { lanes: ticked, out: q.out },
            i * p.ctx.os,
            p.ctx.os as nat,
            v,
        );
    }
}

/// A block leaves what the envelopes are set to alone.
pub proof fn lemma_envelope_settings_stay<A: Fn(Op, Plain, Plain) -> Plain>(
    fpu: &Fpu<A>,
    p: Pass,
    level_comp: Plain,
    r: Rendering,
    n: nat,
    v: int,
)
    requires
        0 <= v < r.lanes.len(),
    ensures
        ({
            let (c, s) = (r.lanes[v].ch, frames(fpu, p, level_comp, r, n));
            let d = s.lanes[v].ch;
            &&& s.lanes.len() == r.lanes.len()
            &&& d.env1.same_settings(c.env1)
            &&& d.env2.same_settings(c.env2)
        }),
    decreases n,
{
    if n > 0 {
        lemma_envelope_settings_stay(fpu, p, level_comp, r, (n - 1) as nat, v);
        reveal(env_step);
        let q = frames(fpu, p, level_comp, r, (n - 1) as nat);
        let i = n - 1;
        let ticked = Seq::new(
            q.lanes.len(),
            |v: int| VoiceLane { ch: env_step(fpu, p, v, i == 0, q.lanes[v].ch), ..q.lanes[v] },
        );
        let amp = Seq::new(q.lanes.len(), |v: int| amp_of(fpu, p, v, ticked[v].ch));
        let c = q.lanes[v].ch;
        c.env1.lemma_tick_keeps_settings(fpu, p.trig[v] && i == 0, c.gate);
        c.env2.lemma_tick_keeps_settings(fpu, p.trig[v] && i == 0, c.gate);
        lemma_oversampled_keeps_channels(
            fpu,
            p,
            level_comp,
            amp,
            Rendering { lanes: ticked, out: q.out },
            i * p.ctx.os,
            p.ctx.os as nat,
            v,
        );
    }
}

/// What a voice takes into a block leaves its envelopes alone.
pub proof fn lemma_prepared_envelopes<A: Fn(Op, Plain, Plain) -> Plain>(
    fpu: &Fpu<A>,
    ctx: &BlockCtx,
    glide: (bool, Plain),
    ch: Channel,
)
    ensures
        prepared(fpu, ctx, glide, ch).ch.env1 == ch.env1,
        prepared(fpu, ctx, glide, ch).ch.env2 == ch.env2,
{
    reveal(prepared);
}

/// What a voice starting a note glided from before plays no part in a note that has no
/// pitch to glide from, or that is played without glide: it starts at its own pitch.
pub proof fn lemma_first_note_is_not_swept<A: Fn(Op, Plain, Plain) -> Plain>(
    fpu: &Fpu<A>,
    ctx: &BlockCtx,
    glide: bool,
    coeff: Plain,
    ch: Channel,
    raw: Plain,
    left_over: Plain,
)
    requires
        ch.trigger_pending,
        !glide || !ch.glide_valid,
    ensures
        resolved(fpu, ctx, glide, coeff, Channel { glide_semi: left_over, ..ch }, raw) == resolved(
            fpu,
            ctx,
            glide,
            coeff,
            ch,
            raw,
        ),
{
}

/// The oversampled samples of a frame leave a part of a voice alone that is not in use.
proof fn lemma_oversampled_keeps_resting<A: Fn(Op, Plain, Plain) -> Plain>(
    fpu: &Fpu<A>,
    p: Pass,
    level_comp: Plain,
    amp: Seq<Plain>,
    r: Rendering,
    i: int,
    k: nat,
    v: int,
)
    requires
        0 <= v < r.lanes.len(),
    ensures
        ({
            let s = oversampled(fpu, p, level_comp, amp, r, i, k);
            &&& s.lanes.len() == r.lanes.len()
            &&& p.ctx.noise_level.equals(num(ZERO)) ==> s.lanes[v].noise == r.lanes[v].noise
            &&& !p.hpf_active ==> s.lanes[v].hpf == r.lanes[v].hpf
        }),
    decreases k,
{
    if k > 0 {
        lemma_oversampled_keeps_resting(fpu, p, level_comp, amp, r, i, (k - 1) as nat, v);
    }
}

/// What is not in use costs nothing and stays as it is: with the noise turned down no
/// noise is drawn, and a high-pass filter that is not engaged keeps its state.
pub proof fn lemma_unused_parts_rest<A: Fn(Op, Plain, Plain) -> Plain>(
    fpu: &Fpu<A>,
    p: Pass,
    level_comp: Plain,
    r: Rendering,
    n: nat,
    v: int,
)
    requires
        0 <= v < r.lanes.len(),
    ensures
        ({
            let s = frames(fpu, p, level_comp, r, n);
            &&& s.lanes.len() == r.lanes.len()
            &&& p.ctx.noise_level.equals(num(ZERO)) ==> s.lanes[v].noise == r.lanes[v].noise
            &&& !p.hpf_active ==> s.lanes[v].hpf == r.lanes[v].hpf
        }),
    decreases n,
{
    if n > 0 {
        lemma_unused_parts_rest(fpu, p, level_comp, r, (n - 1) as nat, v);
        let q = frames(fpu, p, level_comp, r, (n - 1) as nat);
        let i = n - 1;
        let ticked = Seq::new(
            q.lanes.len(),
            |v: int| VoiceLane { ch: env_step(fpu, p, v, i == 0, q.lanes[v].ch), ..q.lanes[v] },
        );
        let amp = Seq::new(q.lanes.len(), |v: int| amp_of(fpu, p, v, ticked[v].ch));
        lemma_oversampled_keeps_resting(
            fpu,
            p,
            level_comp,
            amp,
            Rendering { lanes: ticked, out: q.out },
            i * p.ctx.os,
            p.ctx.os as nat,
            v,
        );
    }
}

/// The block as it is without the shortcut.
pub open spec fn ticking(p: Pass) -> Pass {
    Pass { env_static: false, ..p }
}

/// Two voices that are the same, but for the envelopes of a silent one.
pub open spec fn is_alike(a: VoiceLane, b: VoiceLane) -> bool {
    let c = if a.ch.active {
        a.ch
    } else {
        Channel { env1: b.ch.env1, env2: b.ch.env2, ..a.ch }
    };
    b == VoiceLane { ch: c, ..a }
}

/// Two states of a block whose buffers are equal and whose voices are alike.
pub open spec fn same_rendering(a: Rendering, b: Rendering) -> bool {
    &&& a.out == b.out
    &&& a.lanes.len() == b.lanes.len()
    &&& forall|v: int| 0 <= v < a.lanes.len() ==> is_alike(#[trigger] a.lanes[v], b.lanes[v])
}

/// A block as [`rendered`] gives it, with every envelope ticked in every frame.
pub open spec fn rendered_ticking<A: Fn(Op, Plain, Plain) -> Plain>(
    fpu: &Fpu<A>,
    ctx: &BlockCtx,
    level_comp: Plain,
    unison: bool,
    r: Rendering,
) -> Rendering {
    let n = (r.out.len() / ctx.os as nat) as usize;
    let glide = block_glide(fpu, ctx.portamento_time, unison, n, base_rate(fpu, ctx));
    frames(
        fpu,
        ticking(block_pass(fpu, ctx, glide, r.lanes)),
        level_comp,
        Rendering { lanes: block_start(fpu, ctx, glide, n, r.lanes), out: r.out },
        n as nat,
    )
}

/// What a voice puts out takes no notice of the shortcut, nor of its envelopes.
proof fn lemma_sounded_alike<A: Fn(Op, Plain, Plain) -> Plain>(
    fpu: &Fpu<A>,
    p: Pass,
    v: int,
    a: VoiceLane,
    b: VoiceLane,
)
    requires
        is_alike(a, b),
    ensures
        sounded(fpu, p, v, a).1 == sounded(fpu, ticking(p), v, b).1,
        is_alike(sounded(fpu, p, v, a).0, sounded(fpu, ticking(p), v, b).0),
        sounded(fpu, p, v, a).0.ch == a.ch,
{
}

/// One oversampled sample with and without the shortcut.
proof fn lemma_sampled_alike<A: Fn(Op, Plain, Plain) -> Plain>(
    fpu: &Fpu<A>,
    p: Pass,
    level_comp: Plain,
    amp: Seq<Plain>,
    a: Rendering,
    b: Rendering,
    i: int,
)
    requires
        same_rendering(a, b),
    ensures
        same_rendering(
            sampled(fpu, p, level_comp, amp, a, i),
            sampled(fpu, ticking(p), level_comp, amp, b, i),
        ),
        sampled(fpu, p, level_comp, amp, a, i).lanes.len() == a.lanes.len(),
        forall|v: int|
            0 <= v < a.lanes.len() ==> (#[trigger] sampled(
                fpu,
                p,
                level_comp,
                amp,
                a,
                i,
            ).lanes[v]).ch == a.lanes[v].ch,
{
    let t = ticking(p);
    let fa = Seq::new(a.lanes.len(), |v: int| sounded(fpu, p, v, a.lanes[v]).1);
    let fb = Seq::new(b.lanes.len(), |v: int| sounded(fpu, t, v, b.lanes[v]).1);
    let (x, y) = (
        sampled(fpu, p, level_comp, amp, a, i),
        sampled(fpu, t, level_comp, amp, b, i),
    );
    assert forall|v: int| 0 <= v < a.lanes.len() implies fa[v] == fb[v] && is_alike(
        #[trigger] x.lanes[v],
        y.lanes[v],
    ) && x.lanes[v].ch == a.lanes[v].ch by {
        assert(is_alike(a.lanes[v], b.lanes[v]));
        lemma_sounded_alike(fpu, p, v, a.lanes[v], b.lanes[v]);
        assert(x.lanes[v] == sounded(fpu, p, v, a.lanes[v]).0);
        assert(y.lanes[v] == sounded(fpu, t, v, b.lanes[v]).0);
    }
    assert(fa =~= fb);
}

/// The oversampled samples of a frame with and without the shortcut.
proof fn lemma_oversampled_alike<A: Fn(Op, Plain, Plain) -> Plain>(
    fpu: &Fpu<A>,
    p: Pass,
    level_comp: Plain,
    amp: Seq<Plain>,
    r: Rendering,
    s: Rendering,
    i: int,
    k: nat,
)
    requires
        same_rendering(r, s),
    ensures
        same_rendering(
            oversampled(fpu, p, level_comp, amp, r, i, k),
            oversampled(fpu, ticking(p), level_comp, amp, s, i, k),
        ),
        oversampled(fpu, p, level_comp, amp, r, i, k).lanes.len() == r.lanes.len(),
        forall|v: int|
            0 <= v < r.lanes.len() ==> (#[trigger] oversampled(
                fpu,
                p,
                level_comp,
                amp,
                r,
                i,
                k,
            ).lanes[v]).ch == r.lanes[v].ch,
    decreases k,
{
    if k > 0 {
        lemma_oversampled_alike(fpu, p, level_comp, amp, r, s, i, (k - 1) as nat);
        let a = oversampled(fpu, p, level_comp, amp, r, i, (k - 1) as nat);
        let b = oversampled(fpu, ticking(p), level_comp, amp, s, i, (k - 1) as nat);
        lemma_sampled_alike(fpu, p, level_comp, amp, a, b, i + k - 1);
        let x = sampled(fpu, p, level_comp, amp, a, i + k - 1);
        assert(oversampled(fpu, p, level_comp, amp, r, i, k) == x);
        assert forall|v: int| 0 <= v < r.lanes.len() implies (#[trigger] x.lanes[v]).ch
            == r.lanes[v].ch by {
            assert(a.lanes[v].ch == r.lanes[v].ch);
        }
    }
}

/// One frame of a settled voice with and without the shortcut.
proof fn lemma_settled_frame<A: Fn(Op, Plain, Plain) -> Plain>(
    fpu: &Fpu<A>,
    p: Pass,
    v: int,
    first: bool,
    a: VoiceLane,
    b: VoiceLane,
)
    requires
        p.env_static,
        is_settled(a.ch),
        is_alike(a, b),
        !p.trig[v],
    ensures
        env_step(fpu, p, v, first, a.ch) == a.ch,
        is_alike(a, (VoiceLane { ch: env_step(fpu, ticking(p), v, first, b.ch), ..b })),
        amp_of(fpu, p, v, a.ch) == amp_of(
            fpu,
            ticking(p),
            v,
            env_step(fpu, ticking(p), v, first, b.ch),
        ),
        is_settled(frame_end(fpu, p, a.ch)),
{
    reveal(env_step);
    reveal(amp_of);
    if a.ch.active {
        lemma_settled_voice_stands(fpu, a.ch);
    }
}

/// One frame of a settled block with and without the shortcut.
proof fn lemma_frame_alike<A: Fn(Op, Plain, Plain) -> Plain>(
    fpu: &Fpu<A>,
    p: Pass,
    level_comp: Plain,
    r: Rendering,
    s: Rendering,
    i: int,
)
    requires
        p.env_static,
        same_rendering(r, s),
        forall|v: int| 0 <= v < r.lanes.len() ==> is_settled((#[trigger] r.lanes[v]).ch),
        forall|v: int| 0 <= v < r.lanes.len() ==> !#[trigger] p.trig[v],
    ensures
        same_rendering(
            framed(fpu, p, level_comp, r, i),
            framed(fpu, ticking(p), level_comp, s, i),
        ),
        framed(fpu, p, level_comp, r, i).lanes.len() == r.lanes.len(),
        forall|v: int|
            0 <= v < r.lanes.len() ==> is_settled(
                (#[trigger] framed(fpu, p, level_comp, r, i).lanes[v]).ch,
            ),
{
    let t = ticking(p);
    let (a, b) = (framed(fpu, p, level_comp, r, i), framed(fpu, t, level_comp, s, i));
    let ticked = Seq::new(
        r.lanes.len(),
        |v: int| VoiceLane { ch: env_step(fpu, p, v, i == 0, r.lanes[v].ch), ..r.lanes[v] },
    );
    let ticked_t = Seq::new(
        s.lanes.len(),
        |v: int| VoiceLane { ch: env_step(fpu, t, v, i == 0, s.lanes[v].ch), ..s.lanes[v] },
    );
    let amp = Seq::new(r.lanes.len(), |v: int| amp_of(fpu, p, v, ticked[v].ch));
    let amp_t = Seq::new(s.lanes.len(), |v: int| amp_of(fpu, t, v, ticked_t[v].ch));
    assert forall|v: int| 0 <= v < r.lanes.len() implies ticked[v] == r.lanes[v] && is_alike(
        #[trigger] ticked[v],
        ticked_t[v],
    ) && amp[v] == amp_t[v] by {
        lemma_settled_frame(fpu, p, v, i == 0, r.lanes[v], s.lanes[v]);
    }
    assert(amp =~= amp_t);
    let (from, from_t) = (
        Rendering { lanes: ticked, out: r.out },
        Rendering { lanes: ticked_t, out: s.out },
    );
    lemma_oversampled_alike(
        fpu,
        p,
        level_comp,
        amp,
        from,
        from_t,
        i * p.ctx.os,
        p.ctx.os as nat,
    );
    let x = oversampled(fpu, p, level_comp, amp, from, i * p.ctx.os, p.ctx.os as nat);
    let y = oversampled(fpu, t, level_comp, amp, from_t, i * p.ctx.os, p.ctx.os as nat);
    assert forall|v: int| 0 <= v < r.lanes.len() implies is_alike(a.lanes[v], b.lanes[v])
        && is_settled((#[trigger] a.lanes[v]).ch) by {
        assert(is_alike(x.lanes[v], y.lanes[v]));
        assert(x.lanes[v].ch == ticked[v].ch);
        lemma_settled_frame(fpu, p, v, i == 0, r.lanes[v], s.lanes[v]);
    }
}

/// The frames of a settled block with and without the shortcut.
proof fn lemma_frames_alike<A: Fn(Op, Plain, Plain) -> Plain>(
    fpu: &Fpu<A>,
    p: Pass,
    level_comp: Plain,
    r: Rendering,
    n: nat,
)
    requires
        p.env_static,
        forall|v: int| 0 <= v < r.lanes.len() ==> is_settled((#[trigger] r.lanes[v]).ch),
        forall|v: int| 0 <= v < r.lanes.len() ==> !#[trigger] p.trig[v],
    ensures
        same_rendering(
            frames(fpu, p, level_comp, r, n),
            frames(fpu, ticking(p), level_comp, r, n),
        ),
        frames(fpu, p, level_comp, r, n).lanes.len() == r.lanes.len(),
        forall|v: int|
            0 <= v < r.lanes.len() ==> is_settled(
                (#[trigger] frames(fpu, p, level_comp, r, n).lanes[v]).ch,
            ),
    decreases n,
{
    if n > 0 {
        lemma_frames_alike(fpu, p, level_comp, r, (n - 1) as nat);
        lemma_frame_alike(
            fpu,
            p,
            level_comp,
            frames(fpu, p, level_comp, r, (n - 1) as nat),
            frames(fpu, ticking(p), level_comp, r, (n - 1) as nat),
            n - 1,
        );
    }
}

/// The shortcut is exact: every block renders the same, sample for sample, as it would with
/// every envelope ticked in every frame, and leaves the same voices behind. Only the
/// envelopes of silent voices may differ, which nothing hears.
pub proof fn lemma_shortcut_is_exact<A: Fn(Op, Plain, Plain) -> Plain>(
    fpu: &Fpu<A>,
    ctx: &BlockCtx,
    level_comp: Plain,
    unison: bool,
    r: Rendering,
)
    requires
        r.lanes.len() == CHANNELS_PER_LAYER,
    ensures
        same_rendering(
            rendered(fpu, ctx, level_comp, unison, r),
            rendered_ticking(fpu, ctx, level_comp, unison, r),
        ),
{
    let n = (r.out.len() / ctx.os as nat) as usize;
    let glide = block_glide(fpu, ctx.portamento_time, unison, n, base_rate(fpu, ctx));
    let p = block_pass(fpu, ctx, glide, r.lanes);
    let start = block_start(fpu, ctx, glide, n, r.lanes);
    if p.env_static {
        let channels = Seq::new(r.lanes.len(), |v: int| r.lanes[v].ch);
        assert forall|v: int| 0 <= v < start.len() implies is_settled((#[trigger] start[v]).ch) by {
            reveal(prepared);
            assert(is_settled(channels[v]));
        }
        lemma_frames_alike(fpu, p, level_comp, Rendering { lanes: start, out: r.out }, n as nat);
    } else {
        assert(ticking(p) =~= p);
    }
}

/// A new sustain under a held note is heard in the next block: a sounding voice that is
/// held in its sustain has both envelopes at their sustain levels after any frame.
pub proof fn lemma_sustain_is_followed<A: Fn(Op, Plain, Plain) -> Plain>(
    fpu: &Fpu<A>,
    p: Pass,
    level_comp: Plain,
    r: Rendering,
    n: nat,
    v: int,
)
    requires
        n > 0,
        0 <= v < r.lanes.len(),
        !p.trig[v],
        p.env_static ==> is_settled(r.lanes[v].ch),
        r.lanes[v].ch.active,
        r.lanes[v].ch.gate,
        r.lanes[v].ch.env1.stage == AdsrStage::Sustain,
        r.lanes[v].ch.env2.stage == AdsrStage::Sustain,
    ensures
        ({
            let (c, d) = (r.lanes[v].ch, frames(fpu, p, level_comp, r, n).lanes[v].ch);
            &&& d.env1 == (AdsrCore { level: c.env1.sustain, ..c.env1 })
            &&& d.env2 == (AdsrCore { level: c.env2.sustain, ..c.env2 })
            &&& d.active && d.gate
        }),
    decreases n,
{
    reveal(env_step);
    let q = frames(fpu, p, level_comp, r, (n - 1) as nat);
    if n > 1 {
        lemma_sustain_is_followed(fpu, p, level_comp, r, (n - 1) as nat, v);
    }
    lemma_held_voice_is_not_freed(fpu, p, level_comp, r, (n - 1) as nat, v);
    let i = n - 1;
    let ticked = Seq::new(
        q.lanes.len(),
        |v: int| VoiceLane { ch: env_step(fpu, p, v, i == 0, q.lanes[v].ch), ..q.lanes[v] },
    );
    let amp = Seq::new(q.lanes.len(), |v: int| amp_of(fpu, p, v, ticked[v].ch));
    lemma_oversampled_keeps_channels(
        fpu,
        p,
        level_comp,
        amp,
        Rendering { lanes: ticked, out: q.out },
        i * p.ctx.os,
        p.ctx.os as nat,
        v,
    );
    q.lanes[v].ch.env1.lemma_sustain_holds(fpu);
    q.lanes[v].ch.env2.lemma_sustain_holds(fpu);
}

/// A sample at a level, where it is all there is.
proof fn lemma_at_level<A: Fn(Op, Plain, Plain) -> Plain>(
    fpu: &Fpu<A>,
    x: Plain,
    level: Plain,
    rest: Plain,
    r: Plain,
)
    requires
        fpu.rounds(),
        x.is_finite() && level.is_finite() && rest.is_zero() && r.is_number(),
        r.scaled() * plain::unit() == x.scaled() * level.scaled(),
    ensures
        fpu.mul(x, level).equals(r),
        fpu.add(fpu.mul(x, level), rest).equals(r),
        fpu.add(rest, fpu.mul(x, level)).equals(r),
{
    fpu.lemma_mul_side(x, level, r);
    let m = fpu.mul(x, level);
    plain::lemma_equal_scaled(m, r);
    plain::lemma_zero_scaled(rest);
    fpu.lemma_add_side(m, rest, r);
    fpu.lemma_add_side(rest, m, r);
}

/// The mixer: each source is heard by its own level. With every other level at nothing, the mix
/// is that source times its level, wherever that is a number: oscillator 1, or the ring modulator
/// in its place; oscillator 2; the sub-oscillator, below oscillator 2 under sync and oscillator 1
/// else; the noise. With all at nothing it is silent.
pub proof fn lemma_mixer<A: Fn(Op, Plain, Plain) -> Plain>(
    fpu: &Fpu<A>,
    p: Pass,
    pair: PairStep,
    noise: Plain,
    r: Plain,
)
    requires
        fpu.rounds(),
        r.is_number(),
        pair.o1.is_finite() && pair.o2.is_finite() && noise.is_finite(),
        ring_sample(fpu, pair.o1, pair.o2, p.ring_gain).is_finite(),
        p.ctx.osc1_level.is_number() && p.ctx.osc2_level.is_number(),
        p.ctx.sub_level.is_number() && p.ctx.noise_level.is_number(),
        sub_sample(fpu, pair.slave.phase, pair.slave.inc, pair.master.sub_high).is_finite(),
        sub_sample(fpu, pair.master.phase, pair.master.inc, pair.master.sub_high).is_finite(),
    ensures
        ({
            let c = p.ctx;
            let mix = source_mix(fpu, p, pair, noise);
            let at = r.scaled() * plain::unit();
            let first = if c.ring_mode {
                ring_sample(fpu, pair.o1, pair.o2, p.ring_gain)
            } else {
                pair.o1
            };
            let period = if c.sync {
                pair.slave
            } else {
                pair.master
            };
            let sub = sub_sample(fpu, period.phase, period.inc, pair.master.sub_high);
            let (no1, no2) = (c.osc1_level.is_zero(), c.osc2_level.is_zero());
            let (no_sub, no_noise) = (c.sub_level.is_zero(), c.noise_level.is_zero());
            &&& no2 && no_sub && no_noise && at == first.scaled() * c.osc1_level.scaled()
                ==> mix.equals(r)
            &&& no1 && no_sub && no_noise && at == pair.o2.scaled() * c.osc2_level.scaled()
                ==> mix.equals(r)
            &&& no1 && no2 && !no_sub && no_noise && at == sub.scaled() * c.sub_level.scaled()
                ==> mix.equals(r)
            &&& no1 && no2 && no_sub && !no_noise && at == noise.scaled() * c.noise_level.scaled()
                ==> mix.equals(r)
            &&& no1 && no2 && no_sub && no_noise ==> mix.is_zero()
        }),
{
    let c = p.ctx;
    let first = if c.ring_mode {
        ring_sample(fpu, pair.o1, pair.o2, p.ring_gain)
    } else {
        pair.o1
    };
    let period = if c.sync {
        pair.slave
    } else {
        pair.master
    };
    let sub = sub_sample(fpu, period.phase, period.inc, pair.master.sub_high);
    let at = r.scaled() * plain::unit();
    let (a, b) = (fpu.mul(first, c.osc1_level), fpu.mul(pair.o2, c.osc2_level));
    plain::lemma_zero_scaled(num(ZERO));
    if c.osc1_level.is_zero() {
        fpu.lemma_none_of(first, c.osc1_level);
    }
    if c.osc2_level.is_zero() {
        fpu.lemma_none_of(pair.o2, c.osc2_level);
    }
    if c.osc2_level.is_zero() && at == first.scaled() * c.osc1_level.scaled() {
        lemma_at_level(fpu, first, c.osc1_level, b, r);
    }
    if c.osc1_level.is_zero() && at == pair.o2.scaled() * c.osc2_level.scaled() {
        lemma_at_level(fpu, pair.o2, c.osc2_level, a, r);
    }
    if c.osc1_level.is_zero() && c.osc2_level.is_zero() {
        fpu.lemma_nothing_added(a, b);
        let z = fpu.add(a, b);
        if at == sub.scaled() * c.sub_level.scaled() {
            lemma_at_level(fpu, sub, c.sub_level, z, r);
        }
        if at == noise.scaled() * c.noise_level.scaled() {
            lemma_at_level(fpu, noise, c.noise_level, z, r);
        }
    }
}

/// The oscillators of a voice without interaction do not hear each other; under sync the first
/// does not hear the second; under phase modulation the second does not hear the first, and
/// neither runs any other way for it.
pub proof fn lemma_who_hears_whom<A: Fn(Op, Plain, Plain) -> Plain>(
    fpu: &Fpu<A>,
    ctx: &BlockCtx,
    o1: OscLane,
    o2: OscLane,
    other1: OscLane,
    other2: OscLane,
    pw1: Plain,
    pw2: Plain,
)
    ensures
        ({
            let s = osc_pair(fpu, ctx, o1, o2, pw1, pw2);
            let t = osc_pair(fpu, ctx, o1, other2, pw1, pw2);
            let q = osc_pair(fpu, ctx, other1, o2, pw1, pw2);
            let modulates = !ctx.sync && !ctx.pm_index.equals(num(ZERO));
            &&& s.master == o1.advanced(fpu)
            &&& !modulates ==> s.o1 == t.o1 && s.o1 == osc_sample(
                fpu,
                ctx.osc1_wave,
                o1.phase,
                pw1,
                o1.inc,
            )
            &&& !ctx.sync ==> s.o2 == q.o2 && s.slave == q.slave && s.slave.phase == o2.advanced(
                fpu,
            ).phase && s.o2 == osc_sample(fpu, ctx.osc2_wave, o2.phase, pw2, o2.inc)
        }),
{
}

/// A high-pass filter that is not engaged passes everything as it is; one that is removes what
/// is steady.
pub proof fn lemma_highpass_when_engaged<A: Fn(Op, Plain, Plain) -> Plain>(
    fpu: &Fpu<A>,
    active: bool,
    k: HpfKernel,
    x: Plain,
)
    requires
        fpu.rounds(),
        k.s.is_number() && k.a.is_finite(),
    ensures
        !active ==> hpf_step(fpu, active, k, x) == (k, x),
        active && x == k.s ==> hpf_step(fpu, active, k, x).1.is_zero(),
{
    hpf::lemma_steady_input_is_removed(fpu, k);
}

/// A tremolo turns a voice down where its source is low: not at all where the source is at its
/// top or there is no depth, and by all of the depth where it is at its bottom.
pub proof fn lemma_tremolo<A: Fn(Op, Plain, Plain) -> Plain>(
    fpu: &Fpu<A>,
    ctx: BlockCtx,
    glide: bool,
    coeff: Plain,
    ch: Channel,
    raw: Plain,
    half: Plain,
    r: Plain,
)
    requires
        fpu.rounds(),
        ctx.amp_lfo_sel == crate::choices::LfoSel::Lfo2,
        ctx.lfo2_val.is_finite(),
        -plain::unit() <= ctx.lfo2_val.scaled() <= plain::unit(),
        ctx.amp_lfo_depth.is_number() && half.is_number() && r.is_number(),
        2 * half.scaled() == ctx.amp_lfo_depth.scaled(),
        r.scaled() == plain::unit() - ctx.amp_lfo_depth.scaled(),
    ensures
        ({
            let t = resolved(fpu, &ctx, glide, coeff, ch, raw).trem;
            &&& ctx.amp_lfo_depth.is_zero() ==> t == num(ONE)
            &&& ctx.lfo2_val == num(ONE) ==> t == num(ONE)
            &&& ctx.lfo2_val == num(MINUS_ONE) ==> t.equals(r)
        }),
{
    plain::lemma_small_values();
    let u = plain::unit();
    let d = ctx.amp_lfo_depth;
    let x = ctx.lfo2_val;
    let h = fpu.mul(d, num(HALF));
    let (s, k, hs) = (d.scaled(), num(HALF).scaled(), half.scaled());
    assert(s * k == hs * u) by (nonlinear_arith)
        requires
            2 * hs == s,
            2 * k == u,
    ;
    fpu.lemma_mul_side(d, num(HALF), half);
    plain::lemma_equal_scaled(h, half);
    let down = fpu.sub(num(ONE), x);
    fpu.lemma_sub_side(num(ONE), x, num(ZERO));
    fpu.lemma_sub_side(num(ONE), x, num(TWO));
    plain::lemma_between_finite(num(ZERO), down, num(TWO));
    let m = fpu.mul(h, down);
    if d.is_zero() {
        plain::lemma_zero_scaled(d);
        plain::lemma_scaled_sign(h);
        fpu.lemma_none_of(down, h);
        fpu.lemma_nothing_added(num(ONE), m);
    }
    if x == num(ONE) {
        plain::lemma_equal_scaled(down, num(ZERO));
        plain::lemma_scaled_sign(down);
        fpu.lemma_none_of(h, down);
        fpu.lemma_nothing_added(num(ONE), m);
    }
    if x == num(MINUS_ONE) {
        fpu.lemma_sub_side(num(ONE), x, num(TWO));
        plain::lemma_equal_scaled(down, num(TWO));
        assert(hs * (2 * u) == s * u) by (nonlinear_arith)
            requires
                2 * hs == s,
        ;
        fpu.lemma_mul_side(h, down, d);
        plain::lemma_equal_scaled(m, d);
        fpu.lemma_sub_side(num(ONE), m, r);
    }
}

/// The pulse widths of a voice stay between a twentieth and nineteen twentieths, and are those of
/// the patch where nothing modulates them.
pub proof fn lemma_pulse_widths<A: Fn(Op, Plain, Plain) -> Plain>(
    fpu: &Fpu<A>,
    ctx: BlockCtx,
    glide: bool,
    coeff: Plain,
    ch: Channel,
    raw: Plain,
)
    requires
        fpu.rounds(),
        ctx.osc1_pw.is_number() && ctx.osc2_pw.is_number(),
    ensures
        ({
            let p = resolved(fpu, &ctx, glide, coeff, ch, raw);
            let lfo1 = fpu.mul(raw, onset_gain(fpu, ch.onset, ctx.lfo1_delay_time, ctx.lfo1_fade));
            let m = resolve_mod(
                fpu,
                &ctx,
                &(ModSources {
                    e1: ch.env1.level,
                    e2: ch.env2.level,
                    lfo1,
                    lfo2: ctx.lfo2_val,
                    velocity: ch.velocity,
                    note: ch.note,
                }),
            ).pwm_mod;
            &&& !p.pw1.is_nan() ==> num(F0_05).at_most(p.pw1) && p.pw1.at_most(num(F0_95))
            &&& !p.pw2.is_nan() ==> num(F0_05).at_most(p.pw2) && p.pw2.at_most(num(F0_95))
            &&& m.is_zero() && num(F0_05).at_most(ctx.osc1_pw) && ctx.osc1_pw.at_most(num(F0_95))
                ==> p.pw1 == ctx.osc1_pw
            &&& m.is_zero() && num(F0_05).at_most(ctx.osc2_pw) && ctx.osc2_pw.at_most(num(F0_95))
                ==> p.pw2 == ctx.osc2_pw
        }),
{
    let lfo1 = fpu.mul(raw, onset_gain(fpu, ch.onset, ctx.lfo1_delay_time, ctx.lfo1_fade));
    let m = resolve_mod(
        fpu,
        &ctx,
        &(ModSources {
            e1: ch.env1.level,
            e2: ch.env2.level,
            lfo1,
            lfo2: ctx.lfo2_val,
            velocity: ch.velocity,
            note: ch.note,
        }),
    ).pwm_mod;
    if m.is_zero() {
        fpu.lemma_nothing_added(ctx.osc1_pw, m);
        fpu.lemma_nothing_added(ctx.osc2_pw, m);
    }
}

/// Twelve semitones of modulation are an octave of cutoff: a whole number of octaves up doubles
/// the cutoff as often, wherever that is a number.
pub proof fn lemma_cutoff_by_octaves<A: Fn(Op, Plain, Plain) -> Plain>(
    fpu: &Fpu<A>,
    cutoff: Plain,
    semitones: Plain,
    octaves: nat,
    r: Plain,
)
    requires
        fpu.rounds(),
        cutoff.is_finite() && semitones.is_finite() && r.is_number(),
        octaves <= 10,
        semitones.scaled() == 12 * octaves * plain::unit(),
        r.scaled() == cutoff.scaled() * vstd::arithmetic::power2::pow2(octaves),
    ensures
        fpu.mul(cutoff, fast_exp2(fpu, fpu.div(semitones, num(F12)))).equals(r),
{
    plain::lemma_small_values();
    let u = plain::unit();
    let k = Plain::from_int(octaves as i64);
    plain::lemma_count_exists(octaves as int);
    plain::lemma_exact_count(octaves as int);
    math::lemma_whole_is_number(k, octaves as int);
    assert((octaves * u) * (12 * u) == (12 * octaves * u) * u) by (nonlinear_arith);
    fpu.lemma_div_side(semitones, num(F12), k);
    let x = fpu.div(semitones, num(F12));
    plain::lemma_equal_scaled(x, k);
    math::lemma_exp2_of_whole(fpu, x, octaves as int);
    plain::lemma_power_scaled(octaves as int + 127);
    let (s, t) = (cutoff.scaled(), vstd::arithmetic::power2::pow2(octaves) as int);
    assert(s * (t * u) == (s * t) * u) by (nonlinear_arith);
    fpu.lemma_mul_side(cutoff, math::power_of_two(octaves as int), r);
}

/// The filter of a voice opens by octaves: where the modulation is a whole number of them, its
/// coefficients are those of the cutoff doubled as often.
pub proof fn lemma_filter_opens_by_octaves<A: Fn(Op, Plain, Plain) -> Plain>(
    fpu: &Fpu<A>,
    ctx: BlockCtx,
    glide: bool,
    coeff: Plain,
    ch: Channel,
    raw: Plain,
    octaves: nat,
    r: Plain,
)
    requires
        fpu.rounds(),
        ctx.cutoff.is_finite() && r.is_normal(),
        octaves <= 10,
        r.scaled() == ctx.cutoff.scaled() * vstd::arithmetic::power2::pow2(octaves),
        ({
            let lfo1 = fpu.mul(raw, onset_gain(fpu, ch.onset, ctx.lfo1_delay_time, ctx.lfo1_fade));
            let m = resolve_mod(
                fpu,
                &ctx,
                &(ModSources {
                    e1: ch.env1.level,
                    e2: ch.env2.level,
                    lfo1,
                    lfo2: ctx.lfo2_val,
                    velocity: ch.velocity,
                    note: ch.note,
                }),
            ).cutoff_mod;
            m.is_finite() && m.scaled() == 12 * octaves * plain::unit()
        }),
    ensures
        resolved(fpu, &ctx, glide, coeff, ch, raw).coeffs == OtaLadderCoeffs::new(
            fpu,
            r,
            ctx.os_sample_rate,
            ctx.resonance,
            ctx.drive,
        ),
{
    let lfo1 = fpu.mul(raw, onset_gain(fpu, ch.onset, ctx.lfo1_delay_time, ctx.lfo1_fade));
    let m = resolve_mod(
        fpu,
        &ctx,
        &(ModSources {
            e1: ch.env1.level,
            e2: ch.env2.level,
            lfo1,
            lfo2: ctx.lfo2_val,
            velocity: ch.velocity,
            note: ch.note,
        }),
    ).cutoff_mod;
    lemma_cutoff_by_octaves(fpu, ctx.cutoff, m, octaves, r);
}

/// A voice without a glide is at its note at once; one that glides heads for it from the pitch
/// that it had.
pub proof fn lemma_glide_to_the_note<A: Fn(Op, Plain, Plain) -> Plain>(
    fpu: &Fpu<A>,
    ctx: BlockCtx,
    glide: bool,
    coeff: Plain,
    ch: Channel,
    raw: Plain,
    way: Plain,
)
    requires
        fpu.rounds(),
        ch.glide_semi.is_number() && way.is_number(),
        way.scaled() == ch.note * plain::unit() - ch.glide_semi.scaled(),
        coeff.is_finite() && 0 <= coeff.scaled() <= plain::unit(),
    ensures
        ({
            let p = resolved(fpu, &ctx, glide, coeff, ch, raw).ch.glide_semi;
            let note = Plain::from_int(ch.note as i64);
            let snaps = ch.trigger_pending && (!glide || !ch.glide_valid);
            &&& snaps ==> p.equals(note)
            &&& coeff == num(ONE) ==> p.equals(note)
            &&& !snaps && way.scaled() >= 0 ==> ch.glide_semi.at_most(p)
            &&& !snaps && way.scaled() <= 0 ==> p.at_most(ch.glide_semi)
        }),
{
    let note = Plain::from_int(ch.note as i64);
    plain::lemma_count_exists(ch.note as int);
    plain::lemma_exact_count(ch.note as int);
    math::lemma_whole_is_number(note, ch.note as int);
    plain::lemma_equal_scaled(ch.glide_semi, note);
    plain::lemma_zero_scaled(num(ZERO));
    math::lemma_part_way(fpu, ch.glide_semi, note, coeff, way);
    math::lemma_part_way(fpu, note, note, coeff, num(ZERO));
}

/// Silent voices are not heard in the sum, and a voice alone is heard through its amplifier.
pub proof fn lemma_voices_add_up<A: Fn(Op, Plain, Plain) -> Plain>(
    fpu: &Fpu<A>,
    filtered: Seq<Plain>,
    amp: Seq<Plain>,
    k: nat,
    v: int,
    r: Plain,
)
    requires
        fpu.rounds(),
        k <= filtered.len() && k <= amp.len(),
        forall|i: int| 0 <= i < k ==> (#[trigger] filtered[i]).is_finite(),
        forall|i: int| 0 <= i < k && i != v ==> (#[trigger] amp[i]).is_zero(),
        0 <= v < k ==> amp[v].is_finite(),
        r.is_number(),
        0 <= v < k ==> r.scaled() * plain::unit() == filtered[v].scaled() * amp[v].scaled(),
    ensures
        0 <= v < k ==> mono_sum(fpu, filtered, amp, k).equals(r),
        !(0 <= v < k) ==> mono_sum(fpu, filtered, amp, k).is_zero(),
    decreases k,
{
    plain::lemma_zero_scaled(num(ZERO));
    if k > 0 {
        let j = (k - 1) as nat;
        lemma_voices_add_up(fpu, filtered, amp, j, v, r);
        let s = mono_sum(fpu, filtered, amp, j);
        let m = fpu.mul(filtered[k - 1], amp[k - 1]);
        if v == k - 1 {
            lemma_at_level(fpu, filtered[v], amp[v], s, r);
        } else {
            fpu.lemma_none_of(filtered[k - 1], amp[k - 1]);
            plain::lemma_zero_scaled(m);
            if 0 <= v < k {
                plain::lemma_equal_scaled(s, r);
                fpu.lemma_add_side(s, m, r);
            } else {
                fpu.lemma_nothing_added(s, m);
            }
        }
    }
}

/// An idle voice has its amplifier shut.
pub proof fn lemma_idle_amplifier_is_shut<A: Fn(Op, Plain, Plain) -> Plain>(
    fpu: &Fpu<A>,
    p: Pass,
    v: int,
    ch: Channel,
)
    requires
        fpu.rounds(),
        !ch.active,
        p.trem[v].is_finite(),
    ensures
        amp_of(fpu, p, v, ch).is_zero(),
{
    reveal(amp_of);
    fpu.lemma_none_of(p.trem[v], num(ZERO));
}

} // verus!
