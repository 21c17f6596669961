//! The instrument: notes to layers, parameters to voices, voices to effects.
use crate::adsr::AdsrShape;
use crate::buffers::{self, copy_into, fill_silence};
use crate::choices::{AssignMode, CrossModType};
use crate::domain::{KeyMode, Layer, DEFAULT_SPLIT_POINT};
use crate::effects::{self, EffectSwitches, Effects};
use crate::fpu::{Fpu, Op};
use crate::halfband::{self, Oversampler};
use crate::lfo::LfoCore;
use crate::math::{note_to_hz, SineTable};
use crate::modulation::{self, BlockCtx};
use crate::nums::{EPSILON, F100, F12, F32, F40, F5, F60, F69, MINUS_ONE, ONE, ZERO};
use crate::params::{param_ref, GlobalParam, ParamDesc, ParamRef, PatchParam};
use crate::plain::{self, num, Plain};
use crate::render::{self, Rendering};
use crate::smoothing::{self, block_coeff, one_pole_coeff, ParamSmoother, Smoothed};
use crate::sync::{index_from_norm, synced_hz, DEFAULT_TEMPO_BPM};
use crate::tpt;
use crate::values::{ParamValues, PatchValues};
use crate::voice::{self, Lfo1Trigger, NoteOn, Playing, VoiceBank};
use crate::{CHANNELS_PER_LAYER, CONTROL_BLOCK, MAX_OVERSAMPLE};
use vstd::prelude::*;

verus! {

broadcast use crate::plain::group_by_rank;

/// Seed of the global LFO.
pub const LFO2_SEED: u64 = 0x7e5d;

/// Seeds of the layers' generators, which keep their random sequences apart.
pub const UPPER_SEED: u64 = 0x9e37_79b9;

pub const LOWER_SEED: u64 = 0x2545_f491;

pub open spec fn spec_param_source(layer: usize, key_mode: KeyMode) -> Layer {
    match key_mode {
        KeyMode::Whole => Layer::Upper,
        _ => if layer == 0 {
            Layer::Upper
        } else {
            Layer::Lower
        },
    }
}

/// Whose parameters a layer plays by: over the whole keyboard both play the upper patch, else
/// each its own.
#[verifier::when_used_as_spec(spec_param_source)]
pub fn param_source(layer: usize, key_mode: KeyMode) -> (r: Layer)
    requires
        layer < 2,
    ensures
        r == param_source(layer, key_mode),
{
    match key_mode {
        KeyMode::Whole => Layer::Upper,
        _ => if layer == 0 {
            Layer::Upper
        } else {
            Layer::Lower
        },
    }
}

pub open spec fn spec_lfo_rate_from<A: Fn(Op, Plain, Plain) -> Plain>(
    fpu: &Fpu<A>,
    desc: &ParamDesc,
    rate_value: Plain,
    sync_on: bool,
    tempo_bpm: Plain,
) -> Plain {
    if sync_on {
        let pos = desc.to_fader(fpu, rate_value);
        synced_hz(fpu, tempo_bpm, index_from_norm(fpu, pos))
    } else {
        rate_value
    }
}

/// The rate of an LFO in Hz: the knob's value, or with sync the note length at the knob's
/// position, in time with the tempo.
#[verifier::when_used_as_spec(spec_lfo_rate_from)]
pub fn lfo_rate_from<A: Fn(Op, Plain, Plain) -> Plain>(
    fpu: &Fpu<A>,
    desc: &ParamDesc,
    rate_value: Plain,
    sync_on: bool,
    tempo_bpm: Plain,
) -> (r: Plain)
    requires
        fpu.valid(),
    ensures
        r == lfo_rate_from(fpu, desc, rate_value, sync_on, tempo_bpm),
{
    if sync_on {
        let pos = desc.to_fader(fpu, rate_value);
        synced_hz(fpu, tempo_bpm, index_from_norm(fpu, pos))
    } else {
        rate_value
    }
}

pub open spec fn spec_lfo_rate<A: Fn(Op, Plain, Plain) -> Plain>(
    fpu: &Fpu<A>,
    p: &PatchValues,
    rate: PatchParam,
    sync_flag: PatchParam,
    tempo_bpm: Plain,
) -> Plain {
    lfo_rate_from(fpu, &rate.desc(), p.get(rate), p.bool(sync_flag), tempo_bpm)
}

/// [`lfo_rate_from`] for the parameters of a patch.
#[verifier::when_used_as_spec(spec_lfo_rate)]
pub fn lfo_rate<A: Fn(Op, Plain, Plain) -> Plain>(
    fpu: &Fpu<A>,
    p: &PatchValues,
    rate: PatchParam,
    sync_flag: PatchParam,
    tempo_bpm: Plain,
) -> (r: Plain)
    requires
        fpu.valid(),
    ensures
        r == lfo_rate(fpu, p, rate, sync_flag, tempo_bpm),
{
    lfo_rate_from(fpu, &rate.desc(), p.get(rate), p.bool(sync_flag), tempo_bpm)
}

/// With sync off, the tempo is not heard.
pub proof fn lemma_free_rate_ignores_tempo<A: Fn(Op, Plain, Plain) -> Plain>(
    fpu: &Fpu<A>,
    desc: &ParamDesc,
    rate_value: Plain,
    tempo_bpm: Plain,
)
    ensures
        lfo_rate_from(fpu, desc, rate_value, false, tempo_bpm) == rate_value,
{
}

pub open spec fn spec_a4_hz<A: Fn(Op, Plain, Plain) -> Plain>(fpu: &Fpu<A>, ) -> Plain {
    note_to_hz(fpu, num(F69))
}

/// The reference pitch.
#[verifier::when_used_as_spec(spec_a4_hz)]
pub fn a4_hz<A: Fn(Op, Plain, Plain) -> Plain>(fpu: &Fpu<A>, ) -> (r: Plain)
    requires
        fpu.valid(),
    ensures
        r == a4_hz(fpu),
{
    note_to_hz(fpu, num(F69))
}

/// What shapes both envelopes of a patch. Envelopes are set again only when it changes.
#[derive(Clone, Copy, Debug)]
pub struct EnvSnapshot {
    pub env1: (Plain, Plain, Plain, Plain),
    pub env1_shape: AdsrShape,
    pub env2: (Plain, Plain, Plain, Plain),
    pub env2_shape: AdsrShape,
}

pub open spec fn spec_same_times(
    a: (Plain, Plain, Plain, Plain),
    b: (Plain, Plain, Plain, Plain),
) -> bool {
    a.0.equals(b.0) && a.1.equals(b.1) && a.2.equals(b.2) && a.3.equals(b.3)
}

#[verifier::when_used_as_spec(spec_same_times)]
fn same_times(a: (Plain, Plain, Plain, Plain), b: (Plain, Plain, Plain, Plain)) -> (r: bool)
    ensures
        r == same_times(a, b),
{
    a.0.equals(b.0) && a.1.equals(b.1) && a.2.equals(b.2) && a.3.equals(b.3)
}

impl EnvSnapshot {
    pub open spec fn spec_of(p: &PatchValues) -> Self {
        EnvSnapshot {
            env1: (
                p.get(PatchParam::Env1Attack),
                p.get(PatchParam::Env1Decay),
                p.get(PatchParam::Env1Sustain),
                p.get(PatchParam::Env1Release),
            ),
            env1_shape: p.env1_shape(),
            env2: (
                p.get(PatchParam::Env2Attack),
                p.get(PatchParam::Env2Decay),
                p.get(PatchParam::Env2Sustain),
                p.get(PatchParam::Env2Release),
            ),
            env2_shape: p.env2_shape(),
        }
    }

    /// What a patch says of its envelopes.
    #[verifier::when_used_as_spec(spec_of)]
    pub fn of(p: &PatchValues) -> (r: Self)
        ensures
            r == EnvSnapshot::of(p),
    {
        EnvSnapshot {
            env1: (
                p.get(PatchParam::Env1Attack),
                p.get(PatchParam::Env1Decay),
                p.get(PatchParam::Env1Sustain),
                p.get(PatchParam::Env1Release),
            ),
            env1_shape: p.env1_shape(),
            env2: (
                p.get(PatchParam::Env2Attack),
                p.get(PatchParam::Env2Decay),
                p.get(PatchParam::Env2Sustain),
                p.get(PatchParam::Env2Release),
            ),
            env2_shape: p.env2_shape(),
        }
    }

    pub open spec fn spec_same_as(self, o: Self) -> bool {
        &&& spec_same_times(self.env1, o.env1)
        &&& self.env1_shape == o.env1_shape
        &&& spec_same_times(self.env2, o.env2)
        &&& self.env2_shape == o.env2_shape
    }

    /// Whether two snapshots read the same. One that holds a NaN never does.
    #[verifier::when_used_as_spec(spec_same_as)]
    pub fn same_as(self, o: Self) -> (r: bool)
        ensures
            r == self.same_as(o),
    {
        same_times(self.env1, o.env1) && self.env1_shape == o.env1_shape && same_times(
            self.env2,
            o.env2,
        ) && self.env2_shape == o.env2_shape
    }
}

/// What the master limiter has to do with a span of samples.
#[derive(Clone, Copy, Debug, PartialEq, Eq, Structural)]
pub enum LimiterStep {
    /// Leave the samples alone.
    Bypass,
    /// Run on from the last span.
    Run,
    /// Forget the past, then run.
    ResetAndRun,
}

/// Sample rates that the instrument can run at: at every oversampling factor there is room
/// for the lowest cutoff, and the effects fit the memory.
pub open spec fn runs_at<A: Fn(Op, Plain, Plain) -> Plain>(
    fpu: &Fpu<A>,
    sample_rate: Plain,
) -> bool {
    &&& effects::effects_fit(fpu, sample_rate)
    &&& tpt::filterable(fpu, fpu.mul(sample_rate, Plain::from_index(1)))
    &&& tpt::filterable(fpu, fpu.mul(sample_rate, Plain::from_index(2)))
    &&& tpt::filterable(fpu, fpu.mul(sample_rate, Plain::from_index(4)))
    &&& tpt::filterable(fpu, fpu.mul(sample_rate, Plain::from_index(8)))
}

/// Whether the instrument can run at a sample rate.
pub fn can_run_at<A: Fn(Op, Plain, Plain) -> Plain>(fpu: &Fpu<A>, sample_rate: Plain) -> (r: bool)
    requires
        fpu.valid(),
    ensures
        r == runs_at(fpu, sample_rate),
{
    if !effects::can_fit(fpu, sample_rate) {
        return false;
    }
    tpt::can_filter(fpu, fpu.mul(sample_rate, Plain::from_index(1))) && tpt::can_filter(
        fpu,
        fpu.mul(sample_rate, Plain::from_index(2)),
    ) && tpt::can_filter(fpu, fpu.mul(sample_rate, Plain::from_index(4))) && tpt::can_filter(
        fpu,
        fpu.mul(sample_rate, Plain::from_index(8)),
    )
}

/// Where an oscillator is tuned, in semitones: octaves and semitones are whole, cents are not.
pub open spec fn tuning<A: Fn(Op, Plain, Plain) -> Plain>(
    fpu: &Fpu<A>,
    octave: Plain,
    coarse: Plain,
    cents: Plain,
) -> Plain {
    fpu.total(
        seq![fpu.mul(octave.round(), num(F12)), coarse.round(), fpu.div(cents, num(F100))],
    )
}

#[verifier::opaque]
pub open spec fn spec_build_ctx<A: Fn(Op, Plain, Plain) -> Plain>(
    fpu: &Fpu<A>,
    vals: &ParamValues,
    src: Layer,
    sample_rate: Plain,
    os: usize,
    bend_norm: Plain,
    wheel: Plain,
    lfo2_val: Plain,
    tempo_bpm: Plain,
) -> BlockCtx {
    let p = vals.layer(src);
    BlockCtx {
        os_sample_rate: fpu.mul(sample_rate, Plain::from_index(os)),
        os,
        osc1_wave: p.osc_wave(PatchParam::Osc1Wave),
        osc2_wave: p.osc_wave(PatchParam::Osc2Wave),
        osc1_level: p.get(PatchParam::Osc1Level),
        osc2_level: p.get(PatchParam::Osc2Level),
        sub_level: p.get(PatchParam::SubLevel),
        ring_mode: p.cross_mod_type() is Ring,
        noise_level: p.get(PatchParam::NoiseLevel),
        noise_color: p.noise_color(),
        osc1_pw: p.get(PatchParam::Osc1PulseWidth),
        osc2_pw: p.get(PatchParam::Osc2PulseWidth),
        osc1_semi: tuning(
            fpu,
            p.get(PatchParam::Osc1Octave),
            p.get(PatchParam::Osc1Coarse),
            p.get(PatchParam::Osc1Fine),
        ),
        osc2_semi: tuning(
            fpu,
            p.get(PatchParam::Osc2Octave),
            p.get(PatchParam::Osc2Coarse),
            p.get(PatchParam::Osc2Fine),
        ),
        cutoff: p.get(PatchParam::Cutoff),
        hpf_cutoff: p.get(PatchParam::HpfCutoff),
        resonance: fpu.add(
            p.get(PatchParam::Resonance),
            fpu.mul(wheel, p.get(PatchParam::ModWheelReso)),
        ).clamp(num(ZERO), num(ONE)),
        drive: p.get(PatchParam::Drive),
        filter_mode: p.filter_mode(),
        filter_slope: p.filter_slope(),
        base_semis: vals.global.get(GlobalParam::MasterTune),
        lfo1_shape: p.lfo_shape(),
        lfo1_rate_hz: lfo_rate(fpu, p, PatchParam::LfoRate, PatchParam::LfoSync, tempo_bpm),
        lfo1_delay_time: p.get(PatchParam::Lfo1DelayTime),
        lfo1_fade: p.get(PatchParam::Lfo1Fade),
        lfo2_val,
        sync: p.cross_mod_type() is Sync,
        pm_index: modulation::share(
            p.get(PatchParam::CrossModAmount),
            p.cross_mod_type() is Pm,
        ),
        cross_mod_type: p.cross_mod_type(),
        portamento_time: p.get(PatchParam::PortamentoTime),
        pitch_lfo_sel: p.lfo_sel(PatchParam::PitchLfoSrc),
        pitch_lfo_depth: p.get(PatchParam::PitchLfoDepth),
        pitch_lfo_mod_only: p.bool(PatchParam::PitchLfoModOnly),
        pitch_env_sel: p.env_sel(PatchParam::PitchEnvSrc),
        pitch_env_depth: p.get(PatchParam::PitchEnvDepth),
        pitch_env_mod_only: p.bool(PatchParam::PitchEnvModOnly),
        pitch_extra: fpu.mul(bend_norm, p.get(PatchParam::PitchWheelDepth)),
        pwm_lfo_sel: p.lfo_sel(PatchParam::PwmLfoSrc),
        pwm_lfo_depth: p.get(PatchParam::PwmLfoDepth),
        pwm_env_sel: p.env_sel(PatchParam::PwmEnvSrc),
        pwm_env_depth: p.get(PatchParam::PwmEnvDepth),
        pwm_extra: fpu.mul(wheel, p.get(PatchParam::ModWheelPwm)),
        cutoff_lfo1_depth: p.get(PatchParam::CutoffLfo1Depth),
        cutoff_lfo2_depth: p.get(PatchParam::CutoffLfo2Depth),
        cutoff_env_depth: p.get(PatchParam::CutoffEnvDepth),
        cutoff_vel_depth: p.get(PatchParam::VelCutoffDepth),
        cutoff_extra: fpu.mul(wheel, p.get(PatchParam::ModWheelCutoff)),
        filter_key_track: p.bool(PatchParam::FilterKeyTrack),
        sweep_extra: fpu.mul(wheel, p.get(PatchParam::ModWheelCrossModSweep)),
        amp_lfo_sel: p.lfo_sel(PatchParam::AmpLfoSrc),
        amp_lfo_depth: p.get(PatchParam::AmpLfoDepth),
        amp_env_bypass: p.bool(PatchParam::AmpEnvBypass),
    }
}

/// What the voices of a layer share for one control block: its patch, the wheels folded into
/// the routes, and the global LFO. Octave and coarse tuning are whole semitones.
#[verifier::when_used_as_spec(spec_build_ctx)]
pub fn build_ctx<A: Fn(Op, Plain, Plain) -> Plain>(
    fpu: &Fpu<A>,
    vals: &ParamValues,
    src: Layer,
    sample_rate: Plain,
    os: usize,
    bend_norm: Plain,
    wheel: Plain,
    lfo2_val: Plain,
    tempo_bpm: Plain,
) -> (r: BlockCtx)
    requires
        fpu.valid(),
    ensures
        r == build_ctx(fpu, vals, src, sample_rate, os, bend_norm, wheel, lfo2_val, tempo_bpm),
        r.os == os,
        r.os_sample_rate == fpu.mul(sample_rate, Plain::from_index(os)),
{
    reveal(spec_build_ctx);
    let p = vals.layer(src);
    let (sync, pm_index, ring_mode) = match p.cross_mod_type() {
        CrossModType::Off => (false, num(ZERO), false),
        CrossModType::Sync => (true, num(ZERO), false),
        CrossModType::Pm => (false, p.get(PatchParam::CrossModAmount), false),
        CrossModType::Ring => (false, num(ZERO), true),
    };
    let reso_wheel = fpu.mul(wheel, p.get(PatchParam::ModWheelReso));
    let resonance = fpu.add(p.get(PatchParam::Resonance), reso_wheel).clamp(num(ZERO), num(ONE));
    let octave1 = fpu.mul(p.get(PatchParam::Osc1Octave).round(), num(F12));
    let octave2 = fpu.mul(p.get(PatchParam::Osc2Octave).round(), num(F12));
    let fine1 = fpu.div(p.get(PatchParam::Osc1Fine), num(F100));
    let fine2 = fpu.div(p.get(PatchParam::Osc2Fine), num(F100));
    let osc1_semi = fpu.add(fpu.add(octave1, p.get(PatchParam::Osc1Coarse).round()), fine1);
    let osc2_semi = fpu.add(fpu.add(octave2, p.get(PatchParam::Osc2Coarse).round()), fine2);
    proof {
        fpu.lemma_total(seq![octave1, p.get(PatchParam::Osc1Coarse).round(), fine1]);
        fpu.lemma_total(seq![octave2, p.get(PatchParam::Osc2Coarse).round(), fine2]);
    }
    BlockCtx {
        os_sample_rate: fpu.mul(sample_rate, Plain::from_index(os)),
        os,
        osc1_wave: p.osc_wave(PatchParam::Osc1Wave),
        osc2_wave: p.osc_wave(PatchParam::Osc2Wave),
        osc1_level: p.get(PatchParam::Osc1Level),
        osc2_level: p.get(PatchParam::Osc2Level),
        sub_level: p.get(PatchParam::SubLevel),
        ring_mode,
        noise_level: p.get(PatchParam::NoiseLevel),
        noise_color: p.noise_color(),
        osc1_pw: p.get(PatchParam::Osc1PulseWidth),
        osc2_pw: p.get(PatchParam::Osc2PulseWidth),
        osc1_semi,
        osc2_semi,
        cutoff: p.get(PatchParam::Cutoff),
        hpf_cutoff: p.get(PatchParam::HpfCutoff),
        resonance,
        drive: p.get(PatchParam::Drive),
        filter_mode: p.filter_mode(),
        filter_slope: p.filter_slope(),
        base_semis: vals.global.get(GlobalParam::MasterTune),
        lfo1_shape: p.lfo_shape(),
        lfo1_rate_hz: lfo_rate(fpu, p, PatchParam::LfoRate, PatchParam::LfoSync, tempo_bpm),
        lfo1_delay_time: p.get(PatchParam::Lfo1DelayTime),
        lfo1_fade: p.get(PatchParam::Lfo1Fade),
        lfo2_val,
        sync,
        pm_index,
        cross_mod_type: p.cross_mod_type(),
        portamento_time: p.get(PatchParam::PortamentoTime),
        pitch_lfo_sel: p.lfo_sel(PatchParam::PitchLfoSrc),
        pitch_lfo_depth: p.get(PatchParam::PitchLfoDepth),
        pitch_lfo_mod_only: p.bool(PatchParam::PitchLfoModOnly),
        pitch_env_sel: p.env_sel(PatchParam::PitchEnvSrc),
        pitch_env_depth: p.get(PatchParam::PitchEnvDepth),
        pitch_env_mod_only: p.bool(PatchParam::PitchEnvModOnly),
        pitch_extra: fpu.mul(bend_norm, p.get(PatchParam::PitchWheelDepth)),
        pwm_lfo_sel: p.lfo_sel(PatchParam::PwmLfoSrc),
        pwm_lfo_depth: p.get(PatchParam::PwmLfoDepth),
        pwm_env_sel: p.env_sel(PatchParam::PwmEnvSrc),
        pwm_env_depth: p.get(PatchParam::PwmEnvDepth),
        pwm_extra: fpu.mul(wheel, p.get(PatchParam::ModWheelPwm)),
        cutoff_lfo1_depth: p.get(PatchParam::CutoffLfo1Depth),
        cutoff_lfo2_depth: p.get(PatchParam::CutoffLfo2Depth),
        cutoff_env_depth: p.get(PatchParam::CutoffEnvDepth),
        cutoff_vel_depth: p.get(PatchParam::VelCutoffDepth),
        cutoff_extra: fpu.mul(wheel, p.get(PatchParam::ModWheelCutoff)),
        filter_key_track: p.bool(PatchParam::FilterKeyTrack),
        sweep_extra: fpu.mul(wheel, p.get(PatchParam::ModWheelCrossModSweep)),
        amp_lfo_sel: p.lfo_sel(PatchParam::AmpLfoSrc),
        amp_lfo_depth: p.get(PatchParam::AmpLfoDepth),
        amp_env_bypass: p.bool(PatchParam::AmpEnvBypass),
    }
}

/// The interaction of the oscillators is one of the four, never two at once.
pub proof fn lemma_one_interaction<A: Fn(Op, Plain, Plain) -> Plain>(
    fpu: &Fpu<A>,
    vals: &ParamValues,
    src: Layer,
    sample_rate: Plain,
    os: usize,
    bend_norm: Plain,
    wheel: Plain,
    lfo2_val: Plain,
    tempo_bpm: Plain,
)
    ensures
        ({
            let c = build_ctx(
                fpu,
                vals,
                src,
                sample_rate,
                os,
                bend_norm,
                wheel,
                lfo2_val,
                tempo_bpm,
            );
            &&& !(c.sync && c.ring_mode)
            &&& c.sync || c.ring_mode ==> c.pm_index == num(ZERO)
            &&& c.cross_mod_type == CrossModType::Off ==> !c.sync && !c.ring_mode && c.pm_index
                == num(ZERO)
        }),
{
    reveal(spec_build_ctx);
}

/// Buffers for a control block.
pub struct Scratch {
    pub mono_os: Vec<Plain>,
    pub mono: Vec<Plain>,
    pub dry: Vec<Plain>,
    pub l: Vec<Plain>,
    pub r: Vec<Plain>,
}

/// The instrument: two layers of voices, and the effects they share.
pub struct Synth {
    pub sample_rate: Plain,
    pub params: ParamValues,
    pub smoother: ParamSmoother,
    pub upper: VoiceBank,
    pub lower: VoiceBank,
    /// The global LFO, common to both layers and all voices.
    pub lfo2: LfoCore,
    pub effects: Effects,
    pub oversampler: Oversampler,
    /// Pitch bend in `[-1, 1]`; each layer scales it by its own depth.
    pub bend_norm: Plain,
    /// Modulation wheel in `[0, 1]`, smoothed at the control rate.
    pub mod_wheel: Smoothed,
    pub key_mode: KeyMode,
    pub split_point: u8,
    pub tempo_bpm: Plain,
    pub alloc_counter: u64,
    /// The layer whose turn it is over the whole keyboard.
    pub rr_layer: usize,
    /// What each layer's envelopes were last set to.
    pub last_env: [Option<EnvSnapshot>; 2],
    /// The oversampling factor of the last span.
    pub last_os: usize,
    pub limiter_was_on: bool,
    pub table: SineTable,
    pub scratch: Scratch,
}

/// Smoothed values one block on toward their targets.
pub open spec fn glided<A: Fn(Op, Plain, Plain) -> Plain>(
    fpu: &Fpu<A>,
    s: ParamSmoother,
    targets: ParamValues,
    now: ParamValues,
) -> bool {
    &&& forall|layer: Layer, p: PatchParam| #[trigger] now.layer(layer).get(p)
        == smoothing::next_patch(
        fpu,
        p,
        s.current.layer(layer).get(p),
        targets.layer(layer).get(p),
        s.block_coeff,
    )
    &&& forall|g: GlobalParam| #[trigger] now.global.get(g) == g.desc().clamp(targets.global.get(g))
}

/// A smoothed value `k` samples on.
pub open spec fn ticked_times<A: Fn(Op, Plain, Plain) -> Plain>(
    fpu: &Fpu<A>,
    s: Smoothed,
    k: nat,
) -> Smoothed
    decreases k,
{
    if k == 0 {
        s
    } else {
        ticked_times(fpu, s, (k - 1) as nat).ticked(fpu)
    }
}

/// A block under the master volume, which glides from sample to sample.
pub open spec fn with_volume<A: Fn(Op, Plain, Plain) -> Plain>(
    fpu: &Fpu<A>,
    mono: Seq<Plain>,
    volume: Smoothed,
) -> Seq<Plain> {
    Seq::new(
        mono.len(),
        |i: int| fpu.mul(mono[i], ticked_times(fpu, volume, (i + 1) as nat).value),
    )
}

/// The samples that two channels have in common.
pub open spec fn common_len(l: Seq<Plain>, r: Seq<Plain>) -> int {
    if l.len() < r.len() {
        l.len() as int
    } else {
        r.len() as int
    }
}

/// A bank with both envelopes of every voice set.
pub open spec fn enveloped<A: Fn(Op, Plain, Plain) -> Plain>(
    fpu: &Fpu<A>,
    pre: VoiceBank,
    snap: EnvSnapshot,
    post: VoiceBank,
) -> bool {
    &&& forall|v: int|
        0 <= v < CHANNELS_PER_LAYER ==> #[trigger] post.channels@[v] == VoiceBank::with_envelopes(
            fpu,
            pre.channels@[v],
            snap.env1,
            snap.env1_shape,
            snap.env2,
            snap.env2_shape,
        )
    &&& post.osc1 == pre.osc1
    &&& post.osc2 == pre.osc2
    &&& post.same_kernels(&pre)
    &&& post.same_notes(&pre)
}

/// What both layers add up to over a block, one after the other, and their voices after it.
#[verifier::opaque]
pub open spec fn layered<A: Fn(Op, Plain, Plain) -> Plain>(
    fpu: &Fpu<A>,
    upper: VoiceBank,
    lower: VoiceBank,
    upper_ctx: BlockCtx,
    lower_ctx: BlockCtx,
    len: nat,
) -> (Rendering, Rendering) {
    let a = render::rendered(
        fpu,
        &upper_ctx,
        upper.level_comp,
        upper.unison,
        Rendering { lanes: upper.lanes(), out: buffers::zeros(len) },
    );
    let c = render::rendered(
        fpu,
        &lower_ctx,
        lower.level_comp,
        lower.unison,
        Rendering { lanes: lower.lanes(), out: a.out },
    );
    (a, c)
}

impl Synth {
    pub open spec fn bank(&self, layer: int) -> VoiceBank {
        if layer == 0 {
            self.upper
        } else {
            self.lower
        }
    }

    pub open spec fn wf<A: Fn(Op, Plain, Plain) -> Plain>(&self, fpu: &Fpu<A>) -> bool {
        &&& self.upper.wf()
        &&& self.lower.wf()
        &&& self.lfo2.wf()
        &&& self.effects.wf(fpu)
        &&& self.oversampler.wf()
        &&& self.table.tabulates(fpu)
        &&& self.rr_layer < 2
        &&& self.tempo_bpm.is_finite() && num(ZERO).less(self.tempo_bpm)
        &&& runs_at(fpu, self.sample_rate)
    }

    /// Everything that playing leaves alone: the parameters and the performance controls.
    pub open spec fn same_settings(&self, o: &Synth) -> bool {
        &&& self.sample_rate == o.sample_rate
        &&& self.params == o.params
        &&& self.bend_norm == o.bend_norm
        &&& self.key_mode == o.key_mode
        &&& self.split_point == o.split_point
        &&& self.tempo_bpm == o.tempo_bpm
    }

    /// Everything that notes leave alone.
    pub open spec fn same_sound(&self, o: &Synth) -> bool {
        &&& self.same_settings(o)
        &&& self.smoother == o.smoother
        &&& self.lfo2 == o.lfo2
        &&& self.effects == o.effects
        &&& self.oversampler == o.oversampler
        &&& self.mod_wheel == o.mod_wheel
        &&& self.last_env == o.last_env
        &&& self.last_os == o.last_os
        &&& self.limiter_was_on == o.limiter_was_on
    }

    /// The patch that a layer plays by.
    pub open spec fn patch(&self, layer: usize) -> PatchValues {
        *self.params.layer(param_source(layer, self.key_mode))
    }

    /// A note as a layer's patch plays it.
    pub open spec fn note_for(&self, layer: usize, note: u8, velocity: Plain, tick: u64) -> NoteOn {
        let p = self.patch(layer);
        NoteOn {
            note,
            velocity,
            alloc_tick: tick,
            unison_detune: p.get(PatchParam::UnisonDetune),
            lfo1: Lfo1Trigger {
                shape: p.lfo_shape(),
                free_run: p.bool(PatchParam::Lfo1FreeRun),
            },
        }
    }

    /// What a layer plays once a note starts on it.
    pub open spec fn noted_on<A: Fn(Op, Plain, Plain) -> Plain>(
        &self,
        fpu: &Fpu<A>,
        layer: usize,
        note: u8,
        velocity: Plain,
        tick: u64,
    ) -> Playing {
        let p = self.patch(layer);
        self.bank(layer as int).playing().noted_on(
            fpu,
            p.assign_mode(),
            self.note_for(layer, note, velocity, tick),
            p.legato(),
        )
    }

    /// What a layer plays once a note is released. A monophonic patch returns to the newest
    /// note still held.
    pub open spec fn noted_off<A: Fn(Op, Plain, Plain) -> Plain>(
        &self,
        fpu: &Fpu<A>,
        layer: usize,
        note: u8,
        tick: u64,
    ) -> Playing {
        let p = self.patch(layer);
        let mode = p.assign_mode();
        if mode == AssignMode::Solo || mode == AssignMode::Unison {
            self.bank(layer as int).playing().mono_noted_off(
                fpu,
                mode,
                self.note_for(layer, note, num(ZERO), tick),
                p.legato(),
            )
        } else {
            self.bank(layer as int).playing().noted_off(note)
        }
    }

    /// The layers that a note goes to, in order. Over the whole keyboard the layers take
    /// turns, but a monophonic patch stays on the upper one; layered, every note goes to both;
    /// split, the split point decides.
    pub open spec fn route(&self, note: u8) -> Seq<usize> {
        match self.key_mode {
            KeyMode::Whole => {
                let mode = self.params.upper.assign_mode();
                if mode == AssignMode::Solo || mode == AssignMode::Unison {
                    seq![0usize]
                } else {
                    seq![self.rr_layer]
                }
            },
            KeyMode::Dual => seq![0usize, 1usize],
            KeyMode::Split => if note < self.split_point {
                seq![1usize]
            } else {
                seq![0usize]
            },
        }
    }

    /// Whose turn it is after a note.
    pub open spec fn next_turn(&self) -> usize {
        let mode = self.params.upper.assign_mode();
        if self.key_mode == KeyMode::Whole && mode != AssignMode::Solo && mode
            != AssignMode::Unison {
            (1 - self.rr_layer) as usize
        } else {
            self.rr_layer
        }
    }

    /// A note started wherever it is routed, and nowhere else.
    pub open spec fn is_note_on<A: Fn(Op, Plain, Plain) -> Plain>(
        fpu: &Fpu<A>,
        pre: &Synth,
        post: &Synth,
        note: u8,
        velocity: Plain,
    ) -> bool {
        let route = pre.route(note);
        &&& post.same_sound(pre)
        &&& post.rr_layer == pre.next_turn()
        &&& post.alloc_counter == pre.alloc_counter + route.len()
        &&& forall|k: int|
            0 <= k < route.len() ==> {
                let l = #[trigger] route[k];
                &&& post.bank(l as int).playing() == pre.noted_on(
                    fpu,
                    l,
                    note,
                    velocity,
                    (pre.alloc_counter + k + 1) as u64,
                )
                &&& post.bank(l as int).same_kernels(&pre.bank(l as int))
            }
        &&& !route.contains(0) ==> post.upper == pre.upper
        &&& !route.contains(1) ==> post.lower == pre.lower
    }

    /// A note released on both layers.
    pub open spec fn is_note_off<A: Fn(Op, Plain, Plain) -> Plain>(
        fpu: &Fpu<A>,
        pre: &Synth,
        post: &Synth,
        note: u8,
    ) -> bool {
        let tick = (pre.alloc_counter + 1) as u64;
        &&& post.same_sound(pre)
        &&& post.rr_layer == pre.rr_layer
        &&& post.alloc_counter == tick
        &&& post.upper.playing() == pre.noted_off(fpu, 0, note, tick)
        &&& post.lower.playing() == pre.noted_off(fpu, 1, note, tick)
        &&& post.upper.same_kernels(&pre.upper)
        &&& post.lower.same_kernels(&pre.lower)
    }

    /// A parameter set by its id, clamped to its range, and nothing else.
    pub open spec fn is_param_set(pre: &Synth, post: &Synth, index: usize, value: Plain) -> bool {
        &&& *post == (Synth { params: post.params, ..*pre })
        &&& match param_ref(index) {
            Some(p) => forall|q: ParamRef| #[trigger] post.params.at(q) == (if q == p {
                p.desc().clamp(value)
            } else {
                pre.params.at(q)
            }),
            None => post.params == pre.params,
        }
    }

    /// A span rendered into `l` and `r`, and what the limiter has to do with it.
    pub open spec fn is_rendering<A: Fn(Op, Plain, Plain) -> Plain>(
        fpu: &Fpu<A>,
        pre: &Synth,
        post: &Synth,
        l: Seq<Plain>,
        r: Seq<Plain>,
        limiter: LimiterStep,
    ) -> bool {
        &&& limiter == pre.limiter_step(l.len() as int)
        &&& post.limiter_was_on == (if l.len() == 0 {
            pre.limiter_was_on
        } else {
            pre.params.global.bool(GlobalParam::LimiterOn)
        })
        &&& exists|trace: Seq<Synth>|
            {
                &&& #[trigger] Synth::is_span(fpu, trace, l, r)
                &&& trace.first().is_ready(fpu, pre)
                &&& *post == (Synth { limiter_was_on: post.limiter_was_on, ..trace.last() })
            }
    }

    /// An instrument just built for a rate: silent, no key held, bend and wheel at rest, and
    /// everything else as it comes by default.
    pub open spec fn is_new<A: Fn(Op, Plain, Plain) -> Plain>(
        fpu: &Fpu<A>,
        sample_rate: Plain,
        s: &Synth,
    ) -> bool {
        let control_rate = fpu.div(sample_rate, num(F32));
        let volume = s.params.global.get(GlobalParam::MasterVolume);
        &&& s.sample_rate == sample_rate
        &&& forall|p: ParamRef| #[trigger] s.params.at(p) == p.desc().default
        &&& s.params.wf()
        &&& s.smoother.current == s.params
        &&& s.smoother.block_coeff == block_coeff(fpu, sample_rate)
        &&& s.smoother.volume == (Smoothed {
            value: volume,
            target: volume,
            coeff: one_pole_coeff(fpu, num(F5), sample_rate),
        })
        &&& s.upper.is_fresh(fpu, sample_rate, UPPER_SEED)
        &&& s.lower.is_fresh(fpu, sample_rate, LOWER_SEED)
        &&& s.lfo2 == LfoCore::fresh(fpu, control_rate, LFO2_SEED)
        &&& s.effects@.is_fresh(fpu, sample_rate)
        &&& s.oversampler@.is_fresh()
        &&& s.bend_norm == num(ZERO)
        &&& s.mod_wheel == (Smoothed {
            value: num(ZERO),
            target: num(ZERO),
            coeff: one_pole_coeff(fpu, num(F40), control_rate),
        })
        &&& s.key_mode == KeyMode::Whole
        &&& s.split_point == DEFAULT_SPLIT_POINT
        &&& s.tempo_bpm == num(DEFAULT_TEMPO_BPM)
        &&& s.alloc_counter == 0
        &&& s.rr_layer == 0
        &&& s.last_env@ == seq![None::<EnvSnapshot>, None::<EnvSnapshot>]
        &&& s.last_os == 1
        &&& !s.limiter_was_on
    }

    /// An instrument for a sample rate.
    pub fn new<A: Fn(Op, Plain, Plain) -> Plain>(fpu: &Fpu<A>, sample_rate: Plain) -> (r: Self)
        requires
            fpu.valid(),
            runs_at(fpu, sample_rate),
        ensures
            r.wf(fpu),
            Synth::is_new(fpu, sample_rate, &r),
    {
        let control_rate = fpu.div(sample_rate, num(F32));
        let params = ParamValues::default();
        Synth {
            sample_rate,
            smoother: ParamSmoother::new(fpu, sample_rate, &params),
            params,
            upper: VoiceBank::new(fpu, sample_rate, UPPER_SEED),
            lower: VoiceBank::new(fpu, sample_rate, LOWER_SEED),
            lfo2: LfoCore::new(fpu, control_rate, LFO2_SEED),
            effects: Effects::new(fpu, sample_rate),
            oversampler: Oversampler::new(),
            bend_norm: num(ZERO),
            mod_wheel: Smoothed::new(fpu, num(ZERO), num(F40), control_rate),
            key_mode: KeyMode::Whole,
            split_point: DEFAULT_SPLIT_POINT,
            tempo_bpm: num(DEFAULT_TEMPO_BPM),
            alloc_counter: 0,
            rr_layer: 0,
            last_env: [None, None],
            last_os: 1,
            limiter_was_on: false,
            table: SineTable::new(fpu),
            scratch: Scratch {
                mono_os: Vec::with_capacity(CONTROL_BLOCK * MAX_OVERSAMPLE),
                mono: Vec::with_capacity(CONTROL_BLOCK),
                dry: Vec::with_capacity(CONTROL_BLOCK),
                l: Vec::with_capacity(CONTROL_BLOCK),
                r: Vec::with_capacity(CONTROL_BLOCK),
            },
        }
    }

    /// Rebuild everything for a sample rate. A rate within rounding of the present one
    /// changes nothing.
    pub fn set_sample_rate<A: Fn(Op, Plain, Plain) -> Plain>(
        &mut self,
        fpu: &Fpu<A>,
        sample_rate: Plain,
    )
        requires
            fpu.valid(),
            old(self).wf(fpu),
            runs_at(fpu, sample_rate),
        ensures
            final(self).wf(fpu),
            final(self).params == old(self).params,
            final(self).key_mode == old(self).key_mode,
            final(self).split_point == old(self).split_point,
            final(self).tempo_bpm == old(self).tempo_bpm,
            final(self).bend_norm == old(self).bend_norm,
            final(self).alloc_counter == old(self).alloc_counter,
            final(self).rr_layer == old(self).rr_layer,
            final(self).last_os == old(self).last_os,
            ({
                let same = fpu.sub(sample_rate, old(self).sample_rate).abs().less(num(EPSILON));
                let control_rate = fpu.div(sample_rate, num(F32));
                &&& same ==> *final(self) == *old(self)
                &&& !same ==> {
                    &&& final(self).sample_rate == sample_rate
                    &&& final(self).upper.is_rebuilt(fpu, sample_rate, &old(self).upper)
                    &&& final(self).lower.is_rebuilt(fpu, sample_rate, &old(self).lower)
                    &&& final(self).lfo2 == LfoCore::fresh(fpu, control_rate, LFO2_SEED)
                    &&& final(self).effects@.is_fresh(fpu, sample_rate)
                    &&& final(self).mod_wheel == (Smoothed {
                        coeff: one_pole_coeff(fpu, num(F40), control_rate),
                        ..old(self).mod_wheel
                    })
                    &&& final(self).smoother.current == old(self).params
                    &&& final(self).smoother.block_coeff == block_coeff(fpu, sample_rate)
                    &&& final(self).smoother.volume == (Smoothed {
                        value: old(self).params.global.get(GlobalParam::MasterVolume),
                        target: old(self).params.global.get(GlobalParam::MasterVolume),
                        coeff: one_pole_coeff(fpu, num(F5), sample_rate),
                    })
                    &&& final(self).oversampler@ == old(self).oversampler@.silenced()
                    &&& final(self).last_env@ == seq![None::<EnvSnapshot>, None::<EnvSnapshot>]
                    &&& !final(self).limiter_was_on
                }
            }),
    {
        if fpu.sub(sample_rate, self.sample_rate).abs().less(num(EPSILON)) {
            return;
        }
        self.sample_rate = sample_rate;
        let control_rate = fpu.div(sample_rate, num(F32));
        self.upper.set_sample_rate(fpu, sample_rate);
        self.lower.set_sample_rate(fpu, sample_rate);
        self.lfo2 = LfoCore::new(fpu, control_rate, LFO2_SEED);
        self.effects = Effects::new(fpu, sample_rate);
        self.limiter_was_on = false;
        self.oversampler.reset();
        self.mod_wheel.set_time(fpu, num(F40), control_rate);
        self.smoother.set_sample_rate(fpu, sample_rate);
        self.smoother.snap_all(&self.params);
        self.last_env = [None, None];
    }

    pub fn params(&self) -> (r: &ParamValues)
        ensures
            *r == self.params,
    {
        &self.params
    }

    pub fn params_mut(&mut self) -> (r: &mut ParamValues)
        ensures
            *r == old(self).params,
            *final(self) == (Synth { params: *final(r), ..*old(self) }),
    {
        &mut self.params
    }

    /// Set a parameter by its id, clamped to its range. An id that stands for nothing is
    /// ignored.
    pub fn set_param(&mut self, index: usize, value: Plain)
        ensures
            Synth::is_param_set(old(self), final(self), index, value),
            old(self).params.wf() ==> final(self).params.wf(),
    {
        self.params.set_by_clap_id(index, value);
    }

    /// Set the pitch bend, clamped to `[-1, 1]`.
    pub fn set_pitch_bend(&mut self, normalized: Plain)
        ensures
            *final(self) == (Synth {
                bend_norm: normalized.clamp(num(MINUS_ONE), num(ONE)),
                ..*old(self)
            }),
    {
        self.bend_norm = normalized.clamp(num(MINUS_ONE), num(ONE));
    }

    /// Set the modulation wheel, clamped to `[0, 1]`.
    pub fn set_mod_wheel(&mut self, normalized: Plain)
        ensures
            *final(self) == (Synth {
                mod_wheel: Smoothed {
                    target: normalized.clamp(num(ZERO), num(ONE)),
                    ..old(self).mod_wheel
                },
                ..*old(self)
            }),
    {
        self.mod_wheel.set_target(normalized.clamp(num(ZERO), num(ONE)));
    }

    pub fn set_key_mode(&mut self, mode: KeyMode)
        ensures
            *final(self) == (Synth { key_mode: mode, ..*old(self) }),
    {
        self.key_mode = mode;
    }

    pub fn key_mode(&self) -> (r: KeyMode)
        ensures
            r == self.key_mode,
    {
        self.key_mode
    }

    /// Set the split point, a MIDI note.
    pub fn set_split_point(&mut self, note: u8)
        ensures
            *final(self) == (Synth {
                split_point: if note < 127 {
                    note
                } else {
                    127
                },
                ..*old(self)
            }),
    {
        self.split_point = if note < 127 {
            note
        } else {
            127
        };
    }

    /// Set the tempo. One that is not a positive number falls back to the default, so that
    /// the tempo is always one to divide by.
    pub fn set_tempo(&mut self, bpm: Plain)
        ensures
            *final(self) == (Synth {
                tempo_bpm: if bpm.is_finite() && num(ZERO).less(bpm) {
                    bpm
                } else {
                    num(DEFAULT_TEMPO_BPM)
                },
                ..*old(self)
            }),
            final(self).tempo_bpm.is_finite(),
            num(ZERO).less(final(self).tempo_bpm),
    {
        self.tempo_bpm = if bpm.is_finite() && num(ZERO).less(bpm) {
            bpm
        } else {
            num(DEFAULT_TEMPO_BPM)
        };
    }

    /// Start a note where the key mode sends it.
    pub fn note_on<A: Fn(Op, Plain, Plain) -> Plain>(
        &mut self,
        fpu: &Fpu<A>,
        note: u8,
        velocity: Plain,
    )
        requires
            fpu.valid(),
            old(self).wf(fpu),
            old(self).alloc_counter <= u64::MAX - 2,
        ensures
            final(self).wf(fpu),
            Synth::is_note_on(fpu, old(self), final(self), note, velocity),
    {
        let ghost route = self.route(note);
        match self.key_mode {
            KeyMode::Whole => {
                let mode = self.params.upper.assign_mode();
                if mode == AssignMode::Solo || mode == AssignMode::Unison {
                    self.note_on_layer(fpu, 0, note, velocity);
                    assert(route[0] == 0);
                } else {
                    let layer: usize = self.rr_layer;
                    self.rr_layer = 1 - layer;
                    self.note_on_layer(fpu, layer, note, velocity);
                    assert(route[0] == layer);
                }
            },
            KeyMode::Dual => {
                self.note_on_layer(fpu, 0, note, velocity);
                self.note_on_layer(fpu, 1, note, velocity);
                assert(route[0] == 0 && route[1] == 1);
            },
            KeyMode::Split => {
                if note < self.split_point {
                    self.note_on_layer(fpu, 1, note, velocity);
                    assert(route[0] == 1);
                } else {
                    self.note_on_layer(fpu, 0, note, velocity);
                    assert(route[0] == 0);
                }
            },
        }
    }

    /// Start a note on a layer, by the patch that the layer plays by.
    pub fn note_on_layer<A: Fn(Op, Plain, Plain) -> Plain>(
        &mut self,
        fpu: &Fpu<A>,
        layer: usize,
        note: u8,
        velocity: Plain,
    )
        requires
            fpu.valid(),
            old(self).wf(fpu),
            layer < 2,
            old(self).alloc_counter < u64::MAX,
        ensures
            final(self).wf(fpu),
            final(self).same_sound(old(self)),
            final(self).rr_layer == old(self).rr_layer,
            final(self).alloc_counter == old(self).alloc_counter + 1,
            final(self).bank(layer as int).playing() == old(self).noted_on(
                fpu,
                layer,
                note,
                velocity,
                (old(self).alloc_counter + 1) as u64,
            ),
            final(self).bank(layer as int).same_kernels(&old(self).bank(layer as int)),
            final(self).bank(1 - layer) == old(self).bank(1 - layer),
    {
        self.alloc_counter = self.alloc_counter + 1;
        let p = self.params.layer(param_source(layer, self.key_mode));
        let mode = p.assign_mode();
        let legato: bool = p.legato();
        let n = NoteOn {
            note,
            velocity,
            alloc_tick: self.alloc_counter,
            unison_detune: p.get(PatchParam::UnisonDetune),
            lfo1: Lfo1Trigger {
                shape: p.lfo_shape(),
                free_run: p.bool(PatchParam::Lfo1FreeRun),
            },
        };
        if layer == 0 {
            self.upper.note_on(fpu, mode, n, legato);
        } else {
            self.lower.note_on(fpu, mode, n, legato);
        }
    }

    /// Release a note on both layers.
    pub fn note_off<A: Fn(Op, Plain, Plain) -> Plain>(&mut self, fpu: &Fpu<A>, note: u8)
        requires
            fpu.valid(),
            old(self).wf(fpu),
            old(self).alloc_counter < u64::MAX,
        ensures
            final(self).wf(fpu),
            Synth::is_note_off(fpu, old(self), final(self), note),
    {
        self.alloc_counter = self.alloc_counter + 1;
        self.release_on_layer(fpu, 0, note);
        self.release_on_layer(fpu, 1, note);
    }

    fn release_on_layer<A: Fn(Op, Plain, Plain) -> Plain>(
        &mut self,
        fpu: &Fpu<A>,
        layer: usize,
        note: u8,
    )
        requires
            fpu.valid(),
            old(self).wf(fpu),
            layer < 2,
        ensures
            final(self).wf(fpu),
            final(self).same_sound(old(self)),
            final(self).rr_layer == old(self).rr_layer,
            final(self).alloc_counter == old(self).alloc_counter,
            final(self).bank(layer as int).playing() == old(self).noted_off(
                fpu,
                layer,
                note,
                old(self).alloc_counter,
            ),
            final(self).bank(layer as int).same_kernels(&old(self).bank(layer as int)),
            final(self).bank(1 - layer) == old(self).bank(1 - layer),
    {
        let p = self.params.layer(param_source(layer, self.key_mode));
        let mode = p.assign_mode();
        let legato: bool = p.legato();
        let n = NoteOn {
            note,
            velocity: num(ZERO),
            alloc_tick: self.alloc_counter,
            unison_detune: p.get(PatchParam::UnisonDetune),
            lfo1: Lfo1Trigger {
                shape: p.lfo_shape(),
                free_run: p.bool(PatchParam::Lfo1FreeRun),
            },
        };
        let mono: bool = mode == AssignMode::Solo || mode == AssignMode::Unison;
        if layer == 0 {
            if mono {
                self.upper.mono_note_off(fpu, mode, n, legato);
            } else {
                self.upper.note_off(note);
            }
        } else {
            if mono {
                self.lower.mono_note_off(fpu, mode, n, legato);
            } else {
                self.lower.note_off(note);
            }
        }
    }

    /// Let every voice of both layers go.
    pub fn all_notes_off(&mut self)
        ensures
            final(self).same_sound(old(self)),
            final(self).rr_layer == old(self).rr_layer,
            final(self).alloc_counter == old(self).alloc_counter,
            forall|v: int|
                0 <= v < CHANNELS_PER_LAYER ==> #[trigger] final(self).upper.channels@[v] == old(
                    self,
                ).upper.channels@[v].released(),
            forall|v: int|
                0 <= v < CHANNELS_PER_LAYER ==> #[trigger] final(self).lower.channels@[v] == old(
                    self,
                ).lower.channels@[v].released(),
            final(self).upper.same_kernels(&old(self).upper),
            final(self).lower.same_kernels(&old(self).lower),
            final(self).upper.playing() == (Playing {
                channels: final(self).upper.channels@,
                ..old(self).upper.playing()
            }),
            final(self).lower.playing() == (Playing {
                channels: final(self).lower.channels@,
                ..old(self).lower.playing()
            }),
            old(self).upper.wf() ==> final(self).upper.wf(),
            old(self).lower.wf() ==> final(self).lower.wf(),
    {
        self.upper.all_notes_off();
        self.lower.all_notes_off();
    }

    /// How many voices sound on both layers.
    pub fn active_count(&self) -> (r: usize)
        ensures
            r == voice::active_among(
                self.upper.channels@,
            ) + voice::active_among(self.lower.channels@),
            r <= 2 * CHANNELS_PER_LAYER,
    {
        self.upper.active_count() + self.lower.active_count()
    }

    /// The instrument silenced: its voices, chorus and delay. The reverb keeps its tail.
    pub open spec fn is_reset(pre: &Synth, post: &Synth) -> bool {
        &&& post.same_settings(pre)
        &&& post.upper.is_reset(&pre.upper)
        &&& post.lower.is_reset(&pre.lower)
        &&& post.lfo2 == (LfoCore { phase: num(ZERO), ..pre.lfo2 })
        &&& post.effects@ == pre.effects@.cleared()
        &&& post.oversampler@ == pre.oversampler@.silenced()
        &&& post.smoother.current == pre.params
        &&& post.smoother.block_coeff == pre.smoother.block_coeff
        &&& post.smoother.volume == (Smoothed {
            value: pre.params.global.get(GlobalParam::MasterVolume),
            target: pre.params.global.get(GlobalParam::MasterVolume),
            ..pre.smoother.volume
        })
        &&& post.mod_wheel == pre.mod_wheel
        &&& post.alloc_counter == pre.alloc_counter
        &&& post.rr_layer == 0
        &&& post.last_env == pre.last_env
        &&& post.last_os == pre.last_os
        &&& !post.limiter_was_on
    }

    /// Silence the voices, the chorus and the delay. Smoothed values jump to their targets,
    /// and the upper layer's turn comes next.
    pub fn reset<A: Fn(Op, Plain, Plain) -> Plain>(&mut self, fpu: &Fpu<A>)
        requires
            old(self).wf(fpu),
        ensures
            final(self).wf(fpu),
            Synth::is_reset(old(self), final(self)),
    {
        self.upper.reset_all();
        self.lower.reset_all();
        self.lfo2.reset();
        self.effects.clear(fpu);
        self.limiter_was_on = false;
        self.oversampler.reset();
        self.smoother.snap_all(&self.params);
        self.rr_layer = 0;
    }

    /// Whether a layer's envelopes are set to what its patch says.
    pub open spec fn envelopes_current(&self, layer: usize) -> bool {
        self.last_env@[layer as int] matches Some(last) && last.same_as(
            EnvSnapshot::of(&self.patch(layer)),
        )
    }

    /// The instrument ready for a span: envelopes set where the patch has changed them, and
    /// the decimator silenced where the oversampling factor has changed.
    pub open spec fn is_ready<A: Fn(Op, Plain, Plain) -> Plain>(
        &self,
        fpu: &Fpu<A>,
        pre: &Synth,
    ) -> bool {
        let os = pre.params.global.oversample_factor();
        &&& self.same_settings(pre)
        &&& self.smoother == pre.smoother
        &&& self.lfo2 == pre.lfo2
        &&& self.effects == pre.effects
        &&& self.mod_wheel == pre.mod_wheel
        &&& self.alloc_counter == pre.alloc_counter
        &&& self.rr_layer == pre.rr_layer
        &&& forall|layer: usize|
            layer < 2 ==> if #[trigger] pre.envelopes_current(layer) {
                &&& self.bank(layer as int) == pre.bank(layer as int)
                &&& self.last_env@[layer as int] == pre.last_env@[layer as int]
            } else {
                let snap = EnvSnapshot::of(&pre.patch(layer));
                &&& enveloped(fpu, pre.bank(layer as int), snap, self.bank(layer as int))
                &&& self.last_env@[layer as int] == Some(snap)
            }
        &&& self.last_os == os
        &&& if os == pre.last_os {
            self.oversampler@ == pre.oversampler@
        } else {
            self.oversampler@ == pre.oversampler@.silenced()
        }
    }

    /// One control block: `post` is the instrument after it, `l` and `r` what it puts out.
    ///
    /// The smoothed values and the wheel glide a step, the global LFO is read once, both layers
    /// are rendered and decimated, the volume is applied and the effects follow.
    #[verifier::opaque]
    pub open spec fn is_block<A: Fn(Op, Plain, Plain) -> Plain>(
        fpu: &Fpu<A>,
        pre: &Synth,
        post: &Synth,
        l: Seq<Plain>,
        r: Seq<Plain>,
    ) -> bool {
        let n = l.len();
        let os = pre.last_os;
        let vals = post.smoother.current;
        let wheel = pre.mod_wheel.ticked(fpu);
        let lfo2 = pre.lfo2.advanced(fpu);
        let lfo2_val = lfo2.reading(fpu, vals.global.lfo2_shape());
        let lfo2_rate = lfo_rate_from(
            fpu,
            &GlobalParam::Lfo2Rate.desc(),
            vals.global.get(GlobalParam::Lfo2Rate),
            vals.global.bool(GlobalParam::Lfo2Sync),
            pre.tempo_bpm,
        );
        let (upper, lower) = layered(
            fpu,
            pre.upper,
            pre.lower,
            pre.ctx_for(fpu, &vals, 0, wheel.value, lfo2_val),
            pre.ctx_for(fpu, &vals, 1, wheel.value, lfo2_val),
            (n * os) as nat,
        );
        let (stages, mono) = halfband::decimated(
            fpu,
            pre.oversampler@,
            lower.out,
            os as int,
            n,
        );
        let volume = Smoothed {
            target: pre.params.global.get(GlobalParam::MasterVolume),
            ..pre.smoother.volume
        };
        let updated = pre.effects@.updated(
            fpu,
            vals.global,
            pre.params.global.reverb_type(),
            pre.tempo_bpm,
        );
        let on = pre.switches(&vals);
        &&& l.len() == r.len()
        &&& glided(fpu, pre.smoother, pre.params, vals)
        &&& post.smoother.block_coeff == pre.smoother.block_coeff
        &&& post.smoother.volume == ticked_times(fpu, volume, n)
        &&& post.mod_wheel == wheel
        &&& post.lfo2 == lfo2.with_rate(fpu, lfo2_rate)
        &&& post.upper.lanes() == upper.lanes
        &&& post.upper.same_notes(&pre.upper)
        &&& post.lower.lanes() == lower.lanes
        &&& post.lower.same_notes(&pre.lower)
        &&& post.oversampler@ == stages
        &&& (post.effects@, l, r) == updated.processed(fpu, on, with_volume(fpu, mono, volume))
        &&& post.same_settings(pre)
        &&& post.alloc_counter == pre.alloc_counter
        &&& post.rr_layer == pre.rr_layer
        &&& post.last_env == pre.last_env
        &&& post.last_os == pre.last_os
        &&& post.limiter_was_on == pre.limiter_was_on
    }

    /// What a layer's voices share for a block.
    pub open spec fn ctx_for<A: Fn(Op, Plain, Plain) -> Plain>(
        &self,
        fpu: &Fpu<A>,
        vals: &ParamValues,
        layer: usize,
        wheel: Plain,
        lfo2_val: Plain,
    ) -> BlockCtx {
        build_ctx(
            fpu,
            vals,
            param_source(layer, self.key_mode),
            self.sample_rate,
            self.last_os,
            self.bend_norm,
            wheel,
            lfo2_val,
            self.tempo_bpm,
        )
    }

    /// Which effects are on.
    pub open spec fn switches(&self, vals: &ParamValues) -> EffectSwitches {
        EffectSwitches {
            chorus: self.params.global.bool(GlobalParam::ChorusOn),
            delay: self.params.global.bool(GlobalParam::DelayOn),
            reverb: self.params.global.bool(GlobalParam::ReverbOn),
            reverb_mix: vals.global.get(GlobalParam::ReverbMix),
        }
    }

    /// Control block `k` of a span.
    pub open spec fn block_at<A: Fn(Op, Plain, Plain) -> Plain>(
        fpu: &Fpu<A>,
        trace: Seq<Synth>,
        l: Seq<Plain>,
        r: Seq<Plain>,
        k: int,
    ) -> bool {
        let from = k * CONTROL_BLOCK;
        let to = if from + CONTROL_BLOCK < l.len() {
            from + CONTROL_BLOCK
        } else {
            l.len() as int
        };
        Synth::is_block(
            fpu,
            &trace[k],
            &trace[k + 1],
            l.subrange(from, to),
            r.subrange(from, to),
        )
    }

    /// A span of samples, control block by control block. `trace` is the instrument before
    /// the first block and after each.
    pub open spec fn is_span<A: Fn(Op, Plain, Plain) -> Plain>(
        fpu: &Fpu<A>,
        trace: Seq<Synth>,
        l: Seq<Plain>,
        r: Seq<Plain>,
    ) -> bool {
        &&& l.len() == r.len()
        &&& trace.len() == (l.len() + CONTROL_BLOCK - 1) / CONTROL_BLOCK as int + 1
        &&& forall|k: int|
            0 <= k < trace.len() - 1 ==> #[trigger] Synth::block_at(fpu, trace, l, r, k)
    }

    /// What the limiter has to do with a span of `n` samples.
    pub open spec fn limiter_step(&self, n: int) -> LimiterStep {
        if n == 0 || !self.params.global.bool(GlobalParam::LimiterOn) {
            LimiterStep::Bypass
        } else if self.limiter_was_on {
            LimiterStep::Run
        } else {
            LimiterStep::ResetAndRun
        }
    }

    /// Set a layer's envelopes where its patch has changed them.
    fn sync_envelopes<A: Fn(Op, Plain, Plain) -> Plain>(&mut self, fpu: &Fpu<A>, layer: usize)
        requires
            fpu.valid(),
            old(self).wf(fpu),
            layer < 2,
        ensures
            final(self).wf(fpu),
            final(self).same_settings(old(self)),
            final(self).smoother == old(self).smoother,
            final(self).lfo2 == old(self).lfo2,
            final(self).effects == old(self).effects,
            final(self).mod_wheel == old(self).mod_wheel,
            final(self).alloc_counter == old(self).alloc_counter,
            final(self).rr_layer == old(self).rr_layer,
            final(self).oversampler == old(self).oversampler,
            final(self).last_os == old(self).last_os,
            final(self).limiter_was_on == old(self).limiter_was_on,
            final(self).bank(1 - layer) == old(self).bank(1 - layer),
            final(self).last_env@[1 - layer] == old(self).last_env@[1 - layer],
            if old(self).envelopes_current(layer) {
                &&& final(self).bank(layer as int) == old(self).bank(layer as int)
                &&& final(self).last_env@[layer as int] == old(self).last_env@[layer as int]
            } else {
                let snap = EnvSnapshot::of(&old(self).patch(layer));
                &&& enveloped(
                    fpu,
                    old(self).bank(layer as int),
                    snap,
                    final(self).bank(layer as int),
                )
                &&& final(self).last_env@[layer as int] == Some(snap)
            },
    {
        let p = self.params.layer(param_source(layer, self.key_mode));
        let snap = EnvSnapshot::of(p);
        if let Some(last) = self.last_env[layer] {
            if last.same_as(snap) {
                return;
            }
        }
        if layer == 0 {
            self.upper.set_envelopes(
                fpu,
                snap.env1,
                snap.env1_shape,
                snap.env2,
                snap.env2_shape,
            );
        } else {
            self.lower.set_envelopes(
                fpu,
                snap.env1,
                snap.env1_shape,
                snap.env2,
                snap.env2_shape,
            );
        }
        self.last_env[layer] = Some(snap);
    }

    /// Make ready for a span.
    fn make_ready<A: Fn(Op, Plain, Plain) -> Plain>(&mut self, fpu: &Fpu<A>)
        requires
            fpu.valid(),
            old(self).wf(fpu),
        ensures
            final(self).wf(fpu),
            final(self).is_ready(fpu, old(self)),
            final(self).limiter_was_on == old(self).limiter_was_on,
    {
        self.sync_envelopes(fpu, 0);
        let ghost mid = *self;
        self.sync_envelopes(fpu, 1);
        let os: usize = self.params.global.oversample_factor();
        if os != self.last_os {
            self.oversampler.reset();
            self.last_os = os;
        }
        proof {
            assert(mid.envelopes_current(1) == old(self).envelopes_current(1));
            assert forall|layer: usize| layer < 2 implies if #[trigger] old(
                self,
            ).envelopes_current(layer) {
                &&& self.bank(layer as int) == old(self).bank(layer as int)
                &&& self.last_env@[layer as int] == old(self).last_env@[layer as int]
            } else {
                let snap = EnvSnapshot::of(&old(self).patch(layer));
                &&& enveloped(fpu, old(self).bank(layer as int), snap, self.bank(layer as int))
                &&& self.last_env@[layer as int] == Some(snap)
            } by {
                if layer == 0 {
                } else {
                    assert(layer == 1);
                }
            }
        }
    }

    /// Run one control block of `n` samples into the block buffers.
    fn run_block<A: Fn(Op, Plain, Plain) -> Plain>(&mut self, fpu: &Fpu<A>, n: usize)
        requires
            fpu.valid(),
            old(self).wf(fpu),
            n <= CONTROL_BLOCK,
            old(self).last_os == old(self).params.global.oversample_factor(),
        ensures
            final(self).wf(fpu),
            final(self).scratch.l@.len() == n,
            final(self).scratch.r@.len() == n,
            final(self).same_settings(old(self)),
            final(self).last_os == old(self).last_os,
            final(self).alloc_counter == old(self).alloc_counter,
            final(self).limiter_was_on == old(self).limiter_was_on,
            Synth::is_block(
                fpu,
                old(self),
                final(self),
                final(self).scratch.l@,
                final(self).scratch.r@,
            ),
    {
        reveal(Synth::is_block);
        let os: usize = self.last_os;
        self.smoother.tick_block(fpu, &self.params);
        let wheel = self.mod_wheel.tick(fpu);
        let g = self.smoother.current.global;
        let lfo2_rate = lfo_rate_from(
            fpu,
            &GlobalParam::Lfo2Rate.desc(),
            g.get(GlobalParam::Lfo2Rate),
            g.bool(GlobalParam::Lfo2Sync),
            self.tempo_bpm,
        );
        let lfo2_val = self.lfo2.next(fpu, &self.table, g.lfo2_shape());
        self.lfo2.set_rate(fpu, lfo2_rate);
        let upper_ctx = build_ctx(
            fpu,
            &self.smoother.current,
            param_source(0, self.key_mode),
            self.sample_rate,
            os,
            self.bend_norm,
            wheel,
            lfo2_val,
            self.tempo_bpm,
        );
        let lower_ctx = build_ctx(
            fpu,
            &self.smoother.current,
            param_source(1, self.key_mode),
            self.sample_rate,
            os,
            self.bend_norm,
            wheel,
            lfo2_val,
            self.tempo_bpm,
        );
        proof {
            assert(n * os <= CONTROL_BLOCK * MAX_OVERSAMPLE) by (nonlinear_arith)
                requires
                    n <= CONTROL_BLOCK,
                    os <= MAX_OVERSAMPLE,
            ;
        }
        render_layers(
            fpu,
            &self.table,
            &mut self.upper,
            &mut self.lower,
            &upper_ctx,
            &lower_ctx,
            &mut self.scratch.mono_os,
            n * os,
        );
        fill_silence(&mut self.scratch.mono, n);
        proof {
            assert(halfband::stride(os as int) * n == n * os) by (nonlinear_arith)
                requires
                    halfband::stride(os as int) == os,
            ;
        }
        self.oversampler.decimate(
            fpu,
            self.scratch.mono_os.as_slice(),
            self.scratch.mono.as_mut_slice(),
            os,
        );
        proof {
            halfband::lemma_decimated_len(
                fpu,
                old(self).oversampler@,
                self.scratch.mono_os@,
                os as int,
                n as nat,
            );
        }
        self.effects.update(fpu, &g, self.params.global.reverb_type(), self.tempo_bpm);
        apply_volume(fpu, &mut self.smoother, &self.scratch.mono, &mut self.scratch.dry);
        let on = EffectSwitches {
            chorus: self.params.global.bool(GlobalParam::ChorusOn),
            delay: self.params.global.bool(GlobalParam::DelayOn),
            reverb: self.params.global.bool(GlobalParam::ReverbOn),
            reverb_mix: g.get(GlobalParam::ReverbMix),
        };
        self.effects.process_block(
            fpu,
            &self.table,
            on,
            &self.scratch.dry,
            &mut self.scratch.l,
            &mut self.scratch.r,
        );
    }

    /// Render a span into `out_l` and `out_r`, as many samples as both have. The master
    /// limiter is the caller's: it comes last, and has to do with the span what is returned.
    pub fn process<A: Fn(Op, Plain, Plain) -> Plain>(
        &mut self,
        fpu: &Fpu<A>,
        out_l: &mut [Plain],
        out_r: &mut [Plain],
    ) -> (limiter: LimiterStep)
        requires
            fpu.valid(),
            old(self).wf(fpu),
        ensures
            final(self).wf(fpu),
            final(self).same_settings(old(self)),
            final(self).alloc_counter == old(self).alloc_counter,
            final(out_l)@.len() == old(out_l)@.len(),
            final(out_r)@.len() == old(out_r)@.len(),
            ({
                let n = common_len(old(out_l)@, old(out_r)@);
                &&& Synth::is_rendering(
                    fpu,
                    old(self),
                    final(self),
                    final(out_l)@.take(n),
                    final(out_r)@.take(n),
                    limiter,
                )
                &&& final(out_l)@.skip(n) == old(out_l)@.skip(n)
                &&& final(out_r)@.skip(n) == old(out_r)@.skip(n)
            }),
    {
        let mut n: usize = out_l.len();
        if out_r.len() < n {
            n = out_r.len();
        }
        assert(n == common_len(old(out_l)@, old(out_r)@));
        self.make_ready(fpu);
        let ghost mut trace: Seq<Synth> = seq![*self];
        let ghost (l0, r0) = (out_l@, out_r@);
        let mut start: usize = 0;
        while start < n
            invariant
                fpu.valid(),
                self.wf(fpu),
                self.same_settings(old(self)),
                self.alloc_counter == old(self).alloc_counter,
                self.limiter_was_on == old(self).limiter_was_on,
                self.last_os == self.params.global.oversample_factor(),
                start <= n,
                n <= l0.len(),
                n <= r0.len(),
                l0 == old(out_l)@,
                r0 == old(out_r)@,
                out_l@.len() == l0.len(),
                out_r@.len() == r0.len(),
                start < n ==> start % CONTROL_BLOCK == 0,
                trace.len() == (start + CONTROL_BLOCK - 1) / CONTROL_BLOCK as int + 1,
                trace.last() == *self,
                trace.first().is_ready(fpu, old(self)),
                forall|k: int|
                    0 <= k < trace.len() - 1 ==> #[trigger] Synth::block_at(
                        fpu,
                        trace,
                        out_l@.take(start as int),
                        out_r@.take(start as int),
                        k,
                    ),
                forall|j: int| start <= j < l0.len() ==> #[trigger] out_l@[j] == l0[j],
                forall|j: int| start <= j < r0.len() ==> #[trigger] out_r@[j] == r0[j],
            decreases n - start,
        {
            let mut block: usize = n - start;
            if CONTROL_BLOCK < block {
                block = CONTROL_BLOCK;
            }
            let ghost pre = *self;
            let ghost (l1, r1) = (out_l@, out_r@);
            self.run_block(fpu, block);
            copy_into(&self.scratch.l, out_l, start);
            copy_into(&self.scratch.r, out_r, start);
            let ghost was = trace;
            proof {
                trace = trace.push(*self);
                let k_last = was.len() - 1;
                let end = start + block;
                assert(k_last * CONTROL_BLOCK == start);
                assert forall|k: int| 0 <= k < trace.len() - 1 implies #[trigger] Synth::block_at(
                    fpu,
                    trace,
                    out_l@.take(end),
                    out_r@.take(end),
                    k,
                ) by {
                    let from = k * CONTROL_BLOCK;
                    if k < k_last {
                        assert(Synth::block_at(
                            fpu,
                            was,
                            l1.take(start as int),
                            r1.take(start as int),
                            k,
                        ));
                        let to = from + CONTROL_BLOCK;
                        assert(out_l@.take(end).subrange(from, to) =~= l1.take(
                            start as int,
                        ).subrange(from, to));
                        assert(out_r@.take(end).subrange(from, to) =~= r1.take(
                            start as int,
                        ).subrange(from, to));
                    } else {
                        assert(out_l@.take(end).subrange(from, end) =~= self.scratch.l@);
                        assert(out_r@.take(end).subrange(from, end) =~= self.scratch.r@);
                    }
                }
            }
            start = start + block;
        }
        proof {
            assert(Synth::is_span(fpu, trace, out_l@.take(n as int), out_r@.take(n as int)));
            assert(out_l@.skip(n as int) =~= l0.skip(n as int));
            assert(out_r@.skip(n as int) =~= r0.skip(n as int));
        }
        if n == 0 {
            return LimiterStep::Bypass;
        }
        let on: bool = self.params.global.bool(GlobalParam::LimiterOn);
        let was_on: bool = self.limiter_was_on;
        self.limiter_was_on = on;
        if !on {
            LimiterStep::Bypass
        } else if was_on {
            LimiterStep::Run
        } else {
            LimiterStep::ResetAndRun
        }
    }

    /// Layered, a note sounds on both layers; split, on one, by the split point; over the
    /// whole keyboard, on one.
    pub proof fn lemma_route_is_sound(&self, note: u8)
        requires
            self.rr_layer < 2,
        ensures
            forall|k: int| 0 <= k < self.route(note).len() ==> (#[trigger] self.route(note)[k]) < 2,
            self.key_mode == KeyMode::Dual ==> self.route(note).contains(0) && self.route(
                note,
            ).contains(1),
            self.key_mode != KeyMode::Dual ==> self.route(note).len() == 1,
            self.key_mode == KeyMode::Split ==> (self.route(note) == seq![1usize] <==> note
                < self.split_point),
    {
        let r = self.route(note);
        if self.key_mode == KeyMode::Dual {
            assert(r[0] == 0 && r[1] == 1);
        }
        if self.key_mode == KeyMode::Split {
            assert(seq![1usize][0] == 1 && seq![0usize][0] == 0);
        }
    }

    /// Split, a note below the split point leaves the upper layer alone and any other note
    /// the lower one, however many voices it takes.
    pub proof fn lemma_split_keeps_layers_apart<A: Fn(Op, Plain, Plain) -> Plain>(
        fpu: &Fpu<A>,
        pre: &Synth,
        post: &Synth,
        note: u8,
        velocity: Plain,
    )
        requires
            pre.key_mode == KeyMode::Split,
            Synth::is_note_on(fpu, pre, post, note, velocity),
        ensures
            note < pre.split_point ==> post.upper == pre.upper,
            note >= pre.split_point ==> post.lower == pre.lower,
    {
        assert(seq![1usize][0] == 1 && seq![0usize][0] == 0);
    }

    /// Over the whole keyboard, polyphonic notes alternate between the layers.
    pub proof fn lemma_whole_takes_turns<A: Fn(Op, Plain, Plain) -> Plain>(
        &self,
        fpu: &Fpu<A>,
        after: &Synth,
        note: u8,
        velocity: Plain,
        next: u8,
    )
        requires
            self.rr_layer < 2,
            self.key_mode == KeyMode::Whole,
            self.params.upper.assign_mode() == AssignMode::Poly
                || self.params.upper.assign_mode() == AssignMode::Twin,
            Synth::is_note_on(fpu, self, after, note, velocity),
        ensures
            after.route(next)[0] == 1 - self.route(note)[0],
            after.next_turn() == self.rr_layer,
    {
    }

    /// Over the whole keyboard, a monophonic patch stays on one layer.
    pub proof fn lemma_whole_mono_stays(&self, note: u8)
        requires
            self.key_mode == KeyMode::Whole,
            self.params.upper.assign_mode() == AssignMode::Solo
                || self.params.upper.assign_mode() == AssignMode::Unison,
        ensures
            self.route(note) == seq![0usize],
            self.next_turn() == self.rr_layer,
    {
    }

    /// A limiter that comes on forgets what it heard before it went off.
    pub proof fn lemma_limiter_starts_clean(&self, n: int)
        requires
            !self.limiter_was_on,
        ensures
            self.limiter_step(n) != LimiterStep::Run,
    {
    }
}

/// Render both layers into one buffer of `len` samples.
fn render_layers<A: Fn(Op, Plain, Plain) -> Plain>(
    fpu: &Fpu<A>,
    table: &SineTable,
    upper: &mut VoiceBank,
    lower: &mut VoiceBank,
    upper_ctx: &BlockCtx,
    lower_ctx: &BlockCtx,
    out: &mut Vec<Plain>,
    len: usize,
)
    requires
        fpu.valid(),
        table.tabulates(fpu),
        old(upper).wf(),
        old(lower).wf(),
        upper_ctx.os > 0,
        lower_ctx.os > 0,
        tpt::filterable(fpu, upper_ctx.os_sample_rate),
        tpt::filterable(fpu, lower_ctx.os_sample_rate),
    ensures
        final(upper).wf(),
        final(lower).wf(),
        final(upper).same_notes(old(upper)),
        final(lower).same_notes(old(lower)),
        final(out)@.len() == len,
        ({
            let (a, c) = layered(
                fpu,
                *old(upper),
                *old(lower),
                *upper_ctx,
                *lower_ctx,
                len as nat,
            );
            &&& final(upper).lanes() == a.lanes
            &&& final(lower).lanes() == c.lanes
            &&& final(out)@ == c.out
        }),
{
    reveal(layered);
    fill_silence(out, len);
    upper.render_block(fpu, table, out.as_mut_slice(), upper_ctx);
    lower.render_block(fpu, table, out.as_mut_slice(), lower_ctx);
}

/// Apply the master volume to a block, sample by sample.
fn apply_volume<A: Fn(Op, Plain, Plain) -> Plain>(
    fpu: &Fpu<A>,
    smoother: &mut ParamSmoother,
    mono: &Vec<Plain>,
    dry: &mut Vec<Plain>,
)
    requires
        fpu.valid(),
    ensures
        *final(smoother) == (ParamSmoother {
            volume: ticked_times(fpu, old(smoother).volume, mono@.len()),
            ..*old(smoother)
        }),
        final(dry)@ == with_volume(fpu, mono@, old(smoother).volume),
{
    dry.clear();
    let n: usize = mono.len();
    let ghost w = with_volume(fpu, mono@, smoother.volume);
    for i in 0..n
        invariant
            fpu.valid(),
            n == mono@.len(),
            w == with_volume(fpu, mono@, old(smoother).volume),
            *smoother == (ParamSmoother {
                volume: ticked_times(fpu, old(smoother).volume, i as nat),
                ..*old(smoother)
            }),
            dry@ == w.take(i as int),
    {
        let volume = smoother.next_volume(fpu);
        dry.push(fpu.mul(mono[i], volume));
        assert(dry@ =~= w.take(i + 1));
    }
    assert(w.take(n as int) =~= w);
}

/// An oscillator is tuned by twelve semitones to the octave, by whole semitones, and by a
/// hundred cents to the semitone, all added up.
pub proof fn lemma_tuning_adds_up<A: Fn(Op, Plain, Plain) -> Plain>(
    fpu: &Fpu<A>,
    octave: Plain,
    coarse: Plain,
    cents: Plain,
    o: int,
    c: int,
    f: int,
    twelves: Plain,
    fine: Plain,
    whole: Plain,
    r: Plain,
)
    requires
        fpu.rounds(),
        octave.is_finite() && coarse.is_finite() && cents.is_finite(),
        octave.scaled() == o * plain::unit(),
        coarse.scaled() == c * plain::unit(),
        cents.scaled() == 100 * f * plain::unit(),
        -1000 < o < 1000 && -1000 < c < 1000,
        twelves.is_number() && fine.is_number() && whole.is_number() && r.is_number(),
        twelves.scaled() == 12 * o * plain::unit(),
        fine.scaled() == f * plain::unit(),
        whole.scaled() == (12 * o + c) * plain::unit(),
        r.scaled() == (12 * o + c + f) * plain::unit(),
    ensures
        tuning(fpu, octave, coarse, cents).equals(r),
{
    plain::lemma_small_values();
    vstd::arithmetic::power2::lemma2_to64();
    plain::lemma_whole_value(F100, 100, 17);
    plain::lemma_whole_round(octave, o);
    plain::lemma_whole_round(coarse, c);
    let u = plain::unit();
    assert((o * u) * (12 * u) == (12 * o * u) * u) by (nonlinear_arith);
    fpu.lemma_mul_side(octave, num(F12), twelves);
    let a = fpu.mul(octave, num(F12));
    plain::lemma_equal_scaled(a, twelves);
    assert((f * u) * (100 * u) == (100 * f * u) * u) by (nonlinear_arith);
    fpu.lemma_div_side(cents, num(F100), fine);
    let b = fpu.div(cents, num(F100));
    plain::lemma_equal_scaled(b, fine);
    fpu.lemma_total(seq![a, coarse, b]);
    assert(12 * o * u + c * u == (12 * o + c) * u && (12 * o + c) * u + f * u == (12 * o + c + f)
        * u) by (nonlinear_arith);
    fpu.lemma_add_side(a, coarse, whole);
    let s = fpu.add(a, coarse);
    plain::lemma_equal_scaled(s, whole);
    fpu.lemma_add_side(s, b, r);
}

/// Every knob of a patch reaches its own place in the block: the levels and widths of the
/// oscillators, the filter, LFO 1, the glide, and the depth and source of every route.
pub proof fn lemma_knobs_reach_their_places<A: Fn(Op, Plain, Plain) -> Plain>(
    fpu: &Fpu<A>,
    vals: &ParamValues,
    src: Layer,
    sample_rate: Plain,
    os: usize,
    bend_norm: Plain,
    wheel: Plain,
    lfo2_val: Plain,
    tempo_bpm: Plain,
)
    ensures
        ({
            let p = vals.layer(src);
            let c = build_ctx(
                fpu,
                vals,
                src,
                sample_rate,
                os,
                bend_norm,
                wheel,
                lfo2_val,
                tempo_bpm,
            );
            &&& c.osc1_level == p.get(PatchParam::Osc1Level)
            &&& c.osc2_level == p.get(PatchParam::Osc2Level)
            &&& c.sub_level == p.get(PatchParam::SubLevel)
            &&& c.noise_level == p.get(PatchParam::NoiseLevel)
            &&& c.osc1_pw == p.get(PatchParam::Osc1PulseWidth)
            &&& c.osc2_pw == p.get(PatchParam::Osc2PulseWidth)
            &&& c.osc1_wave == p.osc_wave(PatchParam::Osc1Wave)
            &&& c.osc2_wave == p.osc_wave(PatchParam::Osc2Wave)
            &&& c.noise_color == p.noise_color()
            &&& c.cutoff == p.get(PatchParam::Cutoff)
            &&& c.hpf_cutoff == p.get(PatchParam::HpfCutoff)
            &&& c.drive == p.get(PatchParam::Drive)
            &&& c.filter_mode == p.filter_mode() && c.filter_slope == p.filter_slope()
            &&& c.filter_key_track == p.bool(PatchParam::FilterKeyTrack)
            &&& c.lfo1_shape == p.lfo_shape() && c.lfo2_val == lfo2_val
            &&& c.lfo1_delay_time == p.get(PatchParam::Lfo1DelayTime)
            &&& c.lfo1_fade == p.get(PatchParam::Lfo1Fade)
            &&& !p.bool(PatchParam::LfoSync) ==> c.lfo1_rate_hz == p.get(PatchParam::LfoRate)
            &&& c.portamento_time == p.get(PatchParam::PortamentoTime)
            &&& c.base_semis == vals.global.get(GlobalParam::MasterTune)
            &&& c.pitch_lfo_depth == p.get(PatchParam::PitchLfoDepth)
            &&& c.pitch_lfo_sel == p.lfo_sel(PatchParam::PitchLfoSrc)
            &&& c.pitch_lfo_mod_only == p.bool(PatchParam::PitchLfoModOnly)
            &&& c.pitch_env_depth == p.get(PatchParam::PitchEnvDepth)
            &&& c.pitch_env_sel == p.env_sel(PatchParam::PitchEnvSrc)
            &&& c.pitch_env_mod_only == p.bool(PatchParam::PitchEnvModOnly)
            &&& c.pwm_lfo_depth == p.get(PatchParam::PwmLfoDepth)
            &&& c.pwm_lfo_sel == p.lfo_sel(PatchParam::PwmLfoSrc)
            &&& c.pwm_env_depth == p.get(PatchParam::PwmEnvDepth)
            &&& c.pwm_env_sel == p.env_sel(PatchParam::PwmEnvSrc)
            &&& c.cutoff_lfo1_depth == p.get(PatchParam::CutoffLfo1Depth)
            &&& c.cutoff_lfo2_depth == p.get(PatchParam::CutoffLfo2Depth)
            &&& c.cutoff_env_depth == p.get(PatchParam::CutoffEnvDepth)
            &&& c.cutoff_vel_depth == p.get(PatchParam::VelCutoffDepth)
            &&& c.amp_lfo_depth == p.get(PatchParam::AmpLfoDepth)
            &&& c.amp_lfo_sel == p.lfo_sel(PatchParam::AmpLfoSrc)
            &&& c.amp_env_bypass == p.bool(PatchParam::AmpEnvBypass)
            &&& c.ring_mode == (p.cross_mod_type() == CrossModType::Ring)
            &&& c.sync == (p.cross_mod_type() == CrossModType::Sync)
            &&& p.cross_mod_type() == CrossModType::Pm ==> c.pm_index == p.get(
                PatchParam::CrossModAmount,
            )
        }),
{
    reveal(spec_build_ctx);
}

/// The wheels at rest do nothing: the resonance is that of the patch, and neither the pitch, the
/// width, the cutoff nor the sweep is moved. The pitch wheel moves the pitch by its own depth and
/// the modulation wheel each of its destinations by the depth for that destination, wherever the
/// product is a number.
pub proof fn lemma_wheels<A: Fn(Op, Plain, Plain) -> Plain>(
    fpu: &Fpu<A>,
    vals: &ParamValues,
    src: Layer,
    sample_rate: Plain,
    os: usize,
    bend_norm: Plain,
    wheel: Plain,
    lfo2_val: Plain,
    tempo_bpm: Plain,
    r: Plain,
)
    requires
        fpu.rounds(),
        bend_norm.is_finite() && wheel.is_finite() && r.is_number(),
        vals.layer(src).get(PatchParam::PitchWheelDepth).is_finite(),
        vals.layer(src).get(PatchParam::ModWheelPwm).is_finite(),
        vals.layer(src).get(PatchParam::ModWheelCutoff).is_finite(),
        vals.layer(src).get(PatchParam::ModWheelCrossModSweep).is_finite(),
        vals.layer(src).get(PatchParam::ModWheelReso).is_finite(),
        vals.layer(src).get(PatchParam::Resonance).is_number(),
        num(ZERO).at_most(vals.layer(src).get(PatchParam::Resonance)),
        vals.layer(src).get(PatchParam::Resonance).at_most(num(ONE)),
    ensures
        ({
            let p = vals.layer(src);
            let c = build_ctx(
                fpu,
                vals,
                src,
                sample_rate,
                os,
                bend_norm,
                wheel,
                lfo2_val,
                tempo_bpm,
            );
            let at = r.scaled() * plain::unit();
            &&& bend_norm.is_zero() ==> c.pitch_extra.is_zero()
            &&& wheel.is_zero() ==> c.pwm_extra.is_zero() && c.cutoff_extra.is_zero()
                && c.sweep_extra.is_zero() && c.resonance.equals(p.get(PatchParam::Resonance))
            &&& at == bend_norm.scaled() * p.get(PatchParam::PitchWheelDepth).scaled()
                ==> c.pitch_extra.equals(r)
            &&& at == wheel.scaled() * p.get(PatchParam::ModWheelPwm).scaled()
                ==> c.pwm_extra.equals(r)
            &&& at == wheel.scaled() * p.get(PatchParam::ModWheelCutoff).scaled()
                ==> c.cutoff_extra.equals(r)
            &&& at == wheel.scaled() * p.get(PatchParam::ModWheelCrossModSweep).scaled()
                ==> c.sweep_extra.equals(r)
            &&& !c.resonance.is_nan() ==> num(ZERO).at_most(c.resonance) && c.resonance.at_most(
                num(ONE),
            )
        }),
{
    reveal(spec_build_ctx);
    let p = vals.layer(src);
    let (pitch, pwm) = (p.get(PatchParam::PitchWheelDepth), p.get(PatchParam::ModWheelPwm));
    let (cut, sweep) = (
        p.get(PatchParam::ModWheelCutoff),
        p.get(PatchParam::ModWheelCrossModSweep),
    );
    let (reso, by) = (p.get(PatchParam::Resonance), p.get(PatchParam::ModWheelReso));
    fpu.lemma_mul_side(bend_norm, pitch, r);
    fpu.lemma_mul_side(wheel, pwm, r);
    fpu.lemma_mul_side(wheel, cut, r);
    fpu.lemma_mul_side(wheel, sweep, r);
    if bend_norm.is_zero() {
        fpu.lemma_none_of(pitch, bend_norm);
    }
    if wheel.is_zero() {
        fpu.lemma_none_of(pwm, wheel);
        fpu.lemma_none_of(cut, wheel);
        fpu.lemma_none_of(sweep, wheel);
        fpu.lemma_none_of(by, wheel);
        fpu.lemma_nothing_added(reso, fpu.mul(wheel, by));
    }
}

/// A synced rate is that of the note length at the knob's place, and follows the tempo.
pub proof fn lemma_synced_rate_follows_tempo<A: Fn(Op, Plain, Plain) -> Plain>(
    fpu: &Fpu<A>,
    desc: &ParamDesc,
    rate_value: Plain,
    slow: Plain,
    fast: Plain,
)
    requires
        fpu.rounds(),
        slow.is_finite() && fast.is_finite(),
        slow.scaled() > 0 && slow.at_most(fast),
        fpu.div(slow, num(F60)).is_finite() && fpu.div(fast, num(F60)).is_finite(),
        fpu.div(num(F60), slow).is_finite() && fpu.div(num(F60), fast).is_finite(),
    ensures
        lfo_rate_from(fpu, desc, rate_value, true, slow).at_most(
            lfo_rate_from(fpu, desc, rate_value, true, fast),
        ),
{
    let pos = desc.to_fader(fpu, rate_value);
    crate::sync::lemma_tempo_speeds_up(fpu, slow, fast, index_from_norm(fpu, pos));
}

/// A volume that has settled scales every sample of a block by itself: at one nothing changes,
/// and at nothing the block is silent.
pub proof fn lemma_settled_volume<A: Fn(Op, Plain, Plain) -> Plain>(
    fpu: &Fpu<A>,
    mono: Seq<Plain>,
    volume: Smoothed,
    i: int,
)
    requires
        fpu.rounds(),
        0 <= i < mono.len(),
        mono[i].is_number(),
        volume.value == volume.target,
        volume.value == num(ONE) || volume.value.is_zero(),
        volume.coeff.is_finite() && 0 <= volume.coeff.scaled() <= plain::unit(),
    ensures
        with_volume(fpu, mono, volume).len() == mono.len(),
        volume.value == num(ONE) ==> with_volume(fpu, mono, volume)[i].equals(mono[i]),
        volume.value.is_zero() ==> with_volume(fpu, mono, volume)[i].is_zero(),
{
    lemma_volume_stays(fpu, volume, (i + 1) as nat);
    let v = ticked_times(fpu, volume, (i + 1) as nat).value;
    if volume.value == num(ONE) {
        fpu.lemma_all_of(mono[i]);
    } else {
        fpu.lemma_none_of(mono[i], v);
    }
}

proof fn lemma_volume_stays<A: Fn(Op, Plain, Plain) -> Plain>(
    fpu: &Fpu<A>,
    volume: Smoothed,
    k: nat,
)
    requires
        fpu.rounds(),
        volume.value == volume.target,
        volume.value == num(ONE) || volume.value.is_zero(),
        volume.coeff.is_finite() && 0 <= volume.coeff.scaled() <= plain::unit(),
    ensures
        ({
            let v = ticked_times(fpu, volume, k);
            &&& v.value.rank() == volume.value.rank() && v.value.is_number()
            &&& v.target == volume.target && v.coeff == volume.coeff
            &&& volume.value == num(ONE) ==> v.value == num(ONE)
        }),
    decreases k,
{
    plain::lemma_zero_scaled(num(ZERO));
    if k > 0 {
        lemma_volume_stays(fpu, volume, (k - 1) as nat);
        let v = ticked_times(fpu, volume, (k - 1) as nat);
        plain::lemma_equal_scaled(v.value, v.target);
        crate::smoothing::lemma_smoothed_heads_for_target(fpu, v, num(ZERO));
    }
}

/// Over the whole keyboard both layers play by one patch; else each plays by its own.
pub proof fn lemma_patch_of_a_layer(a: usize, b: usize, key_mode: KeyMode)
    requires
        a < Layer::COUNT && b < Layer::COUNT,
    ensures
        key_mode == KeyMode::Whole ==> param_source(a, key_mode) == Layer::Upper,
        key_mode != KeyMode::Whole ==> param_source(a, key_mode).index() == a,
        param_source(a, key_mode) == param_source(b, key_mode) <==> a == b || key_mode
            == KeyMode::Whole,
{
}

} // verus!
