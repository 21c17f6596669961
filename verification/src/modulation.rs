//! Per-voice modulation: the fixed routes, the glide and the onset of LFO 1.
use crate::choices::{CrossModType, EnvSel, LfoSel};
use crate::fpu::{Fpu, Op};
use crate::lfo::LfoShape;
use crate::noise::NoiseColor;
use crate::nums::{F0_15, F60, ONE, ZERO};
use crate::oscillator::Waveform;
use crate::plain::{self, num, Plain};
use crate::poly::{FilterMode, FilterSlope};
use vstd::prelude::*;

verus! {

broadcast use crate::plain::group_by_rank;

/// What all voices of a layer share for one control block.
#[derive(Clone, Copy, Debug, PartialEq, Eq, Structural)]
pub struct BlockCtx {
    /// Sample rate of the synthesis path: the base rate times the factor.
    pub os_sample_rate: Plain,
    /// Oversampling factor: 1, 2, 4 or 8.
    pub os: usize,
    pub osc1_wave: Waveform,
    pub osc2_wave: Waveform,
    pub osc1_level: Plain,
    pub osc2_level: Plain,
    /// Level of the sub-oscillator. Zero skips it.
    pub sub_level: Plain,
    /// The ring modulator takes the place of oscillator 1 in the mixer.
    pub ring_mode: bool,
    /// Level of the noise. Zero skips it.
    pub noise_level: Plain,
    pub noise_color: NoiseColor,
    pub osc1_pw: Plain,
    pub osc2_pw: Plain,
    pub osc1_semi: Plain,
    pub osc2_semi: Plain,
    pub cutoff: Plain,
    /// Cutoff of the high-pass filter in Hz. 20 and below is off.
    pub hpf_cutoff: Plain,
    pub resonance: Plain,
    pub drive: Plain,
    pub filter_mode: FilterMode,
    pub filter_slope: FilterSlope,
    pub base_semis: Plain,
    pub lfo1_shape: LfoShape,
    /// Rate of LFO 1, after tempo sync.
    pub lfo1_rate_hz: Plain,
    /// LFO 1 is held at zero for this long after a note, in seconds.
    pub lfo1_delay_time: Plain,
    /// LFO 1 then fades in for this long, in seconds.
    pub lfo1_fade: Plain,
    /// The value of LFO 2, common to all voices.
    pub lfo2_val: Plain,
    /// Hard sync between the oscillators.
    pub sync: bool,
    /// Phase-modulation index. Zero is off.
    pub pm_index: Plain,
    /// The interaction that the routes follow, whatever its amount.
    pub cross_mod_type: CrossModType,
    /// Glide time in seconds. Zero is off.
    pub portamento_time: Plain,
    pub pitch_lfo_sel: LfoSel,
    pub pitch_lfo_depth: Plain,
    /// Send the LFO to the modulating oscillator alone.
    pub pitch_lfo_mod_only: bool,
    pub pitch_env_sel: EnvSel,
    pub pitch_env_depth: Plain,
    /// Send the envelope to the modulating oscillator alone.
    pub pitch_env_mod_only: bool,
    /// The pitch wheel's part, in semitones.
    pub pitch_extra: Plain,
    pub pwm_lfo_sel: LfoSel,
    pub pwm_lfo_depth: Plain,
    pub pwm_env_sel: EnvSel,
    pub pwm_env_depth: Plain,
    /// The modulation wheel's part of the pulse width.
    pub pwm_extra: Plain,
    pub cutoff_lfo1_depth: Plain,
    pub cutoff_lfo2_depth: Plain,
    pub cutoff_env_depth: Plain,
    pub cutoff_vel_depth: Plain,
    /// The modulation wheel's part of the cutoff, in semitones.
    pub cutoff_extra: Plain,
    /// The cutoff follows the keys, octave for octave, from middle C.
    pub filter_key_track: bool,
    /// The modulation wheel's sweep of the oscillators, in semitones.
    pub sweep_extra: Plain,
    pub amp_lfo_sel: LfoSel,
    /// Depth of the tremolo in `[0, 1]`.
    pub amp_lfo_depth: Plain,
    /// The amplifier follows the bare gate instead of envelope 2.
    pub amp_env_bypass: bool,
}

pub open spec fn spec_lfo_src(sel: LfoSel, lfo1: Plain, lfo2: Plain) -> Plain {
    match sel {
        LfoSel::Off => num(ZERO),
        LfoSel::Lfo1 => lfo1,
        LfoSel::Lfo2 => lfo2,
    }
}

/// The value of the LFO that a route reads.
#[verifier::when_used_as_spec(spec_lfo_src)]
pub fn lfo_src(sel: LfoSel, lfo1: Plain, lfo2: Plain) -> (r: Plain)
    ensures
        r == lfo_src(sel, lfo1, lfo2),
{
    match sel {
        LfoSel::Off => num(ZERO),
        LfoSel::Lfo1 => lfo1,
        LfoSel::Lfo2 => lfo2,
    }
}

pub open spec fn spec_env_src(sel: EnvSel, env1: Plain, env2: Plain) -> Plain {
    match sel {
        EnvSel::Off => num(ZERO),
        EnvSel::Env1 => env1,
        EnvSel::Env2 => env2,
    }
}

/// The value of the envelope that a route reads.
#[verifier::when_used_as_spec(spec_env_src)]
pub fn env_src(sel: EnvSel, env1: Plain, env2: Plain) -> (r: Plain)
    ensures
        r == env_src(sel, env1, env2),
{
    match sel {
        EnvSel::Off => num(ZERO),
        EnvSel::Env1 => env1,
        EnvSel::Env2 => env2,
    }
}

pub open spec fn spec_amp_base(active: bool, gate: bool, bypass: bool, env2_level: Plain) -> Plain {
    share(
        if bypass {
            share(num(ONE), gate)
        } else {
            env2_level.max(num(ZERO))
        },
        active,
    )
}

/// The amplifier's level before tremolo: nothing for an idle voice, the bare gate when
/// the envelope is bypassed, else envelope 2.
#[verifier::when_used_as_spec(spec_amp_base)]
pub fn amp_base(active: bool, gate: bool, bypass: bool, env2_level: Plain) -> (r: Plain)
    ensures
        r == amp_base(active, gate, bypass, env2_level),
{
    if !active {
        num(ZERO)
    } else if bypass {
        if gate {
            num(ONE)
        } else {
            num(ZERO)
        }
    } else {
        env2_level.max(num(ZERO))
    }
}

/// The modulation sources of one voice at the start of a block.
#[derive(Clone, Copy, Debug, PartialEq, Eq, Structural)]
pub struct ModSources {
    pub e1: Plain,
    pub e2: Plain,
    /// LFO 1, already faded in.
    pub lfo1: Plain,
    pub lfo2: Plain,
    pub velocity: Plain,
    pub note: u8,
}

/// The resolved modulation of one voice: pitch, sweep and cutoff in semitones, the pulse
/// width as a fraction.
#[derive(Clone, Copy, Debug, PartialEq, Eq, Structural)]
pub struct ModOut {
    /// Moves both oscillators.
    pub pitch_mod: Plain,
    /// Moves the modulating oscillator.
    pub pitch_mod_only: Plain,
    /// The modulation wheel's sweep.
    pub sweep_mod: Plain,
    pub pwm_mod: Plain,
    pub cutoff_mod: Plain,
}

/// What a route gives a destination: all of its part, or none.
pub open spec fn share(part: Plain, here: bool) -> Plain {
    if here {
        part
    } else {
        num(ZERO)
    }
}

pub open spec fn spec_resolve_mod<A: Fn(Op, Plain, Plain) -> Plain>(
    fpu: &Fpu<A>,
    ctx: &BlockCtx,
    s: &ModSources,
) -> ModOut {
    let key = fpu.sub(Plain::from_int(s.note as i64), num(F60));
    let pitch_lfo = fpu.mul(lfo_src(ctx.pitch_lfo_sel, s.lfo1, s.lfo2), ctx.pitch_lfo_depth);
    let pitch_env = fpu.mul(env_src(ctx.pitch_env_sel, s.e1, s.e2), ctx.pitch_env_depth);
    ModOut {
        pitch_mod: fpu.total(
            seq![
                share(pitch_lfo, !ctx.pitch_lfo_mod_only),
                share(pitch_env, !ctx.pitch_env_mod_only),
                ctx.pitch_extra,
            ],
        ),
        pitch_mod_only: fpu.total(
            seq![
                share(pitch_lfo, ctx.pitch_lfo_mod_only),
                share(pitch_env, ctx.pitch_env_mod_only),
            ],
        ),
        sweep_mod: ctx.sweep_extra,
        pwm_mod: fpu.total(
            seq![
                fpu.mul(lfo_src(ctx.pwm_lfo_sel, s.lfo1, s.lfo2), ctx.pwm_lfo_depth),
                fpu.mul(env_src(ctx.pwm_env_sel, s.e1, s.e2), ctx.pwm_env_depth),
                ctx.pwm_extra,
            ],
        ),
        cutoff_mod: fpu.total(
            seq![
                fpu.mul(s.lfo1, ctx.cutoff_lfo1_depth),
                fpu.mul(s.lfo2, ctx.cutoff_lfo2_depth),
                fpu.mul(s.e1, ctx.cutoff_env_depth),
                fpu.mul(s.velocity, ctx.cutoff_vel_depth),
                share(key, ctx.filter_key_track),
                ctx.cutoff_extra,
            ],
        ),
    }
}

/// Resolve the fixed routes of one voice: each destination sums its selected LFO and
/// envelope by their depths, and the wheels' parts. The LFO and the envelope leave the
/// common pitch for the modulating oscillator's where their switch says so.
#[verifier::when_used_as_spec(spec_resolve_mod)]
pub fn resolve_mod<A: Fn(Op, Plain, Plain) -> Plain>(
    fpu: &Fpu<A>,
    ctx: &BlockCtx,
    s: &ModSources,
) -> (r: ModOut)
    requires
        fpu.valid(),
    ensures
        r == resolve_mod(fpu, ctx, s),
{
    let key_track = if ctx.filter_key_track {
        fpu.sub(Plain::from_int(s.note as i64), num(F60))
    } else {
        num(ZERO)
    };
    let pitch_lfo = fpu.mul(lfo_src(ctx.pitch_lfo_sel, s.lfo1, s.lfo2), ctx.pitch_lfo_depth);
    let (lfo_common, lfo_mod) = if ctx.pitch_lfo_mod_only {
        (num(ZERO), pitch_lfo)
    } else {
        (pitch_lfo, num(ZERO))
    };
    let pitch_env = fpu.mul(env_src(ctx.pitch_env_sel, s.e1, s.e2), ctx.pitch_env_depth);
    let (env_common, env_mod) = if ctx.pitch_env_mod_only {
        (num(ZERO), pitch_env)
    } else {
        (pitch_env, num(ZERO))
    };
    let pwm_lfo = fpu.mul(lfo_src(ctx.pwm_lfo_sel, s.lfo1, s.lfo2), ctx.pwm_lfo_depth);
    let pwm_env = fpu.mul(env_src(ctx.pwm_env_sel, s.e1, s.e2), ctx.pwm_env_depth);
    let cutoff_lfos = fpu.add(
        fpu.mul(s.lfo1, ctx.cutoff_lfo1_depth),
        fpu.mul(s.lfo2, ctx.cutoff_lfo2_depth),
    );
    let cutoff_env = fpu.add(cutoff_lfos, fpu.mul(s.e1, ctx.cutoff_env_depth));
    let cutoff_vel = fpu.add(cutoff_env, fpu.mul(s.velocity, ctx.cutoff_vel_depth));
    proof {
        fpu.lemma_total(seq![lfo_common, env_common, ctx.pitch_extra]);
        fpu.lemma_total(seq![lfo_mod, env_mod]);
        fpu.lemma_total(seq![pwm_lfo, pwm_env, ctx.pwm_extra]);
        fpu.lemma_total(
            seq![
                fpu.mul(s.lfo1, ctx.cutoff_lfo1_depth),
                fpu.mul(s.lfo2, ctx.cutoff_lfo2_depth),
                fpu.mul(s.e1, ctx.cutoff_env_depth),
                fpu.mul(s.velocity, ctx.cutoff_vel_depth),
                key_track,
                ctx.cutoff_extra,
            ],
        );
    }
    ModOut {
        pitch_mod: fpu.add(fpu.add(lfo_common, env_common), ctx.pitch_extra),
        pitch_mod_only: fpu.add(lfo_mod, env_mod),
        sweep_mod: ctx.sweep_extra,
        pwm_mod: fpu.add(fpu.add(pwm_lfo, pwm_env), ctx.pwm_extra),
        cutoff_mod: fpu.add(fpu.add(cutoff_vel, key_track), ctx.cutoff_extra),
    }
}

/// A route whose selector is off does not hear its sources: neither LFO nor envelope
/// makes a difference to a pitch with both selectors off.
pub proof fn lemma_off_selector_is_deaf<A: Fn(Op, Plain, Plain) -> Plain>(
    fpu: &Fpu<A>,
    ctx: &BlockCtx,
    s: &ModSources,
    t: &ModSources,
)
    requires
        ctx.pitch_lfo_sel == LfoSel::Off,
        ctx.pitch_env_sel == EnvSel::Off,
    ensures
        resolve_mod(fpu, ctx, s).pitch_mod == resolve_mod(fpu, ctx, t).pitch_mod,
        resolve_mod(fpu, ctx, s).pitch_mod_only == resolve_mod(fpu, ctx, t).pitch_mod_only,
{
}

/// Destinations do not hear each other's routes: the pitch routes make no difference to
/// the pulse width and the cutoff.
pub proof fn lemma_routes_do_not_cross<A: Fn(Op, Plain, Plain) -> Plain>(
    fpu: &Fpu<A>,
    ctx: &BlockCtx,
    s: &ModSources,
    lfo_sel: LfoSel,
    lfo_depth: Plain,
    env_sel: EnvSel,
    env_depth: Plain,
)
    ensures
        ({
            let other = BlockCtx {
                pitch_lfo_sel: lfo_sel,
                pitch_lfo_depth: lfo_depth,
                pitch_env_sel: env_sel,
                pitch_env_depth: env_depth,
                ..*ctx
            };
            let (m, n) = (resolve_mod(fpu, ctx, s), resolve_mod(fpu, &other, s));
            m.pwm_mod == n.pwm_mod && m.cutoff_mod == n.cutoff_mod && m.sweep_mod == n.sweep_mod
        }),
{
}

/// A mod-only switch moves the product of its own source, and nothing else, from the common
/// pitch to the modulating oscillator's. The wheel's part stays in the common pitch; sweep,
/// pulse width and cutoff are the same. A selector that is off makes the product of zero.
pub proof fn lemma_switch_moves_one_product<A: Fn(Op, Plain, Plain) -> Plain>(
    fpu: &Fpu<A>,
    ctx: &BlockCtx,
    s: &ModSources,
    lfo_only: bool,
    env_only: bool,
)
    ensures
        ({
            let switched = BlockCtx {
                pitch_lfo_mod_only: lfo_only,
                pitch_env_mod_only: env_only,
                ..*ctx
            };
            let (m, n) = (resolve_mod(fpu, ctx, s), resolve_mod(fpu, &switched, s));
            let lfo = fpu.mul(lfo_src(ctx.pitch_lfo_sel, s.lfo1, s.lfo2), ctx.pitch_lfo_depth);
            let env = fpu.mul(env_src(ctx.pitch_env_sel, s.e1, s.e2), ctx.pitch_env_depth);
            &&& n.pitch_mod == fpu.total(
                seq![share(lfo, !lfo_only), share(env, !env_only), ctx.pitch_extra],
            )
            &&& n.pitch_mod_only == fpu.total(seq![share(lfo, lfo_only), share(env, env_only)])
            &&& n.sweep_mod == m.sweep_mod
            &&& n.pwm_mod == m.pwm_mod
            &&& n.cutoff_mod == m.cutoff_mod
            &&& ctx.pitch_lfo_sel == LfoSel::Off ==> lfo == fpu.mul(num(ZERO), ctx.pitch_lfo_depth)
            &&& ctx.pitch_env_sel == EnvSel::Off ==> env == fpu.mul(num(ZERO), ctx.pitch_env_depth)
        }),
{
}

/// A selector that is off contributes nothing, whatever the depth of its route: its product is
/// a zero, and a pitch whose selectors are both off is the wheel's part alone.
pub proof fn lemma_off_selector_gives_nothing<A: Fn(Op, Plain, Plain) -> Plain>(
    fpu: &Fpu<A>,
    ctx: &BlockCtx,
    s: &ModSources,
    lfo_depth: Plain,
    env_depth: Plain,
)
    requires
        fpu.keeps_units(),
        lfo_depth.is_number(),
        env_depth.is_number(),
        ctx.pitch_extra.is_number(),
    ensures
        fpu.mul(lfo_src(LfoSel::Off, s.lfo1, s.lfo2), lfo_depth).is_zero(),
        fpu.mul(env_src(EnvSel::Off, s.e1, s.e2), env_depth).is_zero(),
        ({
            let off = BlockCtx {
                pitch_lfo_sel: LfoSel::Off,
                pitch_lfo_depth: lfo_depth,
                pitch_env_sel: EnvSel::Off,
                pitch_env_depth: env_depth,
                ..*ctx
            };
            let m = resolve_mod(fpu, &off, s);
            m.pitch_mod.equals(ctx.pitch_extra) && m.pitch_mod_only.is_zero()
        }),
{
    let lfo = fpu.mul(num(ZERO), lfo_depth);
    let env = fpu.mul(num(ZERO), env_depth);
    let (l, e) = (share(lfo, !ctx.pitch_lfo_mod_only), share(env, !ctx.pitch_env_mod_only));
    let (k, f) = (share(lfo, ctx.pitch_lfo_mod_only), share(env, ctx.pitch_env_mod_only));
    fpu.lemma_total(seq![l, e, ctx.pitch_extra]);
    fpu.lemma_total(seq![k, f]);
    fpu.lemma_units_multiply(lfo_depth);
    fpu.lemma_units_multiply(env_depth);
    fpu.lemma_zero_adds(l, e);
    fpu.lemma_zero_adds(ctx.pitch_extra, fpu.add(l, e));
    fpu.lemma_zero_adds(k, f);
}

/// Where the additions that make up both pitches and their sum are off by `e` at most.
pub open spec fn pitches_add_within<A: Fn(Op, Plain, Plain) -> Plain>(
    fpu: &Fpu<A>,
    ctx: &BlockCtx,
    s: &ModSources,
    e: nat,
) -> bool {
    let lfo = fpu.mul(lfo_src(ctx.pitch_lfo_sel, s.lfo1, s.lfo2), ctx.pitch_lfo_depth);
    let env = fpu.mul(env_src(ctx.pitch_env_sel, s.e1, s.e2), ctx.pitch_env_depth);
    let l = share(lfo, !ctx.pitch_lfo_mod_only);
    let v = share(env, !ctx.pitch_env_mod_only);
    let m = resolve_mod(fpu, ctx, s);
    &&& fpu.adds_within(l, v, e)
    &&& fpu.adds_within(fpu.add(l, v), ctx.pitch_extra, e)
    &&& fpu.adds_within(
        share(lfo, ctx.pitch_lfo_mod_only),
        share(env, ctx.pitch_env_mod_only),
        e,
    )
    &&& fpu.adds_within(m.pitch_mod, m.pitch_mod_only, e)
}

/// Both pitches together are the same up to rounding, however the switches stand: eight
/// additions off by at most `e` each.
pub proof fn lemma_switch_keeps_the_sum<A: Fn(Op, Plain, Plain) -> Plain>(
    fpu: &Fpu<A>,
    ctx: &BlockCtx,
    s: &ModSources,
    lfo_only: bool,
    env_only: bool,
    e: nat,
)
    requires
        pitches_add_within(fpu, ctx, s, e),
        pitches_add_within(
            fpu,
            &(BlockCtx { pitch_lfo_mod_only: lfo_only, pitch_env_mod_only: env_only, ..*ctx }),
            s,
            e,
        ),
    ensures
        ({
            let switched = BlockCtx {
                pitch_lfo_mod_only: lfo_only,
                pitch_env_mod_only: env_only,
                ..*ctx
            };
            let (m, n) = (resolve_mod(fpu, ctx, s), resolve_mod(fpu, &switched, s));
            let x = fpu.add(m.pitch_mod, m.pitch_mod_only).scaled();
            let y = fpu.add(n.pitch_mod, n.pitch_mod_only).scaled();
            x - 8 * e <= y <= x + 8 * e
        }),
{
    let switched = BlockCtx {
        pitch_lfo_mod_only: lfo_only,
        pitch_env_mod_only: env_only,
        ..*ctx
    };
    lemma_sum_is_near(fpu, ctx, s, e);
    lemma_sum_is_near(fpu, &switched, s, e);
}

proof fn lemma_sum_is_near<A: Fn(Op, Plain, Plain) -> Plain>(
    fpu: &Fpu<A>,
    ctx: &BlockCtx,
    s: &ModSources,
    e: nat,
)
    requires
        pitches_add_within(fpu, ctx, s, e),
    ensures
        ({
            let lfo = fpu.mul(lfo_src(ctx.pitch_lfo_sel, s.lfo1, s.lfo2), ctx.pitch_lfo_depth);
            let env = fpu.mul(env_src(ctx.pitch_env_sel, s.e1, s.e2), ctx.pitch_env_depth);
            let exact = lfo.scaled() + env.scaled() + ctx.pitch_extra.scaled();
            let m = resolve_mod(fpu, ctx, s);
            exact - 4 * e <= fpu.add(m.pitch_mod, m.pitch_mod_only).scaled() <= exact + 4 * e
        }),
{
    let lfo = fpu.mul(lfo_src(ctx.pitch_lfo_sel, s.lfo1, s.lfo2), ctx.pitch_lfo_depth);
    let env = fpu.mul(env_src(ctx.pitch_env_sel, s.e1, s.e2), ctx.pitch_env_depth);
    let (l, v) = (share(lfo, !ctx.pitch_lfo_mod_only), share(env, !ctx.pitch_env_mod_only));
    let (k, f) = (share(lfo, ctx.pitch_lfo_mod_only), share(env, ctx.pitch_env_mod_only));
    fpu.lemma_total(seq![l, v, ctx.pitch_extra]);
    fpu.lemma_total(seq![k, f]);
    plain::lemma_zero_scaled(num(ZERO));
}

/// The note matters to the filter alone, and only with key tracking on.
pub proof fn lemma_note_moves_tracked_filter_only<A: Fn(Op, Plain, Plain) -> Plain>(
    fpu: &Fpu<A>,
    ctx: &BlockCtx,
    s: &ModSources,
    note: u8,
)
    ensures
        ({
            let (m, n) = (
                resolve_mod(fpu, ctx, s),
                resolve_mod(fpu, ctx, &(ModSources { note, ..*s })),
            );
            &&& m.pitch_mod == n.pitch_mod && m.pitch_mod_only == n.pitch_mod_only
            &&& m.pwm_mod == n.pwm_mod && m.sweep_mod == n.sweep_mod
            &&& !ctx.filter_key_track ==> m.cutoff_mod == n.cutoff_mod
        }),
{
}

pub open spec fn spec_mod_only_targets(t: CrossModType, m: Plain) -> (Plain, Plain) {
    (share(m, t is Sync), share(m, !(t is Sync)))
}

/// Where the modulating oscillator's pitch goes: under sync to oscillator 1, else to
/// oscillator 2, also where the oscillators do not interact.
#[verifier::when_used_as_spec(spec_mod_only_targets)]
pub fn mod_only_targets(t: CrossModType, m: Plain) -> (r: (Plain, Plain))
    ensures
        r == mod_only_targets(t, m),
{
    match t {
        CrossModType::Sync => (m, num(ZERO)),
        CrossModType::Off | CrossModType::Pm | CrossModType::Ring => (num(ZERO), m),
    }
}

pub open spec fn spec_sweep_targets(t: CrossModType, m: Plain) -> (Plain, Plain) {
    (share(m, !(t is Pm)), share(m, !(t is Sync)))
}

/// Where the modulation wheel's sweep goes: to the oscillator that the interaction sweeps,
/// or to both.
#[verifier::when_used_as_spec(spec_sweep_targets)]
pub fn sweep_targets(t: CrossModType, m: Plain) -> (r: (Plain, Plain))
    ensures
        r == sweep_targets(t, m),
{
    match t {
        CrossModType::Sync => (m, num(ZERO)),
        CrossModType::Pm => (num(ZERO), m),
        CrossModType::Off | CrossModType::Ring => (m, m),
    }
}

pub open spec fn spec_block_glide<A: Fn(Op, Plain, Plain) -> Plain>(
    fpu: &Fpu<A>,
    portamento_time: Plain,
    unison: bool,
    base_frames: usize,
    base_rate: Plain,
) -> (bool, Plain) {
    if portamento_time.at_most(num(ZERO)) {
        (false, num(ONE))
    } else {
        let glide_time = if unison {
            fpu.mul(portamento_time, num(F0_15))
        } else {
            portamento_time
        };
        let dt = fpu.div(Plain::from_index(base_frames), base_rate);
        (true, fpu.sub(num(ONE), fpu.exp(fpu.div(dt.neg(), glide_time))))
    }
}

/// The glide of a block: whether it is on, and how much of the way a voice goes. The
/// whole stack of a unison glides at once and so does it faster.
#[verifier::when_used_as_spec(spec_block_glide)]
pub fn block_glide<A: Fn(Op, Plain, Plain) -> Plain>(
    fpu: &Fpu<A>,
    portamento_time: Plain,
    unison: bool,
    base_frames: usize,
    base_rate: Plain,
) -> (r: (bool, Plain))
    requires
        fpu.valid(),
    ensures
        r == block_glide(fpu, portamento_time, unison, base_frames, base_rate),
{
    if portamento_time.at_most(num(ZERO)) {
        (false, num(ONE))
    } else {
        let glide_time = if unison {
            fpu.mul(portamento_time, num(F0_15))
        } else {
            portamento_time
        };
        let dt = fpu.div(Plain::from_index(base_frames), base_rate);
        (true, fpu.sub(num(ONE), fpu.exp(fpu.div(dt.neg(), glide_time))))
    }
}

/// A time of zero is no glide: voices snap to their notes.
pub proof fn lemma_no_time_no_glide<A: Fn(Op, Plain, Plain) -> Plain>(
    fpu: &Fpu<A>,
    unison: bool,
    base_frames: usize,
    base_rate: Plain,
)
    ensures
        block_glide(fpu, num(ZERO), unison, base_frames, base_rate) == (false, num(ONE)),
{
}

pub open spec fn spec_onset_gain<A: Fn(Op, Plain, Plain) -> Plain>(
    fpu: &Fpu<A>,
    t: Plain,
    delay: Plain,
    fade: Plain,
) -> Plain {
    if t.less(delay) {
        num(ZERO)
    } else if fade.at_most(num(ZERO)) {
        num(ONE)
    } else {
        fpu.div(fpu.sub(t, delay), fade).min(num(ONE))
    }
}

/// How far LFO 1 has faded in, `t` seconds after the note: nothing during the delay, then
/// up to one over the fade.
#[verifier::when_used_as_spec(spec_onset_gain)]
pub fn onset_gain<A: Fn(Op, Plain, Plain) -> Plain>(
    fpu: &Fpu<A>,
    t: Plain,
    delay: Plain,
    fade: Plain,
) -> (r: Plain)
    requires
        fpu.valid(),
    ensures
        r == onset_gain(fpu, t, delay, fade),
{
    if t.less(delay) {
        num(ZERO)
    } else if fade.at_most(num(ZERO)) {
        num(ONE)
    } else {
        fpu.div(fpu.sub(t, delay), fade).min(num(ONE))
    }
}

pub open spec fn spec_onset_advanced<A: Fn(Op, Plain, Plain) -> Plain>(
    fpu: &Fpu<A>,
    t: Plain,
    dt: Plain,
    cap: Plain,
) -> Plain {
    if t.less(cap) {
        fpu.add(t, dt).min(cap)
    } else {
        t
    }
}

/// The time since a note, `dt` seconds on, which stops at `cap`.
#[verifier::when_used_as_spec(spec_onset_advanced)]
pub fn onset_advanced<A: Fn(Op, Plain, Plain) -> Plain>(
    fpu: &Fpu<A>,
    t: Plain,
    dt: Plain,
    cap: Plain,
) -> (r: Plain)
    requires
        fpu.valid(),
    ensures
        r == onset_advanced(fpu, t, dt, cap),
{
    if t.less(cap) {
        fpu.add(t, dt).min(cap)
    } else {
        t
    }
}

/// With no delay and no fade, LFO 1 is at full depth from the first sample.
pub proof fn lemma_no_onset<A: Fn(Op, Plain, Plain) -> Plain>(fpu: &Fpu<A>, t: Plain)
    requires
        !t.is_nan(),
        !t.less(num(ZERO)),
    ensures
        onset_gain(fpu, t, num(ZERO), num(ZERO)) == num(ONE),
{
}

/// A total in which one part alone is more than nothing is that part.
proof fn lemma_part_alone<A: Fn(Op, Plain, Plain) -> Plain>(
    fpu: &Fpu<A>,
    parts: Seq<Plain>,
    i: int,
    x: Plain,
)
    requires
        fpu.rounds(),
        x.is_number(),
        0 <= i < parts.len(),
        forall|j: int| 0 <= j < parts.len() && j != i ==> (#[trigger] parts[j]).is_zero(),
        parts[i].equals(x),
    ensures
        fpu.total(parts).equals(x),
    decreases parts.len(),
{
    plain::lemma_zero_scaled(num(ZERO));
    if parts.len() > 1 {
        let rest = parts.drop_last();
        if i == parts.len() - 1 {
            lemma_part_alone(fpu, rest, 0, num(ZERO));
            assert(fpu.total(rest).is_zero());
            let t = fpu.total(rest);
            plain::lemma_zero_scaled(t);
            plain::lemma_equal_scaled(parts.last(), x);
            fpu.lemma_add_side(t, parts.last(), x);
        } else {
            lemma_part_alone(fpu, rest, i, x);
            let t = fpu.total(rest);
            plain::lemma_equal_scaled(t, x);
            plain::lemma_zero_scaled(parts.last());
            fpu.lemma_add_side(t, parts.last(), x);
        }
    }
}

/// The settings of a block with none of its cutoff routes turned up.
pub open spec fn cutoff_unrouted(ctx: BlockCtx) -> BlockCtx {
    BlockCtx {
        cutoff_lfo1_depth: num(ZERO),
        cutoff_lfo2_depth: num(ZERO),
        cutoff_env_depth: num(ZERO),
        cutoff_vel_depth: num(ZERO),
        filter_key_track: false,
        cutoff_extra: num(ZERO),
        ..ctx
    }
}

/// Each route of the cutoff moves it by its own source times its own depth: heard alone, that
/// product is all of the modulation, wherever it is a number. The keys move it by the semitones
/// from middle C, and the wheel by its part.
pub proof fn lemma_cutoff_routes<A: Fn(Op, Plain, Plain) -> Plain>(
    fpu: &Fpu<A>,
    ctx: BlockCtx,
    s: ModSources,
    depth: Plain,
    r: Plain,
)
    requires
        fpu.rounds(),
        s.lfo1.is_finite() && s.lfo2.is_finite() && s.e1.is_finite() && s.velocity.is_finite(),
        depth.is_number(),
        r.is_number(),
    ensures
        ({
            let none = cutoff_unrouted(ctx);
            let at = r.scaled() * plain::unit();
            &&& at == s.lfo1.scaled() * depth.scaled() ==> resolve_mod(
                fpu,
                &(BlockCtx { cutoff_lfo1_depth: depth, ..none }),
                &s,
            ).cutoff_mod.equals(r)
            &&& at == s.lfo2.scaled() * depth.scaled() ==> resolve_mod(
                fpu,
                &(BlockCtx { cutoff_lfo2_depth: depth, ..none }),
                &s,
            ).cutoff_mod.equals(r)
            &&& at == s.e1.scaled() * depth.scaled() ==> resolve_mod(
                fpu,
                &(BlockCtx { cutoff_env_depth: depth, ..none }),
                &s,
            ).cutoff_mod.equals(r)
            &&& at == s.velocity.scaled() * depth.scaled() ==> resolve_mod(
                fpu,
                &(BlockCtx { cutoff_vel_depth: depth, ..none }),
                &s,
            ).cutoff_mod.equals(r)
            &&& r.scaled() == (s.note - 60) * plain::unit() ==> resolve_mod(
                fpu,
                &(BlockCtx { filter_key_track: true, ..none }),
                &s,
            ).cutoff_mod.equals(r)
            &&& resolve_mod(
                fpu,
                &(BlockCtx { cutoff_extra: depth, ..none }),
                &s,
            ).cutoff_mod.equals(depth)
        }),
{
    let z = num(ZERO);
    fpu.lemma_none_of(s.lfo1, z);
    fpu.lemma_none_of(s.lfo2, z);
    fpu.lemma_none_of(s.e1, z);
    fpu.lemma_none_of(s.velocity, z);
    let (a, b) = (fpu.mul(s.lfo1, z), fpu.mul(s.lfo2, z));
    let (c, d) = (fpu.mul(s.e1, z), fpu.mul(s.velocity, z));
    fpu.lemma_mul_side(s.lfo1, depth, r);
    fpu.lemma_mul_side(s.lfo2, depth, r);
    fpu.lemma_mul_side(s.e1, depth, r);
    fpu.lemma_mul_side(s.velocity, depth, r);
    let at = r.scaled() * plain::unit();
    if at == s.lfo1.scaled() * depth.scaled() {
        lemma_part_alone(fpu, seq![fpu.mul(s.lfo1, depth), b, c, d, z, z], 0, r);
    }
    if at == s.lfo2.scaled() * depth.scaled() {
        lemma_part_alone(fpu, seq![a, fpu.mul(s.lfo2, depth), c, d, z, z], 1, r);
    }
    if at == s.e1.scaled() * depth.scaled() {
        lemma_part_alone(fpu, seq![a, b, fpu.mul(s.e1, depth), d, z, z], 2, r);
    }
    if at == s.velocity.scaled() * depth.scaled() {
        lemma_part_alone(fpu, seq![a, b, c, fpu.mul(s.velocity, depth), z, z], 3, r);
    }
    if r.scaled() == (s.note - 60) * plain::unit() {
        let note = Plain::from_int(s.note as i64);
        plain::lemma_count_exists(s.note as int);
        plain::lemma_exact_count(s.note as int);
        vstd::arithmetic::power2::lemma2_to64();
        plain::lemma_whole_value(F60, 60, 18);
        let u = plain::unit();
        let n = s.note as int;
        assert(n * u - 60 * u == (n - 60) * u) by (nonlinear_arith);
        fpu.lemma_sub_side(note, num(F60), r);
        lemma_part_alone(fpu, seq![a, b, c, d, fpu.sub(note, num(F60)), z], 4, r);
    }
    lemma_part_alone(fpu, seq![a, b, c, d, z, depth], 5, depth);
}

/// The settings of a block with none of its pitch routes turned up.
pub open spec fn pitch_unrouted(ctx: BlockCtx) -> BlockCtx {
    BlockCtx {
        pitch_lfo_depth: num(ZERO),
        pitch_env_depth: num(ZERO),
        pitch_extra: num(ZERO),
        pitch_lfo_mod_only: false,
        pitch_env_mod_only: false,
        ..ctx
    }
}

/// Each route of the pitch moves both oscillators by the source that it selects times its
/// depth, and by nothing of the other source; switched to the modulating oscillator it moves
/// that one as much and leaves the other. The pitch wheel moves both by its part.
pub proof fn lemma_pitch_routes<A: Fn(Op, Plain, Plain) -> Plain>(
    fpu: &Fpu<A>,
    ctx: BlockCtx,
    s: ModSources,
    depth: Plain,
    r: Plain,
)
    requires
        fpu.rounds(),
        s.lfo1.is_finite() && s.lfo2.is_finite() && s.e1.is_finite() && s.e2.is_finite(),
        depth.is_number(),
        r.is_number(),
    ensures
        ({
            let none = pitch_unrouted(ctx);
            let at = r.scaled() * plain::unit();
            let lfo = match ctx.pitch_lfo_sel {
                LfoSel::Off => 0,
                LfoSel::Lfo1 => s.lfo1.scaled(),
                LfoSel::Lfo2 => s.lfo2.scaled(),
            };
            let env = match ctx.pitch_env_sel {
                EnvSel::Off => 0,
                EnvSel::Env1 => s.e1.scaled(),
                EnvSel::Env2 => s.e2.scaled(),
            };
            let by_lfo = BlockCtx { pitch_lfo_depth: depth, ..none };
            let by_env = BlockCtx { pitch_env_depth: depth, ..none };
            let lfo_only = BlockCtx { pitch_lfo_mod_only: true, ..by_lfo };
            let env_only = BlockCtx { pitch_env_mod_only: true, ..by_env };
            &&& at == lfo * depth.scaled() ==> {
                &&& resolve_mod(fpu, &by_lfo, &s).pitch_mod.equals(r)
                &&& resolve_mod(fpu, &by_lfo, &s).pitch_mod_only.is_zero()
                &&& resolve_mod(fpu, &lfo_only, &s).pitch_mod_only.equals(r)
                &&& resolve_mod(fpu, &lfo_only, &s).pitch_mod.is_zero()
            }
            &&& at == env * depth.scaled() ==> {
                &&& resolve_mod(fpu, &by_env, &s).pitch_mod.equals(r)
                &&& resolve_mod(fpu, &by_env, &s).pitch_mod_only.is_zero()
                &&& resolve_mod(fpu, &env_only, &s).pitch_mod_only.equals(r)
                &&& resolve_mod(fpu, &env_only, &s).pitch_mod.is_zero()
            }
            &&& resolve_mod(
                fpu,
                &(BlockCtx { pitch_extra: depth, ..none }),
                &s,
            ).pitch_mod.equals(depth)
        }),
{
    let z = num(ZERO);
    plain::lemma_zero_scaled(z);
    let l = lfo_src(ctx.pitch_lfo_sel, s.lfo1, s.lfo2);
    let e = env_src(ctx.pitch_env_sel, s.e1, s.e2);
    fpu.lemma_none_of(l, z);
    fpu.lemma_none_of(e, z);
    let (x, y) = (fpu.mul(l, z), fpu.mul(e, z));
    fpu.lemma_mul_side(l, depth, r);
    fpu.lemma_mul_side(e, depth, r);
    let at = r.scaled() * plain::unit();
    if at == l.scaled() * depth.scaled() {
        lemma_part_alone(fpu, seq![fpu.mul(l, depth), y, z], 0, r);
        lemma_part_alone(fpu, seq![z, z], 0, z);
        lemma_part_alone(fpu, seq![fpu.mul(l, depth), z], 0, r);
        lemma_part_alone(fpu, seq![z, y, z], 0, z);
    }
    if at == e.scaled() * depth.scaled() {
        lemma_part_alone(fpu, seq![x, fpu.mul(e, depth), z], 1, r);
        lemma_part_alone(fpu, seq![z, z], 0, z);
        lemma_part_alone(fpu, seq![z, fpu.mul(e, depth)], 1, r);
        lemma_part_alone(fpu, seq![x, z, z], 1, z);
    }
    lemma_part_alone(fpu, seq![x, y, depth], 2, depth);
}

/// The settings of a block with none of its pulse-width routes turned up.
pub open spec fn pwm_unrouted(ctx: BlockCtx) -> BlockCtx {
    BlockCtx {
        pwm_lfo_depth: num(ZERO),
        pwm_env_depth: num(ZERO),
        pwm_extra: num(ZERO),
        ..ctx
    }
}

/// Each route of the pulse width moves it by the source that it selects times its depth, and
/// the wheel by its part.
pub proof fn lemma_pwm_routes<A: Fn(Op, Plain, Plain) -> Plain>(
    fpu: &Fpu<A>,
    ctx: BlockCtx,
    s: ModSources,
    depth: Plain,
    r: Plain,
)
    requires
        fpu.rounds(),
        s.lfo1.is_finite() && s.lfo2.is_finite() && s.e1.is_finite() && s.e2.is_finite(),
        depth.is_number(),
        r.is_number(),
    ensures
        ({
            let none = pwm_unrouted(ctx);
            let at = r.scaled() * plain::unit();
            let lfo = match ctx.pwm_lfo_sel {
                LfoSel::Off => 0,
                LfoSel::Lfo1 => s.lfo1.scaled(),
                LfoSel::Lfo2 => s.lfo2.scaled(),
            };
            let env = match ctx.pwm_env_sel {
                EnvSel::Off => 0,
                EnvSel::Env1 => s.e1.scaled(),
                EnvSel::Env2 => s.e2.scaled(),
            };
            &&& at == lfo * depth.scaled() ==> resolve_mod(
                fpu,
                &(BlockCtx { pwm_lfo_depth: depth, ..none }),
                &s,
            ).pwm_mod.equals(r)
            &&& at == env * depth.scaled() ==> resolve_mod(
                fpu,
                &(BlockCtx { pwm_env_depth: depth, ..none }),
                &s,
            ).pwm_mod.equals(r)
            &&& resolve_mod(fpu, &(BlockCtx { pwm_extra: depth, ..none }), &s).pwm_mod.equals(depth)
        }),
{
    let z = num(ZERO);
    plain::lemma_zero_scaled(z);
    let l = lfo_src(ctx.pwm_lfo_sel, s.lfo1, s.lfo2);
    let e = env_src(ctx.pwm_env_sel, s.e1, s.e2);
    fpu.lemma_none_of(l, z);
    fpu.lemma_none_of(e, z);
    let (x, y) = (fpu.mul(l, z), fpu.mul(e, z));
    fpu.lemma_mul_side(l, depth, r);
    fpu.lemma_mul_side(e, depth, r);
    let at = r.scaled() * plain::unit();
    if at == l.scaled() * depth.scaled() {
        lemma_part_alone(fpu, seq![fpu.mul(l, depth), y, z], 0, r);
    }
    if at == e.scaled() * depth.scaled() {
        lemma_part_alone(fpu, seq![x, fpu.mul(e, depth), z], 1, r);
    }
    lemma_part_alone(fpu, seq![x, y, depth], 2, depth);
}

/// The amplifier of a voice: nothing where the voice is idle; with the envelope bypassed, all
/// while the key is held and nothing after; else the level of the envelope, but never below
/// nothing.
pub proof fn lemma_amplifier(
    active: bool,
    gate: bool,
    bypass: bool,
    level: Plain,
)
    requires
        !level.is_nan(),
    ensures
        ({
            let a = amp_base(active, gate, bypass, level);
            &&& a == num(ZERO) || active
            &&& active && bypass ==> (a == num(ONE)) == gate && (a == num(ZERO)) == !gate
            &&& active && !bypass && num(ZERO).at_most(level) ==> a == level
            &&& num(ZERO).at_most(a)
        }),
{
}

/// LFO 1 sets in as a ramp: nothing through the delay, all once the fade has passed, and never
/// less later.
pub proof fn lemma_onset_ramp<A: Fn(Op, Plain, Plain) -> Plain>(
    fpu: &Fpu<A>,
    early: Plain,
    late: Plain,
    delay: Plain,
    fade: Plain,
)
    requires
        fpu.rounds(),
        early.is_finite() && late.is_finite() && delay.is_finite() && fade.is_finite(),
        early.at_most(late),
        fpu.sub(early, delay).is_finite() && fpu.sub(late, delay).is_finite(),
    ensures
        early.less(delay) ==> onset_gain(fpu, early, delay, fade) == num(ZERO),
        delay.at_most(late) && delay.scaled() + fade.scaled() <= late.scaled() && fade.is_number()
            ==> onset_gain(fpu, late, delay, fade) == num(ONE),
        onset_gain(fpu, early, delay, fade).at_most(onset_gain(fpu, late, delay, fade)),
        onset_gain(fpu, late, delay, fade).at_most(num(ONE)),
        forall|h: Plain|
            #![trigger h.is_number()]
            h.is_number() && 0 <= h.scaled() <= plain::unit() && num(ZERO).less(fade)
                && delay.at_most(early) && fpu.sub(early, delay).scaled() * plain::unit()
                == h.scaled() * fade.scaled() ==> onset_gain(fpu, early, delay, fade).equals(h),
{
    plain::lemma_small_values();
    let u = plain::unit();
    plain::lemma_equal_scaled(early, late);
    plain::lemma_equal_scaled(delay, early);
    plain::lemma_equal_scaled(delay, late);
    plain::lemma_equal_scaled(num(ZERO), fade);
    let (a, b) = (fpu.sub(early, delay), fpu.sub(late, delay));
    fpu.lemma_sub_order(early, delay, late, delay);
    plain::lemma_equal_scaled(a, b);
    fpu.lemma_sub_side(early, delay, num(ZERO));
    fpu.lemma_sub_side(late, delay, num(ZERO));
    plain::lemma_equal_scaled(num(ZERO), a);
    plain::lemma_equal_scaled(num(ZERO), b);
    if num(ZERO).less(fade) {
        let (s, t, f) = (a.scaled(), b.scaled(), fade.scaled());
        assert(s * f <= t * f && 0 * f == 0) by (nonlinear_arith)
            requires
                s <= t,
                f > 0,
        ;
        fpu.lemma_div_order(a, fade, b, fade);
        if delay.at_most(late) {
            assert(t * u >= 0) by (nonlinear_arith)
                requires
                    t >= 0,
                    u > 0,
            ;
            fpu.lemma_div_side(b, fade, num(ZERO));
        }
        if delay.scaled() + f <= late.scaled() && fade.is_number() {
            fpu.lemma_sub_side(late, delay, fade);
            plain::lemma_equal_scaled(fade, b);
            assert(u * f <= t * u) by (nonlinear_arith)
                requires
                    f <= t,
                    u > 0,
            ;
            fpu.lemma_div_side(b, fade, num(ONE));
        }
        assert forall|h: Plain|
            #![trigger h.is_number()]
            h.is_number() && 0 <= h.scaled() <= plain::unit() && num(ZERO).less(fade)
                && delay.at_most(early) && fpu.sub(early, delay).scaled() * plain::unit()
                == h.scaled() * fade.scaled() implies onset_gain(fpu, early, delay, fade).equals(
            h,
        ) by {
            fpu.lemma_div_side(a, fade, h);
            plain::lemma_equal_scaled(h, num(ONE));
        }
    }
}

/// The time since a note moves on by the step and stops at its cap.
pub proof fn lemma_onset_clock<A: Fn(Op, Plain, Plain) -> Plain>(
    fpu: &Fpu<A>,
    t: Plain,
    dt: Plain,
    cap: Plain,
    r: Plain,
)
    requires
        fpu.rounds(),
        t.is_finite() && dt.is_finite() && cap.is_finite(),
        r.is_number(),
        r.scaled() == t.scaled() + dt.scaled(),
        t.less(cap),
    ensures
        r.at_most(cap) ==> onset_advanced(fpu, t, dt, cap).equals(r),
        cap.at_most(r) ==> onset_advanced(fpu, t, dt, cap).equals(cap),
{
    fpu.lemma_add_side(t, dt, r);
}

/// Where the part of the modulating oscillator goes, and the sweep of the wheel: under sync
/// oscillator 1 is modulated and swept, and oscillator 2 sets the period; under phase modulation
/// it is the other way round; else both are swept. No oscillator takes more than all of it.
pub proof fn lemma_targets(t: CrossModType, m: Plain)
    ensures
        ({
            let (a, b) = mod_only_targets(t, m);
            let (x, y) = sweep_targets(t, m);
            &&& t == CrossModType::Sync ==> a == m && b == num(ZERO) && x == m && y == num(ZERO)
            &&& t == CrossModType::Pm ==> a == num(ZERO) && b == m && x == num(ZERO) && y == m
            &&& t == CrossModType::Ring || t == CrossModType::Off ==> a == num(ZERO) && b == m && x
                == m && y == m
        }),
{
}

/// A glide goes some of the way to its note in a block, more in a longer block or with a
/// shorter time, so long as the unit keeps the order of the two exponentials.
pub proof fn lemma_glide_speeds<A: Fn(Op, Plain, Plain) -> Plain>(
    fpu: &Fpu<A>,
    short: Plain,
    long: Plain,
    unison: bool,
    base_frames: usize,
    base_rate: Plain,
)
    requires
        fpu.rounds(),
        short.is_finite() && long.is_finite(),
        num(ZERO).less(short) && short.at_most(long),
        !unison,
        ({
            let dt = fpu.div(Plain::from_index(base_frames), base_rate);
            let (a, b) = (
                fpu.exp(fpu.div(dt.neg(), short)),
                fpu.exp(fpu.div(dt.neg(), long)),
            );
            &&& dt.is_finite() && dt.scaled() >= 0
            &&& a.is_finite() && b.is_finite()
            &&& fpu.div(dt.neg(), short).at_most(fpu.div(dt.neg(), long)) ==> a.at_most(b)
        }),
    ensures
        block_glide(fpu, long, unison, base_frames, base_rate).0,
        block_glide(fpu, long, unison, base_frames, base_rate).1.at_most(
            block_glide(fpu, short, unison, base_frames, base_rate).1,
        ),
{
    plain::lemma_small_values();
    let dt = fpu.div(Plain::from_index(base_frames), base_rate);
    plain::lemma_equal_scaled(num(ZERO), short);
    plain::lemma_equal_scaled(short, long);
    plain::lemma_neg_scaled(dt);
    let (d, s, l) = (dt.scaled(), short.scaled(), long.scaled());
    assert((-d) * l <= (-d) * s) by (nonlinear_arith)
        requires
            d >= 0,
            s <= l,
    ;
    fpu.lemma_div_order(dt.neg(), short, dt.neg(), long);
    let (a, b) = (fpu.exp(fpu.div(dt.neg(), short)), fpu.exp(fpu.div(dt.neg(), long)));
    plain::lemma_equal_scaled(a, b);
    fpu.lemma_sub_order(num(ONE), b, num(ONE), a);
}

} // verus!
