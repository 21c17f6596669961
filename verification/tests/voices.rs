//! Voice allocation, the modulation routes and the control-block helpers.
use vxn1::adsr::{AdsrCore, AdsrStage};
use vxn1::assign::AllocView;
use vxn1::choices::{AssignMode, CrossModType, EnvSel, LfoSel};
use vxn1::fpu::{Fpu, Op};
use vxn1::lfo::LfoShape;
use vxn1::modulation::{BlockCtx, ModSources};
use vxn1::noise::NoiseColor;
use vxn1::oscillator::Waveform;
use vxn1::plain::Plain;
use vxn1::poly::{FilterMode, FilterSlope};
use vxn1::voice::VoiceBank;
use vxn1::{assign, modulation, render};

type Unit = Fpu<fn(Op, Plain, Plain) -> Plain>;

/// Hardware arithmetic, with results too small to be normal flushed to zero.
fn hardware(op: Op, a: Plain, b: Plain) -> Plain {
    let x = f32::from_bits(a.bits);
    let y = f32::from_bits(b.bits);
    let r = match op {
        Op::Add => x + y,
        Op::Subtract => x - y,
        Op::Multiply => x * y,
        Op::Divide => x / y,
        Op::Power => x.powf(y),
        Op::SquareRoot => x.sqrt(),
        Op::Exponential => x.exp(),
        Op::Logarithm => x.ln(),
        Op::Sine => x.sin(),
        Op::Cosine => x.cos(),
        Op::Tangent => x.tan(),
    };
    if r.is_nan() {
        Plain { bits: 0x7fc0_0000 }
    } else if r.is_subnormal() {
        Plain { bits: r.to_bits() & 0x8000_0000 }
    } else {
        Plain { bits: r.to_bits() }
    }
}

fn unit() -> Unit {
    Fpu { alu: hardware }
}

fn plain(x: f32) -> Plain {
    Plain { bits: x.to_bits() }
}

fn float(x: Plain) -> f32 {
    f32::from_bits(x.bits)
}

const N: usize = 8;

#[derive(Clone, Copy)]
struct Assign {
    channel: usize,
    detune_cents: f32,
    start_phase: f32,
}

struct Plan {
    assigns: [Assign; N],
    len: usize,
    level_comp: f32,
    unison: bool,
}

impl Plan {
    fn iter(&self) -> std::slice::Iter<'_, Assign> {
        self.assigns[..self.len].iter()
    }
}

fn plan(mode: AssignMode, note: u8, detune: f32, st: AllocView, rng: &mut u64) -> Plan {
    let p = assign::plan(&unit(), mode, note, plain(detune), &st, rng);
    Plan {
        assigns: p.assigns.map(|a| Assign {
            channel: a.channel,
            detune_cents: float(a.detune_cents),
            start_phase: float(a.start_phase),
        }),
        len: p.len,
        level_comp: float(p.level_comp),
        unison: p.unison,
    }
}

fn allocate_one(note: u8, st: AllocView) -> usize {
    assign::allocate_one(&unit(), note, &st)
}

fn allocate_pair(note: u8, st: AllocView) -> (usize, usize) {
    assign::allocate_pair(&unit(), note, &st)
}

struct ModOut {
    pitch_mod: f32,
    pitch_mod_only: f32,
    sweep_mod: f32,
    pwm_mod: f32,
    cutoff_mod: f32,
}

fn resolve_mod(ctx: &BlockCtx, s: &ModSources) -> ModOut {
    let m = modulation::resolve_mod(&unit(), ctx, s);
    ModOut {
        pitch_mod: float(m.pitch_mod),
        pitch_mod_only: float(m.pitch_mod_only),
        sweep_mod: float(m.sweep_mod),
        pwm_mod: float(m.pwm_mod),
        cutoff_mod: float(m.cutoff_mod),
    }
}

fn block_glide(time: f32, unison: bool, frames: usize, rate: f32) -> (bool, f32) {
    let (on, coeff) = modulation::block_glide(&unit(), plain(time), unison, frames, plain(rate));
    (on, float(coeff))
}

fn envelopes_static(
    trig: &[bool; N],
    active: &[bool; N],
    gate: &[bool; N],
    env1: &[AdsrCore; N],
    env2: &[AdsrCore; N],
) -> bool {
    let mut channels = VoiceBank::new(&unit(), plain(48_000.0), 1).channels;
    for v in 0..N {
        channels[v].active = active[v];
        channels[v].gate = gate[v];
        channels[v].env1 = env1[v];
        channels[v].env2 = env2[v];
    }
    render::envelopes_static(trig, &channels)
}

/// Bookkeeping for a view; mutate fields then call `.view()`.
struct St {
    active: [bool; N],
    note: [u8; N],
    glide_semi: [f32; N],
    alloc_tick: [u64; N],
}

impl St {
    /// Empty layer: nothing active, every channel "free at pitch 0", tick 0.
    fn empty() -> Self {
        St {
            active: [false; N],
            note: [0; N],
            glide_semi: [0.0; N],
            alloc_tick: [0; N],
        }
    }

    fn view(&self) -> AllocView {
        AllocView {
            active: self.active,
            note: self.note,
            glide_semi: self.glide_semi.map(plain),
            alloc_tick: self.alloc_tick,
        }
    }
}

#[test]
fn poly_plan_is_one_undetuned_channel() {
    let st = St::empty();
    let p = plan(AssignMode::Poly, 60, 25.0, st.view(), &mut 1);
    assert_eq!(p.len, 1);
    assert_eq!(p.assigns[0].detune_cents, 0.0);
    assert_eq!(p.assigns[0].start_phase, 0.0);
    assert_eq!(p.level_comp, 1.0);
    assert!(!p.unison);
}

#[test]
fn poly_reuses_channel_already_on_note() {
    let mut st = St::empty();
    st.active[5] = true;
    st.note[5] = 60;
    assert_eq!(allocate_one(60, st.view()), 5);
}

#[test]
fn poly_picks_nearest_free_by_glide() {
    let mut st = St::empty();
    // Channel 3's glide source sits closest to the new note (62).
    st.glide_semi = [10.0; N];
    st.glide_semi[3] = 61.0;
    assert_eq!(allocate_one(62, st.view()), 3);
}

#[test]
fn poly_steals_oldest_when_full() {
    let mut st = St::empty();
    st.active = [true; N];
    // All on other notes (no reuse), none free → steal lowest alloc_tick.
    for v in 0..N {
        st.note[v] = 40 + v as u8;
        st.alloc_tick[v] = 100 + v as u64;
    }
    st.alloc_tick[6] = 1; // oldest
    assert_eq!(allocate_one(72, st.view()), 6);
}

#[test]
fn unison_stacks_all_channels_symmetric() {
    let st = St::empty();
    let detune = 20.0;
    let mut rng = 0x1234_5678u64;
    let p = plan(AssignMode::Unison, 60, detune, st.view(), &mut rng);
    assert_eq!(p.len, N);
    assert!(p.unison);
    assert!((p.level_comp - 1.0 / (N as f32).sqrt()).abs() < 1e-6);
    // Every channel used exactly once, in order.
    for v in 0..N {
        assert_eq!(p.assigns[v].channel, v);
    }
    // Detune fans out symmetrically: ends at ∓detune, midpoint ~0.
    assert!((p.assigns[0].detune_cents + detune).abs() < 1e-6);
    assert!((p.assigns[N - 1].detune_cents - detune).abs() < 1e-6);
    let sum: f32 = p.iter().map(|a| a.detune_cents).sum();
    assert!(sum.abs() < 1e-4, "spread should sum ~0, got {sum}");
    // Start phases are random in [0, 1) and decorrelated (not all equal).
    assert!(p.iter().all(|a| (0.0..1.0).contains(&a.start_phase)));
    let phases: Vec<f32> = p.iter().map(|a| a.start_phase).collect();
    assert!(
        phases.windows(2).any(|w| w[0] != w[1]),
        "random phases should vary, got {phases:?}"
    );
}

#[test]
fn solo_keeps_one_channel_when_nothing_active() {
    let st = St::empty();
    let p = plan(AssignMode::Solo, 60, 25.0, st.view(), &mut 1);
    assert_eq!(p.len, 1);
    assert_eq!(p.assigns[0].channel, 0);
    assert_eq!(p.assigns[0].detune_cents, 0.0);
    assert_eq!(p.level_comp, 1.0);
    assert!(!p.unison);
}

#[test]
fn solo_pins_to_channel_zero_regardless_of_active_channels() {
    let mut st = St::empty();
    // Even with another channel sounding (e.g. a tail from a prior chord), Solo
    // is pinned to channel 0 so the mono voice is deterministic and every other
    // channel is left to be quiesced by the bank.
    st.active[4] = true;
    st.note[4] = 48;
    let p = plan(AssignMode::Solo, 72, 0.0, st.view(), &mut 1);
    assert_eq!(p.assigns[0].channel, 0);
}

#[test]
fn twin_uses_two_distinct_channels_spread_and_decorrelated() {
    let st = St::empty();
    let detune = 18.0;
    let p = plan(AssignMode::Twin, 60, detune, st.view(), &mut 1);
    assert_eq!(p.len, 2);
    assert!(p.unison);
    assert!((p.level_comp - 1.0 / 2f32.sqrt()).abs() < 1e-6);
    let (a, b) = (p.assigns[0], p.assigns[1]);
    assert_ne!(a.channel, b.channel, "pair must be distinct channels");
    // Opposite ends of the detune fan; phases decorrelated.
    assert!((a.detune_cents + detune).abs() < 1e-6);
    assert!((b.detune_cents - detune).abs() < 1e-6);
    assert_ne!(a.start_phase, b.start_phase);
}

#[test]
fn twin_reuses_both_channels_already_on_note() {
    let mut st = St::empty();
    // A Twin pair (channels 2 and 5) is already sounding this note.
    st.active[2] = true;
    st.note[2] = 64;
    st.active[5] = true;
    st.note[5] = 64;
    let (a, b) = allocate_pair(64, st.view());
    let mut pair = [a, b];
    pair.sort_unstable();
    assert_eq!(pair, [2, 5]);
}

#[test]
fn twin_steals_two_distinct_oldest_when_full() {
    let mut st = St::empty();
    st.active = [true; N];
    for v in 0..N {
        st.note[v] = 40 + v as u8; // no reuse for the new note
        st.alloc_tick[v] = 100 + v as u64;
    }
    st.alloc_tick[3] = 1; // oldest
    st.alloc_tick[7] = 2; // next oldest
    let (a, b) = allocate_pair(80, st.view());
    let mut pair = [a, b];
    pair.sort_unstable();
    assert_eq!(pair, [3, 7]);
}

/// Neutral block context: every route Off, every depth / extra 0, key-track
/// off. Non-route fields (waveforms, cutoff, …) carry harmless placeholders —
/// `resolve_mod` never reads them. Tests mutate only what they assert via
/// `ctx_with`, so the route under test isn't buried in fixture noise.
fn neutral_ctx() -> BlockCtx {
    BlockCtx {
        os_sample_rate: plain(48_000.0),
        os: 1,
        osc1_wave: Waveform::Saw,
        osc2_wave: Waveform::Saw,
        osc1_level: plain(1.0),
        osc2_level: plain(1.0),
        sub_level: plain(0.0),
        ring_mode: false,
        noise_level: plain(0.0),
        noise_color: NoiseColor::White,
        osc1_pw: plain(0.5),
        osc2_pw: plain(0.5),
        osc1_semi: plain(0.0),
        osc2_semi: plain(0.0),
        cutoff: plain(1_000.0),
        hpf_cutoff: plain(20.0),
        resonance: plain(0.0),
        drive: plain(1.0),
        filter_mode: FilterMode::Lp,
        filter_slope: FilterSlope::Pole4,
        base_semis: plain(0.0),
        lfo1_shape: LfoShape::Sine,
        lfo1_rate_hz: plain(1.0),
        lfo1_delay_time: plain(0.0),
        lfo1_fade: plain(0.0),
        lfo2_val: plain(0.0),
        sync: false,
        pm_index: plain(0.0),
        cross_mod_type: CrossModType::Off,
        portamento_time: plain(0.0),
        pitch_lfo_sel: LfoSel::Off,
        pitch_lfo_depth: plain(0.0),
        pitch_lfo_mod_only: false,
        pitch_env_sel: EnvSel::Off,
        pitch_env_depth: plain(0.0),
        pitch_env_mod_only: false,
        pitch_extra: plain(0.0),
        pwm_lfo_sel: LfoSel::Off,
        pwm_lfo_depth: plain(0.0),
        pwm_env_sel: EnvSel::Off,
        pwm_env_depth: plain(0.0),
        pwm_extra: plain(0.0),
        cutoff_lfo1_depth: plain(0.0),
        cutoff_lfo2_depth: plain(0.0),
        cutoff_env_depth: plain(0.0),
        cutoff_vel_depth: plain(0.0),
        cutoff_extra: plain(0.0),
        filter_key_track: false,
        sweep_extra: plain(0.0),
        amp_lfo_sel: LfoSel::Off,
        amp_lfo_depth: plain(0.0),
        amp_env_bypass: false,
    }
}

fn ctx_with(f: impl FnOnce(&mut BlockCtx)) -> BlockCtx {
    let mut c = neutral_ctx();
    f(&mut c);
    c
}

/// Plain sources: env levels, LFO values, velocity and note all explicit.
fn src(e1: f32, e2: f32, lfo1: f32, lfo2: f32, velocity: f32, note: u8) -> ModSources {
    ModSources {
        e1: plain(e1),
        e2: plain(e2),
        lfo1: plain(lfo1),
        lfo2: plain(lfo2),
        velocity: plain(velocity),
        note,
    }
}

#[test]
fn all_off_resolves_to_zero() {
    let ctx = neutral_ctx();
    let m = resolve_mod(&ctx, &src(1.0, 1.0, 1.0, 1.0, 1.0, 72));
    assert_eq!(m.pitch_mod, 0.0);
    assert_eq!(m.sweep_mod, 0.0);
    assert_eq!(m.pwm_mod, 0.0);
    assert_eq!(m.cutoff_mod, 0.0);
}

#[test]
fn off_selector_ignores_its_source() {
    // Depth set, but selector Off → source must not leak through.
    let ctx = ctx_with(|c| {
        c.pitch_lfo_sel = LfoSel::Off;
        c.pitch_lfo_depth = plain(5.0);
    });
    let m = resolve_mod(&ctx, &src(0.0, 0.0, 1.0, 1.0, 0.0, 60));
    assert_eq!(m.pitch_mod, 0.0);
}

#[test]
fn pitch_route_picks_selected_lfo_and_scales_by_depth() {
    let lfo1 = ctx_with(|c| {
        c.pitch_lfo_sel = LfoSel::Lfo1;
        c.pitch_lfo_depth = plain(2.0);
    });
    // LFO1 = 0.5 → +1 st; LFO2 (= 0.9) must be ignored under the Lfo1 selector.
    let m = resolve_mod(&lfo1, &src(0.0, 0.0, 0.5, 0.9, 0.0, 60));
    assert!((m.pitch_mod - 1.0).abs() < 1e-6);

    let lfo2 = ctx_with(|c| {
        c.pitch_lfo_sel = LfoSel::Lfo2;
        c.pitch_lfo_depth = plain(2.0);
    });
    let m = resolve_mod(&lfo2, &src(0.0, 0.0, 0.5, 0.9, 0.0, 60));
    assert!((m.pitch_mod - 1.8).abs() < 1e-6);
}

#[test]
fn pitch_route_sums_lfo_env_and_wheel_extra() {
    let ctx = ctx_with(|c| {
        c.pitch_lfo_sel = LfoSel::Lfo1;
        c.pitch_lfo_depth = plain(2.0); // 0.5 → +1.0
        c.pitch_env_sel = EnvSel::Env1;
        c.pitch_env_depth = plain(3.0); // 0.5 → +1.5
        c.pitch_extra = plain(0.25); // pitch wheel
    });
    let m = resolve_mod(&ctx, &src(0.5, 0.0, 0.5, 0.0, 0.0, 60));
    assert!((m.pitch_mod - 2.75).abs() < 1e-6);
}

#[test]
fn sweep_route_is_mod_wheel_only_independent_of_common_pitch() {
    let ctx = ctx_with(|c| {
        c.sweep_extra = plain(1.0);
        c.pitch_lfo_sel = LfoSel::Lfo1; // common-pitch route must not bleed in
        c.pitch_lfo_depth = plain(10.0);
    });
    let m = resolve_mod(&ctx, &src(0.0, 0.5, 1.0, 0.0, 0.0, 60));
    assert!((m.sweep_mod - 1.0).abs() < 1e-6);
}

#[test]
fn pitch_env_mod_only_diverts_env_to_modulator_channel() {
    // Toggle off: env joins the common pitch channel (both oscs).
    let common = ctx_with(|c| {
        c.pitch_env_sel = EnvSel::Env1;
        c.pitch_env_depth = plain(4.0); // 0.5 → +2 st
        c.pitch_env_mod_only = false;
    });
    let m = resolve_mod(&common, &src(0.5, 0.0, 0.0, 0.0, 0.0, 60));
    assert!((m.pitch_mod - 2.0).abs() < 1e-6);
    assert_eq!(m.pitch_mod_only, 0.0);
    // Toggle on: env leaves common-pitch and rides the mod-only channel;
    // the per-mode osc routing is applied downstream in render_block.
    let mod_only = ctx_with(|c| {
        c.pitch_env_sel = EnvSel::Env1;
        c.pitch_env_depth = plain(4.0);
        c.pitch_env_mod_only = true;
    });
    let m = resolve_mod(&mod_only, &src(0.5, 0.0, 0.0, 0.0, 0.0, 60));
    assert_eq!(m.pitch_mod, 0.0);
    assert!((m.pitch_mod_only - 2.0).abs() < 1e-6);
}

#[test]
fn pitch_lfo_mod_only_diverts_lfo_to_modulator_channel() {
    // Toggle off: LFO joins the common pitch channel (both oscs).
    let common = ctx_with(|c| {
        c.pitch_lfo_sel = LfoSel::Lfo1;
        c.pitch_lfo_depth = plain(2.0); // 0.5 → +1 st
        c.pitch_lfo_mod_only = false;
    });
    let m = resolve_mod(&common, &src(0.0, 0.0, 0.5, 0.0, 0.0, 60));
    assert!((m.pitch_mod - 1.0).abs() < 1e-6);
    assert_eq!(m.pitch_mod_only, 0.0);
    // Toggle on: LFO rides the mod-only channel; the cross-mod target is
    // applied downstream in `render_block`.
    let mod_only = ctx_with(|c| {
        c.pitch_lfo_sel = LfoSel::Lfo1;
        c.pitch_lfo_depth = plain(2.0);
        c.pitch_lfo_mod_only = true;
    });
    let m = resolve_mod(&mod_only, &src(0.0, 0.0, 0.5, 0.0, 0.0, 60));
    assert_eq!(m.pitch_mod, 0.0);
    assert!((m.pitch_mod_only - 1.0).abs() < 1e-6);
}

#[test]
fn pitch_mod_only_sums_env_and_lfo() {
    // Both mod-only switches on: the channel carries env + LFO contributions
    // summed; pitch wheel still rides the common channel.
    let ctx = ctx_with(|c| {
        c.pitch_lfo_sel = LfoSel::Lfo1;
        c.pitch_lfo_depth = plain(2.0); // 0.5 → +1
        c.pitch_lfo_mod_only = true;
        c.pitch_env_sel = EnvSel::Env1;
        c.pitch_env_depth = plain(4.0); // 0.5 → +2
        c.pitch_env_mod_only = true;
        c.pitch_extra = plain(0.25);
    });
    let m = resolve_mod(&ctx, &src(0.5, 0.0, 0.5, 0.0, 0.0, 60));
    assert!((m.pitch_mod_only - 3.0).abs() < 1e-6);
    assert!((m.pitch_mod - 0.25).abs() < 1e-6); // wheel only
}

#[test]
fn cutoff_velocity_route() {
    let ctx = ctx_with(|c| c.cutoff_vel_depth = plain(24.0));
    let m = resolve_mod(&ctx, &src(0.0, 0.0, 0.0, 0.0, 0.5, 60));
    assert!((m.cutoff_mod - 12.0).abs() < 1e-6);
}

#[test]
fn cutoff_keytrack_pivots_at_c4_one_octave_per_octave() {
    let ctx = ctx_with(|c| c.filter_key_track = true);
    assert_eq!(
        resolve_mod(&ctx, &src(0.0, 0.0, 0.0, 0.0, 0.0, 60)).cutoff_mod,
        0.0
    );
    assert_eq!(
        resolve_mod(&ctx, &src(0.0, 0.0, 0.0, 0.0, 0.0, 72)).cutoff_mod,
        12.0
    );
    assert_eq!(
        resolve_mod(&ctx, &src(0.0, 0.0, 0.0, 0.0, 0.0, 48)).cutoff_mod,
        -12.0
    );
}

#[test]
fn keytrack_off_ignores_note() {
    let ctx = neutral_ctx(); // key-track off
    assert_eq!(
        resolve_mod(&ctx, &src(0.0, 0.0, 0.0, 0.0, 0.0, 96)).cutoff_mod,
        0.0
    );
}

#[test]
fn negative_depth_inverts_route() {
    let ctx = ctx_with(|c| {
        c.pwm_lfo_sel = LfoSel::Lfo2;
        c.pwm_lfo_depth = plain(-0.4);
    });
    let m = resolve_mod(&ctx, &src(0.0, 0.0, 0.0, 1.0, 0.0, 60));
    assert!((m.pwm_mod + 0.4).abs() < 1e-6);
}

#[test]
fn routes_are_independent_no_cross_talk() {
    // Every route wired to a distinct source; each destination must reflect
    // only its own selection.
    let ctx = ctx_with(|c| {
        c.pitch_lfo_sel = LfoSel::Lfo1;
        c.pitch_lfo_depth = plain(1.0);
        c.pwm_env_sel = EnvSel::Env1;
        c.pwm_env_depth = plain(1.0);
        c.cutoff_lfo2_depth = plain(1.0); // fixed LFO 2 → cutoff
    });
    let m = resolve_mod(&ctx, &src(0.3, 0.0, 0.7, 0.2, 0.0, 60));
    assert!((m.pitch_mod - 0.7).abs() < 1e-6);
    assert!((m.pwm_mod - 0.3).abs() < 1e-6);
    assert!((m.cutoff_mod - 0.2).abs() < 1e-6);
    assert_eq!(m.sweep_mod, 0.0);
}

#[test]
fn glide_zero_time_snaps() {
    // Time 0 is glide off (no separate on/off), and never a divide-by-zero.
    assert_eq!(block_glide(0.0, false, 64, 48_000.0), (false, 1.0));
}

#[test]
fn glide_coeff_is_block_size_independent() {
    // Same wall-clock duration via different (frames, rate) pairs → same coeff.
    let (_, a) = block_glide(0.2, false, 64, 48_000.0);
    let (_, b) = block_glide(0.2, false, 32, 24_000.0);
    assert!((a - b).abs() < 1e-6, "{a} vs {b}");
    assert!(a > 0.0 && a < 1.0);
}

#[test]
fn unison_glides_slower_than_poly() {
    // Shorter effective time → larger coefficient (faster approach per block).
    let (_, poly) = block_glide(0.2, false, 64, 48_000.0);
    let (_, uni) = block_glide(0.2, true, 64, 48_000.0);
    assert!(uni > poly, "unison {uni} should exceed poly {poly}");
}

/// Per-voice env arrays with channel `v` parked in `stage`.
fn envs_all(stage: AdsrStage) -> ([AdsrCore; N], [AdsrCore; N]) {
    let mut a = std::array::from_fn(|_| AdsrCore::new(plain(48_000.0)));
    let mut b = std::array::from_fn(|_| AdsrCore::new(plain(48_000.0)));
    for v in 0..N {
        a[v].stage = stage;
        b[v].stage = stage;
    }
    (a, b)
}

#[test]
fn static_when_all_sustain_gate_high_no_trigger() {
    let (e1, e2) = envs_all(AdsrStage::Sustain);
    assert!(envelopes_static(
        &[false; N],
        &[true; N],
        &[true; N],
        &e1,
        &e2
    ));
}

#[test]
fn not_static_when_any_voice_triggers() {
    let (e1, e2) = envs_all(AdsrStage::Sustain);
    let mut trig = [false; N];
    trig[3] = true;
    assert!(!envelopes_static(&trig, &[true; N], &[true; N], &e1, &e2));
}

#[test]
fn not_static_when_a_voice_is_mid_attack() {
    let (mut e1, e2) = envs_all(AdsrStage::Sustain);
    e1[5].stage = AdsrStage::Attack; // env1 not settled
    assert!(!envelopes_static(
        &[false; N],
        &[true; N],
        &[true; N],
        &e1,
        &e2
    ));
}

#[test]
fn not_static_when_gate_released_but_active() {
    let (e1, e2) = envs_all(AdsrStage::Sustain);
    let mut gate = [true; N];
    gate[2] = false; // releasing voice must take the per-frame path (can free)
    assert!(!envelopes_static(&[false; N], &[true; N], &gate, &e1, &e2));
}

#[test]
fn inactive_voices_ignored() {
    // An inactive voice in any stage / gate doesn't block the static path.
    let (mut e1, mut e2) = envs_all(AdsrStage::Sustain);
    e1[7].stage = AdsrStage::Release;
    e2[7].stage = AdsrStage::Idle;
    let mut active = [true; N];
    active[7] = false;
    let mut gate = [true; N];
    gate[7] = false;
    assert!(envelopes_static(&[false; N], &active, &gate, &e1, &e2));
}

#[test]
fn switches_move_a_product_and_keep_the_sum() {
    let base = ctx_with(|c| {
        c.pitch_lfo_sel = LfoSel::Lfo1;
        c.pitch_lfo_depth = plain(2.3);
        c.pitch_env_sel = EnvSel::Env1;
        c.pitch_env_depth = plain(4.1);
        c.pitch_extra = plain(0.25);
    });
    let s = src(0.7, 0.0, -0.4, 0.0, 0.0, 60);
    let sum = |c: &BlockCtx| {
        let m = resolve_mod(c, &s);
        m.pitch_mod + m.pitch_mod_only
    };
    for (lfo, env) in [(true, false), (false, true), (true, true)] {
        let mut c = base;
        c.pitch_lfo_mod_only = lfo;
        c.pitch_env_mod_only = env;
        assert!((sum(&c) - sum(&base)).abs() < 1e-6);
    }
    let mut off = base;
    off.pitch_lfo_sel = LfoSel::Off;
    off.pitch_env_sel = EnvSel::Off;
    let m = resolve_mod(&off, &s);
    assert_eq!(m.pitch_mod, 0.25);
    assert_eq!(m.pitch_mod_only, 0.0);
}
