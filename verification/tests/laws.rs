//! General laws, each on concrete values.
use vxn1::adsr::{AdsrCore, AdsrStage};
use vxn1::choices::{AssignMode, CrossModType, EnvSel, LfoSel};
use vxn1::delay::DelayLine;
use vxn1::domain::{KeyMode, Layer};
use vxn1::effects::{delay_time_seconds, EffectSwitches, Effects};
use vxn1::fpu::{Fpu, Op};
use vxn1::local::LocalParams;
use vxn1::math::SineTable;
use vxn1::mono::MonoStack;
use vxn1::noise::xorshift64;
use vxn1::oscillator::Waveform;
use vxn1::params::{
    desc_for_clap_id, global_clap_id, patch_clap_id, GlobalParam, PatchParam, TOTAL_PARAMS,
};
use vxn1::plain::Plain;
use vxn1::poly::{
    osc_sample, pair_step, pm_step, ring_diode_block, ring_sample, sync_step, OscLane,
};
use vxn1::shared::SharedParams;
use vxn1::smoothing::{block_coeff, glide_step, patch_glide, Glide, ParamSmoother};
use vxn1::sync::{
    index_from_norm, subdivision, synced_hz, synced_seconds, SUBDIVISION_COUNT,
};
use vxn1::synth::Synth;
use vxn1::values::ParamValues;
use vxn1::vreverb::AllpassDiffuser;

type Unit = Fpu<fn(Op, Plain, Plain) -> Plain>;

/// Hardware arithmetic, with results too small to be normal flushed to zero.
fn hardware(op: Op, a: Plain, b: Plain) -> Plain {
    let x = f32::from_bits(a.bits);
    let y = f32::from_bits(b.bits);
    let r = match op {
        Op::Add => x + y,
        Op::Subtract => x - y,
        Op::Multiply => x * y,
        Op::Divide => x / y,
        Op::Power => x.powf(y),
        Op::SquareRoot => x.sqrt(),
        Op::Exponential => x.exp(),
        Op::Logarithm => x.ln(),
        Op::Sine => x.sin(),
        Op::Cosine => x.cos(),
        Op::Tangent => x.tan(),
    };
    if r.is_nan() {
        Plain { bits: 0x7fc0_0000 }
    } else if r.is_subnormal() {
        Plain { bits: r.to_bits() & 0x8000_0000 }
    } else {
        Plain { bits: r.to_bits() }
    }
}

fn unit() -> Unit {
    Fpu { alu: hardware }
}

fn plain(x: f32) -> Plain {
    Plain { bits: x.to_bits() }
}

fn float(x: Plain) -> f32 {
    f32::from_bits(x.bits)
}

/// Values at and around every place where a rule changes.
fn samples() -> Vec<f32> {
    let mut v = vec![
        0.0, -0.0, 0.25, -0.25, 0.499_999_97, 0.5, -0.5, 0.75, 1.0, -1.0, 1.5, -1.5, 2.5, -2.5,
        3.999_999_8, 1e-30, -1e-30, 8_388_607.5, 8_388_608.0, -8_388_607.5, 1.0e9, -1.0e9,
        3.0e38, -3.0e38, f32::MIN_POSITIVE, f32::MAX, f32::MIN, f32::INFINITY, f32::NEG_INFINITY,
        1.0e-40, f32::NAN,
    ];
    let mut x = 0x1234_5678u32;
    for _ in 0..2000 {
        x ^= x << 13;
        x ^= x >> 17;
        x ^= x << 5;
        v.push(f32::from_bits(x));
    }
    v
}

fn same(a: f32, b: f32) -> bool {
    a == b || (a.is_nan() && b.is_nan())
}

#[test]
fn plain_rounding_agrees_with_the_hardware() {
    for x in samples() {
        assert!(same(float(plain(x).floor()), x.floor()), "floor {x}");
        assert!(same(float(plain(x).trunc()), x.trunc()), "trunc {x}");
        assert!(same(float(plain(x).round()), x.round()), "round {x}");
        assert!(same(float(plain(x).abs()), x.abs()), "abs {x}");
        assert!(same(float(plain(x).neg()), -x), "neg {x}");
        assert_eq!(plain(x).is_nan(), x.is_nan());
        assert_eq!(plain(x).is_finite(), x.is_finite());
        assert_eq!(plain(x).is_normal(), x.is_normal());
    }
}

#[test]
fn plain_casts_agree_with_the_hardware() {
    for x in samples() {
        assert_eq!(plain(x).to_index(), x as usize, "to_index {x}");
        assert_eq!(plain(x).to_int(false), x as i64, "to_int {x}");
        assert_eq!(plain(x).to_int(true), x.round() as i64, "to_int rounded {x}");
        assert_eq!(plain(x).round_index(), x.round() as usize, "round_index {x}");
        assert_eq!(plain(x).ceil_index(), x.ceil() as usize, "ceil_index {x}");
    }
    for n in [0i64, 1, -1, 127, -8192, 16_777_215, 16_777_217, 33_554_435, i64::MAX, i64::MIN] {
        assert_eq!(float(Plain::from_int(n)), n as f32, "from_int {n}");
    }
    for n in [0usize, 1, 7, 96_000, 16_777_217, 16_777_219, usize::MAX] {
        assert_eq!(float(Plain::from_index(n)), n as f32, "from_index {n}");
    }
}

#[test]
fn plain_order_agrees_with_the_hardware() {
    let v = samples();
    for (i, x) in v.iter().enumerate().take(200) {
        for y in v.iter().skip(i % 7).step_by(7) {
            assert_eq!(plain(*x).less(plain(*y)), x < y, "{x} < {y}");
            assert_eq!(plain(*x).at_most(plain(*y)), x <= y, "{x} <= {y}");
            assert_eq!(plain(*x).equals(plain(*y)), x == y, "{x} == {y}");
            assert!(same(float(plain(*x).max(plain(*y))), x.max(*y)), "max {x} {y}");
            assert!(same(float(plain(*x).min(plain(*y))), x.min(*y)), "min {x} {y}");
        }
    }
}

#[test]
fn clamping_stays_in_range_and_repeats() {
    let (lo, hi) = (plain(-0.5), plain(2.0));
    for x in samples() {
        let c = plain(x).clamp(lo, hi);
        assert!(same(float(c), x.clamp(-0.5, 2.0)), "clamp {x}");
        assert_eq!(c.clamp(lo, hi), c);
    }
}

#[test]
fn generators_never_stick() {
    let mut state = 1u64;
    for _ in 0..10_000 {
        let x = float(xorshift64(&unit(), &mut state));
        assert_ne!(state, 0);
        assert!((-1.0..=1.0).contains(&x));
    }
}

#[test]
fn written_parameters_read_back_clamped() {
    let mut p = ParamValues::default();
    for id in 0..TOTAL_PARAMS {
        let d = desc_for_clap_id(id).unwrap();
        let before = p;
        p.set_by_clap_id(id, d.max);
        assert_eq!(p.get_by_clap_id(id), d.max);
        p.set_by_clap_id(id, plain(f32::INFINITY));
        assert_eq!(p.get_by_clap_id(id), d.max);
        p.set_by_clap_id(id, plain(f32::NEG_INFINITY));
        assert_eq!(p.get_by_clap_id(id), d.min);
        for other in 0..TOTAL_PARAMS {
            if other != id {
                assert_eq!(p.get_by_clap_id(other), before.get_by_clap_id(other));
            }
        }
    }
    let before = p;
    p.set_by_clap_id(TOTAL_PARAMS, plain(1.0));
    assert_eq!(p.get_by_clap_id(TOTAL_PARAMS), plain(0.0));
    for id in 0..TOTAL_PARAMS {
        assert_eq!(p.get_by_clap_id(id), before.get_by_clap_id(id));
    }
}

#[test]
fn names_find_their_parameters() {
    for p in PatchParam::all() {
        assert_eq!(PatchParam::from_name(p.desc().name), Some(p));
    }
    for g in GlobalParam::all() {
        assert_eq!(GlobalParam::from_name(g.desc().name), Some(g));
    }
    assert_eq!(PatchParam::from_name("no such parameter"), None);
    assert_eq!(GlobalParam::from_name(""), None);
}

#[test]
fn indices_beyond_the_table_stand_for_nothing() {
    assert_eq!(PatchParam::from_index(PatchParam::all().len()), None);
    assert_eq!(GlobalParam::from_index(usize::MAX), None);
    assert!(desc_for_clap_id(TOTAL_PARAMS).is_none());
}

#[test]
fn choices_come_back_from_their_indices() {
    for m in AssignMode::all() {
        assert_eq!(AssignMode::from_index(m.index()), m);
    }
    for m in LfoSel::all() {
        assert_eq!(LfoSel::from_index(m.index()), m);
    }
    for m in EnvSel::all() {
        assert_eq!(EnvSel::from_index(m.index()), m);
    }
    for m in CrossModType::all() {
        assert_eq!(CrossModType::from_index(m.index()), m);
    }
}

#[test]
fn normalized_values_stay_in_the_unit() {
    let u = unit();
    for id in 0..TOTAL_PARAMS {
        let d = desc_for_clap_id(id).unwrap();
        for x in [f32::NEG_INFINITY, -1.0, 0.0, 0.3, 1.0, 1.0e6, f32::INFINITY] {
            let n = float(d.to_normalized(&u, plain(x)));
            assert!((0.0..=1.0).contains(&n), "{} at {x}: {n}", d.name);
        }
        assert_eq!(float(d.to_normalized(&u, d.min)), 0.0);
        assert_eq!(float(d.to_normalized(&u, d.max)), 1.0);
    }
}

#[test]
fn leaving_the_whole_keyboard_copies_the_patch() {
    let mut s = SharedParams::new();
    let up = patch_clap_id(Layer::Upper, PatchParam::Cutoff);
    let low = patch_clap_id(Layer::Lower, PatchParam::Cutoff);
    s.set(up, plain(321.0));
    s.set_key_mode_seeded(KeyMode::Split);
    assert_eq!(float(s.get(low)), 321.0);
    s.set(up, plain(654.0));
    s.set_key_mode_seeded(KeyMode::Dual);
    assert_eq!(float(s.get(low)), 321.0);
    s.set_key_mode_seeded(KeyMode::Whole);
    assert_eq!(float(s.get(low)), 321.0);
}

#[test]
fn split_points_are_notes() {
    let mut s = SharedParams::new();
    s.set_split_point(255);
    assert_eq!(s.split_point(), 127);
    s.set_split_point(0);
    assert_eq!(s.split_point(), 0);
}

#[test]
fn publishing_keeps_the_editors_writes() {
    let mut s = SharedParams::new();
    let mut l = LocalParams::new(&s);
    let cutoff = patch_clap_id(Layer::Upper, PatchParam::Cutoff);
    let resonance = patch_clap_id(Layer::Upper, PatchParam::Resonance);
    s.set(resonance, plain(0.875));
    l.apply_input(cutoff, plain(555.0));
    l.publish(&mut s);
    assert_eq!(float(s.get(resonance)), 0.875);
    assert_eq!(float(s.get(cutoff)), 555.0);
    s.set(cutoff, plain(666.0));
    l.publish(&mut s);
    assert_eq!(float(s.get(cutoff)), 666.0);
}

#[test]
fn stacks_reveal_the_note_before() {
    let mut m = MonoStack::new();
    assert!(m.is_empty());
    m.push(60);
    m.push(64);
    m.push(67);
    m.push(60);
    assert_eq!(m.top(), Some(60));
    assert!(m.pop(60));
    assert_eq!(m.top(), Some(67));
    assert!(!m.pop(64));
    assert_eq!(m.top(), Some(67));
    assert!(m.pop(67));
    assert_eq!(m.top(), None);
    assert!(!m.pop(67));
}

#[test]
fn delay_lines_hold_their_history() {
    let mut d = DelayLine::new(100);
    assert!(d.capacity() >= 100 && d.capacity().is_power_of_two());
    for i in 1..=300 {
        d.write(plain(i as f32));
    }
    for k in 0..d.capacity() {
        assert_eq!(float(d.past(k)), (300 - k) as f32);
    }
    d.clear();
    for k in 0..d.capacity() {
        assert_eq!(float(d.past(k)), 0.0);
    }
}

#[test]
fn reading_a_delay_interpolates() {
    let mut d = DelayLine::new(16);
    for i in 0..16 {
        d.write(plain(i as f32));
    }
    let (a, b) = (float(d.read(&unit(), plain(3.0))), float(d.read(&unit(), plain(4.0))));
    assert_eq!(a - b, 1.0);
    assert_eq!(float(d.read(&unit(), plain(3.25))), a - 0.25);
}

#[test]
fn glides_arrive_when_close() {
    let u = unit();
    assert_eq!(glide_step(&u, plain(0.999_999), plain(1.0), plain(0.5)), plain(1.0));
    assert_eq!(float(glide_step(&u, plain(0.0), plain(1.0), plain(0.25))), 0.25);
    assert_eq!(glide_step(&u, plain(1.0), plain(1.0), plain(0.25)), plain(1.0));
}

#[test]
fn subdivisions_saturate() {
    let u = unit();
    assert_eq!(index_from_norm(&u, plain(-3.0)), 0);
    assert_eq!(index_from_norm(&u, plain(0.0)), 0);
    assert_eq!(index_from_norm(&u, plain(1.0)), SUBDIVISION_COUNT - 1);
    assert_eq!(index_from_norm(&u, plain(f32::INFINITY)), SUBDIVISION_COUNT - 1);
}

#[test]
fn synced_lengths_follow_the_tempo() {
    let u = unit();
    for i in 0..SUBDIVISION_COUNT {
        let hz = float(synced_hz(&u, plain(120.0), i));
        let s = float(synced_seconds(&u, plain(120.0), i));
        assert!((hz * s - 1.0).abs() < 1e-5);
        assert_eq!(s, float(subdivision(i).beats) * 0.5);
    }
}

#[test]
fn unsynced_times_ignore_the_tempo() {
    let u = unit();
    for bpm in [40.0, 120.0, 300.0] {
        assert_eq!(float(delay_time_seconds(&u, false, plain(0.37), plain(bpm))), 0.37);
    }
}

#[test]
fn effects_that_are_off_pass_the_block() {
    let u = unit();
    let mut fx = Effects::new(&u, plain(48_000.0));
    let table = SineTable::new(&u);
    let dry: Vec<Plain> = (0..32).map(|i| plain((i as f32 * 0.3).sin())).collect();
    let (mut l, mut r) = (vec![], vec![]);
    let off = EffectSwitches {
        chorus: false,
        delay: false,
        reverb: false,
        reverb_mix: plain(1.0),
    };
    fx.process_block(&u, &table, off, &dry, &mut l, &mut r);
    assert_eq!(l, dry);
    assert_eq!(r, dry);
}

#[test]
fn reset_banks_are_silent() {
    let u = unit();
    let mut s = Synth::new(&u, plain(48_000.0));
    for note in 40..60 {
        s.note_on(&u, note, plain(0.8));
    }
    assert_eq!(s.active_count(), 16);
    s.reset(&u);
    assert_eq!(s.active_count(), 0);
    for v in 0..8 {
        assert_eq!(s.upper.gated_note(v), None);
        assert_eq!(s.lower.gated_note(v), None);
    }
}

#[test]
fn rates_within_rounding_change_nothing() {
    let u = unit();
    let mut s = Synth::new(&u, plain(48_000.0));
    s.note_on(&u, 60, plain(1.0));
    s.set_sample_rate(&u, plain(48_000.0));
    assert_eq!(s.active_count(), 1);
    s.set_sample_rate(&u, plain(44_100.0));
    assert_eq!(s.active_count(), 0);
    assert_eq!(float(s.sample_rate), 44_100.0);
}

#[test]
fn split_layers_do_not_steal_from_each_other() {
    let u = unit();
    let mut s = Synth::new(&u, plain(48_000.0));
    s.set_key_mode(KeyMode::Split);
    s.set_split_point(60);
    s.note_on(&u, 30, plain(1.0));
    for note in 60..90 {
        s.note_on(&u, note, plain(1.0));
    }
    assert_eq!(s.lower.active_count(), 1);
    assert_eq!(s.lower.gated_note(0), Some(30));
    assert_eq!(s.upper.active_count(), 8);
}

#[test]
fn turned_down_noise_draws_nothing() {
    let u = unit();
    let mut s = Synth::new(&u, plain(48_000.0));
    s.set_param(patch_clap_id(Layer::Upper, PatchParam::NoiseLevel), plain(0.0));
    s.note_on(&u, 60, plain(1.0));
    let before = s.upper.noise.lanes;
    let (mut l, mut r) = ([plain(0.0); 256], [plain(0.0); 256]);
    s.process(&u, &mut l, &mut r);
    for v in 0..8 {
        assert_eq!(s.upper.noise.lanes[v].state, before[v].state);
    }
    s.set_param(patch_clap_id(Layer::Upper, PatchParam::NoiseLevel), plain(0.5));
    for _ in 0..40 {
        s.process(&u, &mut l, &mut r);
    }
    assert_ne!(s.upper.noise.lanes[0].state, before[0].state);
}

#[test]
fn held_voices_are_not_freed() {
    let u = unit();
    let mut s = Synth::new(&u, plain(48_000.0));
    s.set_param(patch_clap_id(Layer::Upper, PatchParam::Env2Sustain), plain(0.0));
    s.set_param(patch_clap_id(Layer::Upper, PatchParam::Env1Sustain), plain(0.0));
    s.note_on(&u, 60, plain(1.0));
    let (mut l, mut r) = ([plain(0.0); 480], [plain(0.0); 480]);
    for _ in 0..200 {
        s.process(&u, &mut l, &mut r);
    }
    assert_eq!(s.active_count(), 1);
    s.note_off(&u, 60);
    for _ in 0..400 {
        s.process(&u, &mut l, &mut r);
    }
    assert_eq!(s.active_count(), 0);
}

#[test]
fn envelopes_follow_their_gates() {
    let u = unit();
    let mut e = AdsrCore::new(plain(1_000.0));
    e.set_params(&u, plain(0.01), plain(0.01), plain(0.5), plain(0.01));
    assert!(e.is_idle());
    assert_eq!(float(e.tick(&u, false, false)), 0.0);
    e.tick(&u, true, true);
    for _ in 0..100 {
        e.tick(&u, false, true);
    }
    assert_eq!(e.stage, AdsrStage::Sustain);
    assert_eq!(float(e.level), 0.5);
    let held = e;
    e.tick(&u, false, true);
    assert_eq!(e, held);
    e.tick(&u, false, false);
    assert_eq!(e.stage, AdsrStage::Release);
    for _ in 0..100 {
        e.tick(&u, false, false);
    }
    assert!(e.is_idle());
}

#[test]
fn levels_and_depths_glide() {
    for p in [
        PatchParam::Osc1Level,
        PatchParam::Osc2Level,
        PatchParam::SubLevel,
        PatchParam::NoiseLevel,
        PatchParam::AmpLfoDepth,
        PatchParam::PitchLfoDepth,
        PatchParam::PitchEnvDepth,
        PatchParam::PwmLfoDepth,
        PatchParam::CutoffLfo1Depth,
        PatchParam::CutoffEnvDepth,
    ] {
        assert_eq!(patch_glide(p), Glide::Block);
    }
    for p in [PatchParam::Osc1Wave, PatchParam::AmpLfoSrc, PatchParam::Legato] {
        assert_eq!(patch_glide(p), Glide::Snap);
    }
}

#[test]
fn automation_is_never_told_back() {
    let resonance = patch_clap_id(Layer::Upper, PatchParam::Resonance);
    for value in [0.25, 5.0, -5.0, f32::INFINITY, f32::NEG_INFINITY, f32::NAN] {
        let mut s = SharedParams::new();
        let mut l = LocalParams::new(&s);
        l.apply_input(resonance, plain(value));
        l.publish(&mut s);
        assert!(!l.fetch_ui_changes(&s));
        assert!(l.emit(&s, 31).is_empty());
        assert!(!l.fetch_ui_changes(&s));
        l.publish(&mut s);
        assert!(l.emit(&s, 31).is_empty());
    }
}

#[test]
fn automation_out_of_range_is_mirrored_clamped() {
    let resonance = patch_clap_id(Layer::Upper, PatchParam::Resonance);
    let s = SharedParams::new();
    let mut l = LocalParams::new(&s);
    l.apply_input(resonance, plain(5.0));
    assert_eq!(float(l.values[resonance]), 1.0);
}

#[test]
fn settled_voices_follow_a_new_sustain() {
    let u = unit();
    let mut s = Synth::new(&u, plain(48_000.0));
    let sustain = patch_clap_id(Layer::Upper, PatchParam::Env2Sustain);
    s.set_param(sustain, plain(0.5));
    s.note_on(&u, 60, plain(1.0));
    let (mut l, mut r) = ([plain(0.0); 480], [plain(0.0); 480]);
    for _ in 0..400 {
        s.process(&u, &mut l, &mut r);
    }
    let v = (0..8).find(|v| s.upper.channels[*v].active).unwrap();
    assert_eq!(s.upper.channels[v].env2.stage, AdsrStage::Sustain);
    assert_eq!(float(s.upper.channels[v].env2.level), 0.5);
    s.set_param(sustain, plain(0.25));
    s.process(&u, &mut l, &mut r);
    assert_eq!(float(s.upper.channels[v].env2.level), 0.25);
}

#[test]
fn delay_lines_reach_the_delay_asked_for() {
    let u = unit();
    let mut d = DelayLine::new(4);
    for i in 1..=5 {
        d.write(plain(i as f32));
    }
    assert_eq!(float(d.read(&u, plain(4.0))), 1.0);
    for max in [1usize, 2, 7, 8, 100] {
        let mut d = DelayLine::new(max);
        for i in 0..=2 * max {
            d.write(plain(i as f32));
        }
        for k in 1..=max {
            assert_eq!(float(d.read(&u, plain(k as f32))), (2 * max - k) as f32);
        }
    }
}

/// An instrument with a note held, and everything on.
fn sounding(u: &Unit) -> Synth {
    let mut s = Synth::new(u, plain(48_000.0));
    for g in [GlobalParam::ChorusOn, GlobalParam::DelayOn, GlobalParam::ReverbOn] {
        s.set_param(global_clap_id(g), plain(1.0));
    }
    s.set_param(patch_clap_id(Layer::Upper, PatchParam::NoiseLevel), plain(0.5));
    s.set_param(patch_clap_id(Layer::Upper, PatchParam::AmpLfoDepth), plain(0.5));
    s.note_on(u, 60, plain(0.8));
    s
}

#[test]
fn spans_can_be_cut_at_a_control_block() {
    let u = unit();
    let (mut a, mut b) = (sounding(&u), sounding(&u));
    let n = 1_000;
    let (mut al, mut ar) = (vec![plain(0.0); n], vec![plain(0.0); n]);
    let (mut bl, mut br) = (vec![plain(0.0); n], vec![plain(0.0); n]);
    a.process(&u, &mut al, &mut ar);
    let k = 20 * 32;
    b.process(&u, &mut bl[..k], &mut br[..k]);
    b.process(&u, &mut bl[k..], &mut br[k..]);
    assert!(al.iter().any(|x| float(*x) != 0.0));
    assert_eq!(al, bl);
    assert_eq!(ar, br);
    a.process(&u, &mut al, &mut ar);
    b.process(&u, &mut bl, &mut br);
    assert_eq!(al, bl);
    assert_eq!(ar, br);
}

#[test]
fn knobs_of_a_reverb_that_is_off_are_not_heard() {
    let u = unit();
    let (mut a, mut b) = (sounding(&u), sounding(&u));
    for s in [&mut a, &mut b] {
        s.set_param(global_clap_id(GlobalParam::ReverbOn), plain(0.0));
    }
    b.set_param(global_clap_id(GlobalParam::ReverbType), plain(1.0));
    b.set_param(global_clap_id(GlobalParam::ReverbDepth), plain(0.9));
    b.set_param(global_clap_id(GlobalParam::ReverbMix), plain(0.9));
    let (mut al, mut ar) = (vec![plain(0.0); 960], vec![plain(0.0); 960]);
    let (mut bl, mut br) = (vec![plain(0.0); 960], vec![plain(0.0); 960]);
    for _ in 0..4 {
        a.process(&u, &mut al, &mut ar);
        b.process(&u, &mut bl, &mut br);
        assert_eq!(al, bl);
        assert_eq!(ar, br);
    }
}

#[test]
fn unison_returns_to_the_newest_key_on_every_channel() {
    let u = unit();
    for (legato, restarts) in [(0.0, true), (1.0, false)] {
        let mut s = Synth::new(&u, plain(48_000.0));
        s.set_param(patch_clap_id(Layer::Upper, PatchParam::AssignMode), plain(1.0));
        s.set_param(patch_clap_id(Layer::Upper, PatchParam::Legato), plain(legato));
        let (mut l, mut r) = ([plain(0.0); 64], [plain(0.0); 64]);
        s.note_on(&u, 60, plain(1.0));
        s.note_on(&u, 64, plain(1.0));
        s.process(&u, &mut l, &mut r);
        s.note_off(&u, 64);
        for v in 0..8 {
            assert_eq!(s.upper.gated_note(v), Some(60));
            assert_eq!(s.upper.channels[v].trigger_pending, restarts);
        }
    }
}

#[test]
fn uncoupled_pairs_run_free() {
    let u = unit();
    let (pw1, pw2) = (plain(0.5), plain(0.3));
    for (w1, w2) in [(Waveform::Saw, Waveform::Pulse), (Waveform::Sine, Waveform::Saw)] {
        let lane = OscLane {
            phase: plain(0.125),
            inc: plain(0.01),
            sync_resid: plain(0.0),
            sync_pending: plain(0.0),
            sub_high: false,
        };
        let (mut a, mut b) = (lane, OscLane { inc: plain(0.017), ..lane });
        for _ in 0..500 {
            let s = pair_step(&u, a, b, false, plain(0.0), w1, w2, pw1, pw2);
            assert_eq!(float(s.o1), float(osc_sample(&u, w1, a.phase, pw1, a.inc)));
            assert_eq!(float(s.o2), float(osc_sample(&u, w2, b.phase, pw2, b.inc)));
            assert_eq!(s.master, a.advanced(&u));
            assert_eq!(float(s.slave.phase), float(b.advanced(&u).phase));
            a = s.master;
            b = s.slave;
        }
    }
}

#[test]
fn glides_settle_and_stay() {
    let u = unit();
    let (mut x, tgt) = (plain(1.0), plain(0.0));
    let mut steps = 0;
    while x != tgt {
        x = glide_step(&u, x, tgt, plain(0.0645));
        steps += 1;
        assert!(steps < 1_000);
    }
    assert_eq!(glide_step(&u, x, tgt, plain(0.0645)), tgt);
}

#[test]
fn faders_have_ends() {
    let u = unit();
    for p in [PatchParam::Cutoff, PatchParam::Env1Attack, PatchParam::Osc1Level] {
        let d = p.desc();
        let (low, high) = (d.from_fader(&u, plain(0.0)), d.from_fader(&u, plain(1.0)));
        assert_eq!(d.from_fader(&u, plain(-2.0)), low);
        assert_eq!(d.from_fader(&u, plain(2.0)), high);
        assert_eq!(float(d.clamp(low)), float(d.min));
        assert!((float(high) - float(d.max)).abs() <= 1e-4 * float(d.max));
        assert!(float(d.to_fader(&u, low)).abs() <= 1e-4);
        assert!((float(d.to_fader(&u, d.max)) - 1.0).abs() <= 1e-4);
    }
}

#[test]
fn faders_invert_and_rise() {
    let u = unit();
    for p in [PatchParam::Cutoff, PatchParam::Env1Attack, PatchParam::Osc1Level] {
        let d = p.desc();
        let mut last = d.from_fader(&u, plain(0.0));
        for i in 1..=100 {
            let n = i as f32 / 100.0;
            let v = d.from_fader(&u, plain(n));
            assert!(float(last) < float(v));
            assert!((float(d.to_fader(&u, v)) - n).abs() < 1e-3);
            last = v;
        }
    }
}

#[test]
fn kernels_for_one_coupling_are_the_coupled_one() {
    let u = unit();
    let lane = OscLane {
        phase: plain(0.25),
        inc: plain(0.011),
        sync_resid: plain(0.0),
        sync_pending: plain(0.0),
        sub_high: false,
    };
    let (w1, w2) = (Waveform::Sine, Waveform::Saw);
    let (pw1, pw2) = (plain(0.5), plain(0.5));
    let (mut a, mut b) = (lane, OscLane { inc: plain(0.017), ..lane });
    for _ in 0..300 {
        let s = sync_step(&u, a, b, w1, w2, pw1, pw2);
        let p = pair_step(&u, a, b, true, plain(0.0), w1, w2, pw1, pw2);
        assert_eq!((float(s.o1), float(s.o2)), (float(p.o1), float(p.o2)));
        assert_eq!(s.master, p.master);
        assert_eq!(float(s.slave.phase), float(p.slave.phase));
        a = s.master;
        b = s.slave;
    }
    let (mut a, mut b) = (lane, OscLane { inc: plain(0.017), ..lane });
    for _ in 0..300 {
        let s = pm_step(&u, a, b, plain(0.4), w1, w2, pw1, pw2);
        let p = pair_step(&u, a, b, false, plain(0.4), w1, w2, pw1, pw2);
        assert_eq!((float(s.o1), float(s.o2)), (float(p.o1), float(p.o2)));
        assert_eq!(s.master, p.master);
        assert_eq!(float(s.slave.phase), float(p.slave.phase));
        a = s.master;
        b = s.slave;
    }
}

#[test]
fn ring_modulators_need_both_inputs() {
    let u = unit();
    for x in [-1.0, -0.3, 0.0, 0.3, 1.0] {
        assert_eq!(float(ring_sample(&u, plain(x), plain(0.0), plain(1.5))), 0.0);
        assert_eq!(float(ring_sample(&u, plain(0.0), plain(x), plain(1.5))), 0.0);
        assert_eq!(
            float(ring_diode_block(&u, plain(x), plain(1.5))),
            float(ring_diode_block(&u, plain(-x), plain(1.5)))
        );
    }
    assert_ne!(float(ring_sample(&u, plain(0.5), plain(0.5), plain(1.5))), 0.0);
}

#[test]
fn diffusers_delay_to_the_sample() {
    let u = unit();
    for n in 1..=8 {
        let mut d = AllpassDiffuser::new(8);
        d.set_params(n, plain(0.5));
        assert_eq!(float(d.process(&u, plain(1.0))), -0.5);
        for _ in 1..n {
            assert_eq!(float(d.process(&u, plain(0.0))), 0.0);
        }
        assert_eq!(float(d.process(&u, plain(0.0))), 0.75);
    }
    let mut off = AllpassDiffuser::new(8);
    off.set_params(3, plain(0.0));
    assert_eq!(float(off.process(&u, plain(0.3))), 0.3);
}

#[test]
fn hardware_keeps_zero_and_one_neutral() {
    let u = unit();
    let (zero, one) = (plain(0.0), plain(1.0));
    for x in samples() {
        if !(x == 0.0 || x.is_normal()) {
            continue;
        }
        let p = plain(x);
        assert_eq!(u.mul(p, one), p);
        assert_eq!(u.mul(p, zero), plain(0.0f32.copysign(x)));
        assert_eq!(float(u.mul(zero, p)), 0.0);
        for z in [plain(0.0), plain(-0.0)] {
            if p.bits == 0x8000_0000 {
                assert_eq!(float(u.add(p, z)), 0.0);
                assert_eq!(float(u.add(z, p)), 0.0);
                assert_eq!(float(u.sub(p, z)), 0.0);
            } else {
                assert_eq!(u.add(p, z), p);
                assert_eq!(u.add(z, p), p);
                assert_eq!(u.sub(p, z), p);
            }
        }
        if x != 0.0 {
            assert_eq!(u.sub(zero, p), plain(-x));
        }
    }
}

#[test]
fn levels_fall_on_the_hardware() {
    let u = unit();
    let coeff = block_coeff(&u, plain(48_000.0));
    let zero = plain(0.0);
    let next = |x: Plain| u.add(x, u.mul(coeff, u.sub(zero, x)));
    let mut bits = 0x3f80_0000u32;
    while bits > 0x0080_0000 {
        let x = Plain { bits };
        let y = next(x);
        assert!(y.bits <= x.bits && (y.bits == 0 || float(y).is_normal()));
        if float(x) >= 1.0e-6 {
            assert!(y.bits + 0x4_0000 <= x.bits);
        }
        bits -= 7_919;
    }
}

#[test]
fn turned_down_levels_are_silent_in_640_blocks() {
    let u = unit();
    let (layer, p) = (Layer::Upper, PatchParam::Osc1Level);
    for start in [1.0, 0.5, 0.01, 1.0e-7] {
        let mut params = ParamValues::default();
        params.upper.set(p, plain(start));
        let mut s = ParamSmoother::new(&u, plain(48_000.0), &params);
        params.upper.set(p, plain(0.0));
        let mut blocks = 0;
        while float(s.values().layer(layer).get(p)) != 0.0 {
            s.tick_block(&u, &params);
            blocks += 1;
            assert!(blocks <= 640);
        }
        for _ in 0..100 {
            s.tick_block(&u, &params);
            assert_eq!(s.values().layer(layer).get(p), plain(0.0));
        }
    }
}
