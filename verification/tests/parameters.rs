//! Parameters, their store, their smoothing and what is derived from them.
use vxn1::choices::{CrossModType, EnvSel, LfoSel};
use vxn1::domain::{KeyMode, Layer, DEFAULT_SPLIT_POINT};
use vxn1::fpu::{Fpu, Op};
use vxn1::modmatrix::{ModDest, ModSource};
use vxn1::params::{
    desc_for_clap_id, global_clap_id, param_ref, patch_clap_id, GlobalParam, ParamDesc, ParamRef,
    PatchParam, TOTAL_PARAMS,
};
use vxn1::plain::Plain;
use vxn1::reverb_macro::ReverbType;
use vxn1::shared::PluginState;
use vxn1::smoothing::{patch_glide, Glide};
use vxn1::sync::{subdivision, SUBDIVISION_COUNT};
use vxn1::{local, modmatrix, shared, smoothing, values};

type Unit = Fpu<fn(Op, Plain, Plain) -> Plain>;

/// Hardware arithmetic, with results too small to be normal flushed to zero.
fn hardware(op: Op, a: Plain, b: Plain) -> Plain {
    let x = f32::from_bits(a.bits);
    let y = f32::from_bits(b.bits);
    let r = match op {
        Op::Add => x + y,
        Op::Subtract => x - y,
        Op::Multiply => x * y,
        Op::Divide => x / y,
        Op::Power => x.powf(y),
        Op::SquareRoot => x.sqrt(),
        Op::Exponential => x.exp(),
        Op::Logarithm => x.ln(),
        Op::Sine => x.sin(),
        Op::Cosine => x.cos(),
        Op::Tangent => x.tan(),
    };
    if r.is_nan() {
        Plain { bits: 0x7fc0_0000 }
    } else if r.is_subnormal() {
        Plain { bits: r.to_bits() & 0x8000_0000 }
    } else {
        Plain { bits: r.to_bits() }
    }
}

fn unit() -> Unit {
    Fpu { alu: hardware }
}

fn plain(x: f32) -> Plain {
    Plain { bits: x.to_bits() }
}

fn float(x: Plain) -> f32 {
    f32::from_bits(x.bits)
}

/// Values of a patch, in floats.
struct PatchView<'a>(&'a values::PatchValues);

impl PatchView<'_> {
    fn get(&self, p: PatchParam) -> f32 {
        float(self.0.get(p))
    }
}

struct PatchEdit<'a>(&'a mut values::PatchValues);

impl PatchEdit<'_> {
    fn set(&mut self, p: PatchParam, value: f32) {
        self.0.set(p, plain(value));
    }
}

struct GlobalView<'a>(&'a values::GlobalValues);

impl GlobalView<'_> {
    fn get(&self, g: GlobalParam) -> f32 {
        float(self.0.get(g))
    }
}

struct GlobalEdit<'a>(&'a mut values::GlobalValues);

impl GlobalEdit<'_> {
    fn set(&mut self, g: GlobalParam, value: f32) {
        self.0.set(g, plain(value));
    }
}

struct PatchValues(values::PatchValues);

impl PatchValues {
    fn default() -> Self {
        PatchValues(values::PatchValues::default())
    }
    fn get(&self, p: PatchParam) -> f32 {
        float(self.0.get(p))
    }
    fn set(&mut self, p: PatchParam, value: f32) {
        self.0.set(p, plain(value));
    }
    fn lfo_sel(&self, p: PatchParam) -> LfoSel {
        self.0.lfo_sel(p)
    }
    fn env_sel(&self, p: PatchParam) -> EnvSel {
        self.0.env_sel(p)
    }
    fn cross_mod_type(&self) -> CrossModType {
        self.0.cross_mod_type()
    }
}

struct ParamValues(values::ParamValues);

impl ParamValues {
    fn default() -> Self {
        ParamValues(values::ParamValues::default())
    }
    fn get_by_clap_id(&self, id: usize) -> f32 {
        float(self.0.get_by_clap_id(id))
    }
    fn set_by_clap_id(&mut self, id: usize, value: f32) {
        self.0.set_by_clap_id(id, plain(value));
    }
    fn layer(&self, layer: Layer) -> PatchView<'_> {
        PatchView(self.0.layer(layer))
    }
    fn layer_mut(&mut self, layer: Layer) -> PatchEdit<'_> {
        PatchEdit(self.0.layer_mut(layer))
    }
    fn global_mut(&mut self) -> GlobalEdit<'_> {
        GlobalEdit(self.0.global_mut())
    }
}

/// The ranges of a parameter, in floats.
struct Desc {
    name: &'static str,
    min: f32,
    max: f32,
    default: f32,
}

fn ranges(d: ParamDesc) -> Desc {
    Desc { name: d.name, min: float(d.min), max: float(d.max), default: float(d.default) }
}

struct ModMatrix(modmatrix::ModMatrix);

impl ModMatrix {
    fn new() -> Self {
        ModMatrix(modmatrix::ModMatrix::new())
    }
    fn set(&mut self, s: ModSource, d: ModDest, depth: f32) {
        self.0.set(s, d, plain(depth));
    }
    fn dest(&self, d: ModDest, srcs: &[f32; ModSource::COUNT]) -> f32 {
        float(self.0.dest(&unit(), d, &srcs.map(plain)))
    }
}

#[derive(Clone, Copy)]
struct Row {
    size_min: f32,
    size_max: f32,
    decay: f32,
    damp: f32,
    mod_rate: f32,
    mod_depth: f32,
    diffusion: f32,
}

fn macro_row(t: ReverbType) -> Row {
    let r = t.row();
    Row {
        size_min: float(r.size_min),
        size_max: float(r.size_max),
        decay: float(r.decay),
        damp: float(r.damp),
        mod_rate: float(r.mod_rate),
        mod_depth: float(r.mod_depth),
        diffusion: float(r.diffusion),
    }
}

struct Voicing {
    size: f32,
    decay: f32,
    damping: f32,
    mod_rate: f32,
    mod_depth: f32,
    diffusion: f32,
}

fn reverb_macro(t: ReverbType, depth: f32) -> Voicing {
    let v = vxn1::reverb_macro::reverb_macro(&unit(), t, plain(depth));
    Voicing {
        size: float(v.size),
        decay: float(v.decay),
        damping: float(v.damping),
        mod_rate: float(v.mod_rate),
        mod_depth: float(v.mod_depth),
        diffusion: float(v.diffusion),
    }
}

/// The store, in floats.
struct SharedParams(shared::SharedParams);

impl SharedParams {
    fn new() -> Self {
        SharedParams(shared::SharedParams::new())
    }
    fn get(&self, id: usize) -> f32 {
        float(self.0.get(id))
    }
    fn set(&mut self, id: usize, value: f32) {
        self.0.set(id, plain(value));
    }
    fn set_normalized(&mut self, id: usize, norm: f32) {
        self.0.set_normalized(&unit(), id, plain(norm));
    }
    fn gesture(&self, id: usize) -> bool {
        self.0.gesture(id)
    }
    fn set_gesture(&mut self, id: usize, on: bool) {
        self.0.set_gesture(id, on);
    }
    fn key_mode(&self) -> KeyMode {
        self.0.key_mode()
    }
    fn set_key_mode(&mut self, mode: KeyMode) {
        self.0.set_key_mode(mode);
    }
    fn set_key_mode_seeded(&mut self, mode: KeyMode) {
        self.0.set_key_mode_seeded(mode);
    }
    fn split_point(&self) -> u8 {
        self.0.split_point()
    }
    fn set_split_point(&mut self, note: u8) {
        self.0.set_split_point(note);
    }
    fn to_state(&self) -> PluginState {
        self.0.to_state()
    }
    fn restore_from(&mut self, state: &PluginState) {
        self.0.restore_from(state);
    }
}

struct ParamSmoother(smoothing::ParamSmoother);

struct ValuesView<'a>(&'a values::ParamValues);

impl<'a> ValuesView<'a> {
    fn layer(&self, layer: Layer) -> PatchView<'a> {
        PatchView(self.0.layer(layer))
    }
    fn global(&self) -> GlobalView<'a> {
        GlobalView(self.0.global())
    }
}

impl ParamSmoother {
    fn new(sr: f32, targets: &ParamValues) -> Self {
        ParamSmoother(smoothing::ParamSmoother::new(&unit(), plain(sr), &targets.0))
    }
    fn tick_block(&mut self, targets: &ParamValues) {
        self.0.tick_block(&unit(), &targets.0);
    }
    fn snap_all(&mut self, targets: &ParamValues) {
        self.0.snap_all(&targets.0);
    }
    fn values(&self) -> ValuesView<'_> {
        ValuesView(self.0.values())
    }
    fn next_volume(&mut self) -> f32 {
        float(self.0.next_volume(&unit()))
    }
}

fn synced_hz(bpm: f32, index: usize) -> f32 {
    float(vxn1::sync::synced_hz(&unit(), plain(bpm), index))
}

fn index_from_norm(norm: f32) -> usize {
    vxn1::sync::index_from_norm(&unit(), plain(norm))
}

fn subdivision_index(label: &str) -> usize {
    (0..SUBDIVISION_COUNT).position(|i| subdivision(i).label == label).unwrap()
}

/// A processing thread's mirror, in floats.
struct LocalParams(local::LocalParams);

impl LocalParams {
    fn new(shared: &SharedParams) -> Self {
        LocalParams(local::LocalParams::new(&shared.0))
    }
    fn fetch_ui_changes(&mut self, shared: &SharedParams) -> bool {
        self.0.fetch_ui_changes(&shared.0)
    }
    fn write_to(&self, params: &mut ParamValues) {
        self.0.write_to(&mut params.0);
    }
    fn publish(&mut self, shared: &mut SharedParams) {
        self.0.publish(&mut shared.0);
    }
}

#[test]
fn tables_len_match_counts() {
    assert_eq!(PatchParam::all().len(), PatchParam::COUNT);
    assert_eq!(GlobalParam::all().len(), GlobalParam::COUNT);
}

#[test]
fn from_index_roundtrips() {
    for p in PatchParam::all() {
        assert_eq!(PatchParam::from_index(p.index()), Some(p));
    }
    assert_eq!(PatchParam::from_index(PatchParam::COUNT), None);
    for g in GlobalParam::all() {
        assert_eq!(GlobalParam::from_index(g.index()), Some(g));
    }
    assert_eq!(GlobalParam::from_index(GlobalParam::COUNT), None);
}

#[test]
fn clap_id_layout_is_contiguous_and_invertible() {
    let mut expected = 0usize;
    for layer in Layer::all() {
        for p in PatchParam::all() {
            let id = patch_clap_id(layer, p);
            assert_eq!(id, expected, "{layer:?} {p:?} misindexed");
            assert_eq!(param_ref(id), Some(ParamRef::Patch(layer, p)));
            expected += 1;
        }
    }
    for g in GlobalParam::all() {
        let id = global_clap_id(g);
        assert_eq!(id, expected);
        assert_eq!(param_ref(id), Some(ParamRef::Global(g)));
        expected += 1;
    }
    assert_eq!(expected, TOTAL_PARAMS);
    assert_eq!(param_ref(TOTAL_PARAMS), None);
}

#[test]
fn defaults_in_range() {
    let p = ParamValues::default();
    for id in 0..TOTAL_PARAMS {
        let d = ranges(desc_for_clap_id(id).unwrap());
        let val = p.get_by_clap_id(id);
        assert!(val >= d.min && val <= d.max, "{} default OOR", d.name);
    }
}

#[test]
fn default_patch_keeps_gentle_vibrato() {
    let p = PatchValues::default();
    assert_eq!(p.lfo_sel(PatchParam::PitchLfoSrc), LfoSel::Lfo1);
    assert_eq!(p.get(PatchParam::PitchLfoDepth), 0.05);
    assert_eq!(p.env_sel(PatchParam::PitchEnvSrc), EnvSel::Off);
}

#[test]
fn route_selectors_roundtrip() {
    let mut p = PatchValues::default();
    p.set(PatchParam::PwmLfoSrc, 2.0);
    assert_eq!(p.lfo_sel(PatchParam::PwmLfoSrc), LfoSel::Lfo2);
    p.set(PatchParam::PwmEnvSrc, 1.0);
    assert_eq!(p.env_sel(PatchParam::PwmEnvSrc), EnvSel::Env1);
    for (idx, t) in [
        (0.0, CrossModType::Off),
        (1.0, CrossModType::Sync),
        (2.0, CrossModType::Pm),
    ] {
        p.set(PatchParam::CrossModType, idx);
        assert_eq!(p.cross_mod_type(), t);
    }
}

#[test]
fn clap_id_roundtrip_through_values() {
    let mut pv = ParamValues::default();
    let up = patch_clap_id(Layer::Upper, PatchParam::Cutoff);
    let lo = patch_clap_id(Layer::Lower, PatchParam::Cutoff);
    pv.set_by_clap_id(up, 1000.0);
    pv.set_by_clap_id(lo, 2000.0);
    assert_eq!(pv.layer(Layer::Upper).get(PatchParam::Cutoff), 1000.0);
    assert_eq!(pv.layer(Layer::Lower).get(PatchParam::Cutoff), 2000.0);
    assert_eq!(pv.get_by_clap_id(up), 1000.0);
    let res = patch_clap_id(Layer::Upper, PatchParam::Resonance);
    pv.set_by_clap_id(res, 5.0);
    assert_eq!(pv.get_by_clap_id(res), 1.0);
}

#[test]
fn key_mode_roundtrips() {
    for m in KeyMode::all() {
        assert_eq!(KeyMode::from_u8(m.to_u8()), m);
    }
    assert_eq!(KeyMode::default(), KeyMode::Whole);
}

#[test]
fn empty_matrix_passes_nothing() {
    let m = ModMatrix::new();
    let srcs = [1.0; ModSource::COUNT];
    for d in ModDest::all() {
        assert_eq!(m.dest(d, &srcs), 0.0);
    }
}

#[test]
fn routes_sum_per_destination() {
    let mut m = ModMatrix::new();
    m.set(ModSource::Env2, ModDest::Amp, 1.0);
    m.set(ModSource::Lfo, ModDest::Amp, 0.5);
    m.set(ModSource::Env1, ModDest::Cutoff, 24.0);
    // srcs: env1=0.5, env2=0.8, lfo=-1, vel=1, key=2
    let srcs = [0.5, 0.8, -1.0, 1.0, 2.0];
    assert!((m.dest(ModDest::Amp, &srcs) - (0.8 - 0.5)).abs() < 1e-6);
    assert!((m.dest(ModDest::Cutoff, &srcs) - 12.0).abs() < 1e-6);
    assert_eq!(m.dest(ModDest::Pitch, &srcs), 0.0);
}

#[test]
fn macro_size_lerps_within_type_range() {
    for t in ReverbType::all() {
        let row = macro_row(t);
        let v0 = reverb_macro(t, 0.0);
        let vm = reverb_macro(t, 0.5);
        let v1 = reverb_macro(t, 1.0);
        assert!((v0.size - row.size_min).abs() < 1e-6, "{t:?} depth=0");
        let mid = 0.5 * (row.size_min + row.size_max);
        assert!((vm.size - mid).abs() < 1e-6, "{t:?} depth=0.5");
        assert!((v1.size - row.size_max).abs() < 1e-6, "{t:?} depth=1");
    }
}

#[test]
fn macro_fixed_per_type() {
    for t in ReverbType::all() {
        let row = macro_row(t);
        for &d in &[0.0_f32, 0.25, 0.5, 0.75, 1.0] {
            let v = reverb_macro(t, d);
            assert_eq!(v.decay, row.decay, "{t:?}");
            assert_eq!(v.damping, row.damp, "{t:?}");
            assert_eq!(v.mod_rate, row.mod_rate, "{t:?}");
            assert_eq!(v.mod_depth, row.mod_depth, "{t:?}");
            assert_eq!(v.diffusion, row.diffusion, "{t:?}");
        }
    }
}

#[test]
fn macro_clamps_depth_out_of_range() {
    let v_lo = reverb_macro(ReverbType::Room, -0.5);
    let v_hi = reverb_macro(ReverbType::Room, 1.5);
    assert_eq!(v_lo.size, macro_row(ReverbType::Room).size_min);
    assert_eq!(v_hi.size, macro_row(ReverbType::Room).size_max);
}

#[test]
fn reverb_type_from_index_roundtrips() {
    for t in ReverbType::all() {
        assert_eq!(ReverbType::from_index(t.index()), t);
    }
    assert_eq!(ReverbType::from_index(ReverbType::COUNT), ReverbType::Large);
    assert_eq!(ReverbType::from_index(999), ReverbType::Large);
}

#[test]
fn defaults_match_table_and_clamp() {
    let mut s = SharedParams::new();
    let vol = global_clap_id(GlobalParam::MasterVolume);
    assert_eq!(s.get(vol), ranges(GlobalParam::MasterVolume.desc()).default);
    // Out-of-range writes are clamped to the descriptor range.
    let reso = patch_clap_id(Layer::Upper, PatchParam::Resonance);
    s.set(reso, 5.0);
    assert_eq!(s.get(reso), 1.0);
}

#[test]
fn whole_to_dual_seeds_lower_from_upper_once() {
    let mut s = SharedParams::new();
    let up = patch_clap_id(Layer::Upper, PatchParam::Cutoff);
    let lo = patch_clap_id(Layer::Lower, PatchParam::Cutoff);
    s.set(up, 1234.0);
    s.set(lo, 9999.0);
    // Whole → Dual seeds Lower from Upper.
    s.set_key_mode_seeded(KeyMode::Dual);
    assert_eq!(s.get(lo), 1234.0, "Lower not seeded from Upper");
    assert_eq!(s.key_mode(), KeyMode::Dual);

    // Diverge Lower, then Dual → Split must NOT re-seed.
    s.set(lo, 555.0);
    s.set_key_mode_seeded(KeyMode::Split);
    assert_eq!(s.get(lo), 555.0, "Dual→Split should not re-seed");
}

#[test]
fn returning_to_whole_then_out_seeds_again() {
    let mut s = SharedParams::new();
    let up = patch_clap_id(Layer::Upper, PatchParam::Cutoff);
    let lo = patch_clap_id(Layer::Lower, PatchParam::Cutoff);
    s.set_key_mode_seeded(KeyMode::Dual);
    s.set_key_mode_seeded(KeyMode::Whole);
    s.set(up, 4000.0);
    s.set(lo, 1.0);
    // Leaving Whole again re-seeds from the current Upper.
    s.set_key_mode_seeded(KeyMode::Split);
    assert_eq!(s.get(lo), 4000.0);
}

#[test]
fn layers_are_independent() {
    let mut s = SharedParams::new();
    let up = patch_clap_id(Layer::Upper, PatchParam::Cutoff);
    let lo = patch_clap_id(Layer::Lower, PatchParam::Cutoff);
    s.set(up, 1000.0);
    s.set(lo, 2000.0);
    assert_eq!(s.get(up), 1000.0);
    assert_eq!(s.get(lo), 2000.0);
}

#[test]
fn normalized_roundtrip() {
    let mut s = SharedParams::new();
    let cutoff = patch_clap_id(Layer::Upper, PatchParam::Cutoff);
    s.set_normalized(cutoff, 0.0);
    assert_eq!(s.get(cutoff), ranges(PatchParam::Cutoff.desc()).min);
    s.set_normalized(cutoff, 1.0);
    assert_eq!(s.get(cutoff), ranges(PatchParam::Cutoff.desc()).max);
}

#[test]
fn gesture_flag_roundtrips() {
    let mut s = SharedParams::new();
    assert!(!s.gesture(0));
    s.set_gesture(0, true);
    assert!(s.gesture(0));
}

#[test]
fn key_mode_and_split_default_and_roundtrip() {
    let mut s = SharedParams::new();
    assert_eq!(s.key_mode(), KeyMode::Whole);
    assert_eq!(s.split_point(), DEFAULT_SPLIT_POINT);
    s.set_key_mode(KeyMode::Dual);
    s.set_split_point(72);
    assert_eq!(s.key_mode(), KeyMode::Dual);
    assert_eq!(s.split_point(), 72);
}

#[test]
fn state_roundtrip_through_store() {
    let mut s = SharedParams::new();
    let up = patch_clap_id(Layer::Upper, PatchParam::Cutoff);
    s.set(up, 4321.0);
    s.set_key_mode(KeyMode::Split);
    s.set_split_point(48);

    let state = s.to_state();
    let mut s2 = SharedParams::new();
    s2.restore_from(&state);
    assert_eq!(s2.get(up), 4321.0);
    assert_eq!(s2.key_mode(), KeyMode::Split);
    assert_eq!(s2.split_point(), 48);
}

fn patch_target(p: PatchParam, v: f32) -> ParamValues {
    let mut pv = ParamValues::default();
    pv.layer_mut(Layer::Upper).set(p, v);
    pv
}

#[test]
fn block_param_glides_toward_target() {
    let mut s = ParamSmoother::new(48_000.0, &ParamValues::default());
    let start = ParamValues::default()
        .layer(Layer::Upper)
        .get(PatchParam::Osc1Level);
    let targets = patch_target(PatchParam::Osc1Level, 0.0);
    s.tick_block(&targets);
    let after_one = s.values().layer(Layer::Upper).get(PatchParam::Osc1Level);
    assert!(
        after_one < start && after_one > 0.0,
        "no glide: {after_one}"
    );
    for _ in 0..2000 {
        s.tick_block(&targets);
    }
    assert!(
        s.values()
            .layer(Layer::Upper)
            .get(PatchParam::Osc1Level)
            .abs()
            < 1e-3
    );
}

#[test]
fn block_param_settles_exactly_to_zero() {
    // A block-rate glide must reach its target *exactly* in bounded time,
    // not crawl down the one-pole tail forever. SubLevel / CrossModAmount
    // gate expensive paths off `!= 0.0`, so a residual epsilon would keep
    // them armed and CPU pinned after the param is zeroed.
    let start = patch_target(PatchParam::SubLevel, 1.0);
    let mut s = ParamSmoother::new(48_000.0, &start);
    let zero = ParamValues::default(); // SubLevel target 0.0
    let mut blocks = 0;
    loop {
        s.tick_block(&zero);
        blocks += 1;
        if s.values().layer(Layer::Upper).get(PatchParam::SubLevel) == 0.0 {
            break;
        }
        assert!(blocks < 1000, "SubLevel never reached exactly 0.0");
    }
    // 10 ms time constant at the control rate settles well under 1000 blocks.
    assert!(blocks < 1000);
}

#[test]
fn snap_params_jump_immediately() {
    // Cutoff is snapped here (ladder interpolates its coeffs downstream).
    let mut s = ParamSmoother::new(48_000.0, &ParamValues::default());
    let targets = patch_target(PatchParam::Cutoff, 100.0);
    s.tick_block(&targets);
    assert_eq!(
        s.values().layer(Layer::Upper).get(PatchParam::Cutoff),
        100.0
    );
}

#[test]
fn route_depths_are_block_smoothed() {
    assert_eq!(patch_glide(PatchParam::CutoffLfo1Depth), Glide::Block);
    assert_eq!(patch_glide(PatchParam::CutoffLfo2Depth), Glide::Block);
    assert_eq!(patch_glide(PatchParam::PitchEnvDepth), Glide::Block);
    assert_eq!(patch_glide(PatchParam::SubLevel), Glide::Block);
    // Selectors snap (discrete).
    assert_eq!(patch_glide(PatchParam::PitchLfoSrc), Glide::Snap);
}

#[test]
fn both_layers_smooth_independently() {
    let mut s = ParamSmoother::new(48_000.0, &ParamValues::default());
    let mut targets = ParamValues::default();
    targets
        .layer_mut(Layer::Upper)
        .set(PatchParam::Cutoff, 100.0);
    targets
        .layer_mut(Layer::Lower)
        .set(PatchParam::Cutoff, 200.0);
    s.tick_block(&targets);
    assert_eq!(
        s.values().layer(Layer::Upper).get(PatchParam::Cutoff),
        100.0
    );
    assert_eq!(
        s.values().layer(Layer::Lower).get(PatchParam::Cutoff),
        200.0
    );
}

#[test]
fn volume_glides_per_sample() {
    let mut s = ParamSmoother::new(48_000.0, &ParamValues::default());
    let mut targets = ParamValues::default();
    targets.global_mut().set(GlobalParam::MasterVolume, 0.0);
    s.tick_block(&targets);
    let v0 = s.next_volume();
    let v1 = s.next_volume();
    assert!(v0 > 0.0 && v1 < v0, "no per-sample glide: {v0} -> {v1}");
}

#[test]
fn snap_all_settles_volume_and_values() {
    let mut s = ParamSmoother::new(48_000.0, &ParamValues::default());
    let mut targets = ParamValues::default();
    targets.global_mut().set(GlobalParam::MasterVolume, 0.3);
    s.snap_all(&targets);
    assert_eq!(s.next_volume(), 0.3);
    assert_eq!(s.values().global().get(GlobalParam::MasterVolume), 0.3);
}

#[test]
fn straight_subdivisions_match_beat_math() {
    // 1/4 cycles once per beat: at 120 BPM that's 2 Hz; at 90, 1.5 Hz.
    let q = subdivision_index("1/4");
    assert!((synced_hz(120.0, q) - 2.0).abs() < 1e-5);
    assert!((synced_hz(90.0, q) - 1.5).abs() < 1e-5);
    // 1/8 is twice as fast.
    let e = subdivision_index("1/8");
    assert!((synced_hz(90.0, e) - 3.0).abs() < 1e-5);
}

#[test]
fn dotted_and_triplet_scale_the_straight_rate() {
    let q = subdivision_index("1/4");
    let qd = subdivision_index("1/4.");
    let qt = subdivision_index("1/4T");
    for bpm in [90.0_f32, 140.0] {
        let straight = synced_hz(bpm, q);
        // Dotted is 1.5× longer → 2/3 the rate; triplet 2/3 longer → 1.5×.
        assert!((synced_hz(bpm, qd) - straight / 1.5).abs() < 1e-4, "dotted {bpm}");
        assert!((synced_hz(bpm, qt) - straight * 1.5).abs() < 1e-4, "triplet {bpm}");
    }
}

#[test]
fn norm_maps_across_the_whole_table() {
    assert_eq!(index_from_norm(0.0), 0);
    assert_eq!(index_from_norm(1.0), SUBDIVISION_COUNT - 1);
    // Clamped, never out of bounds.
    assert_eq!(index_from_norm(-1.0), 0);
    assert_eq!(index_from_norm(2.0), SUBDIVISION_COUNT - 1);
}

/// A UI bulk write (preset load) that lands in the window between this block's
/// `fetch_ui_changes` and `publish` must survive: `publish` only writes host
/// automation, so it can't revert the UI's value. The next `fetch_ui_changes`
/// then folds it into the mirror.
#[test]
fn publish_does_not_clobber_concurrent_ui_writes() {
    let mut shared = SharedParams::new();
    let mut local = LocalParams::new(&shared);
    let cutoff = patch_clap_id(Layer::Upper, PatchParam::Cutoff);

    // No host automation this block; the UI writes a new value to the shared
    // store after the mirror was built (the preset-load race window).
    let before = shared.get(cutoff);
    let loaded = before + 1234.0;
    shared.set(cutoff, loaded);

    // publish must leave the UI's value untouched (nothing host-changed).
    local.publish(&mut shared);
    assert_eq!(shared.get(cutoff), loaded, "publish reverted a UI write");

    // The next fetch folds the UI value into the mirror / engine.
    assert!(local.fetch_ui_changes(&shared));
    let mut params = ParamValues::default();
    local.write_to(&mut params);
    assert_eq!(params.get_by_clap_id(cutoff), loaded);
}

/// host automation still reaches the shared store via publish, so the UI/host
/// observe it. (`apply_input` flags the param; we exercise the publish side
/// by flagging through the same field a host event would set.)
#[test]
fn publish_writes_host_changes_once_then_clears() {
    let mut shared = SharedParams::new();
    let mut local = LocalParams::new(&shared);
    let cutoff = patch_clap_id(Layer::Upper, PatchParam::Cutoff);

    // Simulate a host-automation fold: mirror updated + flagged.
    local.0.values[cutoff] = plain(777.0);
    local.0.host_changed[cutoff] = true;
    local.publish(&mut shared);
    assert_eq!(shared.get(cutoff), 777.0);

    // A second publish with no new host change is a no-op (flag cleared), so a
    // later UI write to the same param is not overwritten.
    shared.set(cutoff, 888.0);
    local.publish(&mut shared);
    assert_eq!(shared.get(cutoff), 888.0);
}
