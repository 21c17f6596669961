//! The single-voice kernels and the effects' building blocks.
use vxn1::fpu::{Fpu, Op};
use vxn1::ladder::LadderVariant;
use vxn1::lfo::LfoShape;
use vxn1::math::SineTable;
use vxn1::noise::NoiseColor;
use vxn1::oscillator::Waveform;
use vxn1::ota_ladder::OtaPoles;
use vxn1::plain::Plain;
use vxn1::{adsr, chorus, delay, halfband, hpf, ladder, lfo, math, noise, oscillator, ota_ladder, phase};

type Unit = Fpu<fn(Op, Plain, Plain) -> Plain>;

/// Hardware arithmetic, with results too small to be normal flushed to zero.
fn hardware(op: Op, a: Plain, b: Plain) -> Plain {
    let x = f32::from_bits(a.bits);
    let y = f32::from_bits(b.bits);
    let r = match op {
        Op::Add => x + y,
        Op::Subtract => x - y,
        Op::Multiply => x * y,
        Op::Divide => x / y,
        Op::Power => x.powf(y),
        Op::SquareRoot => x.sqrt(),
        Op::Exponential => x.exp(),
        Op::Logarithm => x.ln(),
        Op::Sine => x.sin(),
        Op::Cosine => x.cos(),
        Op::Tangent => x.tan(),
    };
    if r.is_nan() {
        Plain { bits: 0x7fc0_0000 }
    } else if r.is_subnormal() {
        Plain { bits: r.to_bits() & 0x8000_0000 }
    } else {
        Plain { bits: r.to_bits() }
    }
}

fn unit() -> Unit {
    Fpu { alu: hardware }
}

fn plain(x: f32) -> Plain {
    Plain { bits: x.to_bits() }
}

fn float(x: Plain) -> f32 {
    f32::from_bits(x.bits)
}

const N: usize = 8;
const PI: f32 = std::f32::consts::PI;

struct AdsrCore(adsr::AdsrCore);

impl AdsrCore {
    fn new(sr: f32) -> Self {
        AdsrCore(adsr::AdsrCore::new(plain(sr)))
    }
    fn set_params(&mut self, a: f32, d: f32, s: f32, r: f32) {
        self.0.set_params(&unit(), plain(a), plain(d), plain(s), plain(r));
    }
    fn tick(&mut self, triggered: bool, gate: bool) -> f32 {
        float(self.0.tick(&unit(), triggered, gate))
    }
    fn is_idle(&self) -> bool {
        self.0.is_idle()
    }
}

struct StereoChorus(chorus::StereoChorus, SineTable);

impl StereoChorus {
    fn new(sr: f32) -> Self {
        StereoChorus(chorus::StereoChorus::new(&unit(), plain(sr)), SineTable::new(&unit()))
    }
    fn set_params(&mut self, rate: f32, depth: f32, mix: f32) {
        self.0.set_params(&unit(), plain(rate), plain(depth), plain(mix));
    }
    fn process(&mut self, l: f32, r: f32) -> (f32, f32) {
        let (a, b) = self.0.process(&unit(), &self.1, plain(l), plain(r));
        (float(a), float(b))
    }
}

struct DelayLine(delay::DelayLine);

impl DelayLine {
    fn new(n: usize) -> Self {
        DelayLine(delay::DelayLine::new(n))
    }
    fn write(&mut self, x: f32) {
        self.0.write(plain(x));
    }
    fn read(&self, d: f32) -> f32 {
        float(self.0.read(&unit(), plain(d)))
    }
}

struct StereoDelay(delay::StereoDelay);

impl StereoDelay {
    fn new(sr: f32, secs: f32) -> Self {
        StereoDelay(delay::StereoDelay::new(&unit(), plain(sr), plain(secs)))
    }
    fn set_params(&mut self, tl: f32, tr: f32, fb: f32, damp: f32, mix: f32, ping_pong: bool) {
        self.0.set_params(
            &unit(),
            plain(tl),
            plain(tr),
            plain(fb),
            plain(damp),
            plain(mix),
            ping_pong,
        );
    }
    fn process(&mut self, l: f32, r: f32) -> (f32, f32) {
        let (a, b) = self.0.process(&unit(), plain(l), plain(r));
        (float(a), float(b))
    }
}

struct Oversampler(halfband::Oversampler);

impl Oversampler {
    fn new() -> Self {
        Oversampler(halfband::Oversampler::new())
    }
    fn decimate(&mut self, input: &[f32], output: &mut [f32], factor: usize) {
        let xs: Vec<Plain> = input.iter().map(|x| plain(*x)).collect();
        let mut ys: Vec<Plain> = output.iter().map(|x| plain(*x)).collect();
        self.0.decimate(&unit(), &xs, &mut ys, factor);
        for (o, y) in output.iter_mut().zip(ys) {
            *o = float(y);
        }
    }
}

struct HpfKernel(hpf::HpfKernel);

impl HpfKernel {
    fn new() -> Self {
        HpfKernel(hpf::HpfKernel::new())
    }
    fn set_cutoff(&mut self, hz: f32, sr: f32) {
        self.0.set_cutoff(&unit(), plain(hz), plain(sr));
    }
    fn tick(&mut self, x: f32) -> f32 {
        float(self.0.tick(&unit(), plain(x)))
    }
}

struct PolyHpf(hpf::PolyHpf);

impl PolyHpf {
    fn new() -> Self {
        PolyHpf(hpf::PolyHpf::new())
    }
    fn set_cutoff(&mut self, v: usize, hz: f32, sr: f32) {
        self.0.set_cutoff(&unit(), v, plain(hz), plain(sr));
    }
    fn process(&mut self, x: &[f32; N], out: &mut [f32; N]) {
        let mut y = [plain(0.0); N];
        self.0.process(&unit(), &x.map(plain), &mut y);
        *out = y.map(float);
    }
}

struct LadderCoeffs;

impl LadderCoeffs {
    fn new(hz: f32, sr: f32, reso: f32, drive: f32, v: LadderVariant) -> ladder::LadderCoeffs {
        ladder::LadderCoeffs::new(&unit(), plain(hz), plain(sr), plain(reso), plain(drive), v)
    }
}

struct LadderKernel(ladder::LadderKernel);

impl LadderKernel {
    fn new() -> Self {
        LadderKernel(ladder::LadderKernel::new())
    }
    fn set_coeffs(&mut self, c: ladder::LadderCoeffs) {
        self.0.set_coeffs(c);
    }
    fn reset(&mut self) {
        self.0.reset();
    }
    fn tick(&mut self, x: f32) -> f32 {
        float(self.0.tick(&unit(), plain(x)))
    }
}

struct OtaLadderCoeffs;

impl OtaLadderCoeffs {
    fn new(hz: f32, sr: f32, reso: f32, drive: f32) -> ota_ladder::OtaLadderCoeffs {
        ota_ladder::OtaLadderCoeffs::new(&unit(), plain(hz), plain(sr), plain(reso), plain(drive))
    }
}

struct OtaLadderKernel(ota_ladder::OtaLadderKernel);

impl OtaLadderKernel {
    fn new() -> Self {
        OtaLadderKernel(ota_ladder::OtaLadderKernel::new())
    }
    fn set_coeffs(&mut self, c: ota_ladder::OtaLadderCoeffs) {
        self.0.set_coeffs(c);
    }
    fn set_poles(&mut self, poles: OtaPoles) {
        self.0.set_poles(poles);
    }
    fn reset(&mut self) {
        self.0.reset();
    }
    fn tick(&mut self, x: f32) -> f32 {
        float(self.0.tick(&unit(), plain(x)))
    }
}

struct LfoCore(lfo::LfoCore, SineTable);

impl LfoCore {
    fn new(sr: f32, seed: u64) -> Self {
        LfoCore(lfo::LfoCore::new(&unit(), plain(sr), seed), SineTable::new(&unit()))
    }
    fn set_rate(&mut self, hz: f32) {
        self.0.set_rate(&unit(), plain(hz));
    }
    fn next(&mut self, shape: LfoShape) -> f32 {
        float(self.0.next(&unit(), &self.1, shape))
    }
}

fn lookup_sine(table: &SineTable, phase: f32) -> f32 {
    float(math::lookup_sine(&unit(), table, plain(phase)))
}

fn fast_sine(phase: f32) -> f32 {
    float(math::fast_sine(&unit(), plain(phase)))
}

fn fast_exp2(x: f32) -> f32 {
    float(math::fast_exp2(&unit(), plain(x)))
}

fn fast_tanh(x: f32) -> f32 {
    float(math::fast_tanh(&unit(), plain(x)))
}

fn xorshift64(s: &mut u64) -> f32 {
    float(noise::xorshift64(&unit(), s))
}

struct NoiseSource(noise::NoiseSource);

impl NoiseSource {
    fn new(seed: u64) -> Self {
        NoiseSource(noise::NoiseSource::new(seed))
    }
    fn next(&mut self, c: NoiseColor) -> f32 {
        float(self.0.next(&unit(), c))
    }
}

struct Oscillator(oscillator::Oscillator, SineTable);

impl Oscillator {
    fn new() -> Self {
        Oscillator(oscillator::Oscillator::new(), SineTable::new(&unit()))
    }
    fn set_increment(&mut self, inc: f32) {
        self.0.set_increment(plain(inc));
    }
    fn next(&mut self, wave: Waveform) -> f32 {
        float(self.0.next(&unit(), &self.1, wave))
    }
}

struct MonoPhaseAccumulator(phase::MonoPhaseAccumulator);

impl MonoPhaseAccumulator {
    fn new() -> Self {
        MonoPhaseAccumulator(phase::MonoPhaseAccumulator::new())
    }
    fn set_increment(&mut self, inc: f32) {
        self.0.set_increment(plain(inc));
    }
    fn advance(&mut self) {
        self.0.advance(&unit());
    }
    fn phase(&self) -> f32 {
        float(self.0.phase)
    }
}

fn polyblep(t: f32, dt: f32) -> f32 {
    float(phase::polyblep(&unit(), plain(t), plain(dt)))
}

fn make(a: f32, d: f32, s: f32, r: f32, sr: f32) -> AdsrCore {
    let mut c = AdsrCore::new(sr);
    c.set_params(a, d, s, r);
    c
}

#[test]
fn attack_sustain_release_cycle() {
    let sr = 48_000.0;
    let mut c = make(0.01, 0.02, 0.5, 0.03, sr);
    let mut peak = c.tick(true, true);
    for _ in 0..(0.01 * sr) as usize + 10 {
        peak = peak.max(c.tick(false, true));
    }
    assert!((peak - 1.0).abs() < 1e-3, "attack peak {peak}");
    for _ in 0..(0.02 * sr) as usize + 10 {
        c.tick(false, true);
    }
    let v = c.tick(false, true);
    assert!((v - 0.5).abs() < 1e-3, "sustain {v}");
    for _ in 0..(0.03 * sr) as usize + 100 {
        c.tick(false, false);
    }
    assert!(c.is_idle());
}

#[test]
fn rapid_gate_stays_in_range() {
    let mut c = make(0.01, 0.01, 0.5, 0.01, 44100.0);
    for _ in 0..50 {
        let v = c.tick(true, true);
        assert!(v.is_finite() && (0.0..=1.0).contains(&v));
        for _ in 0..3 {
            let v = c.tick(false, false);
            assert!(v.is_finite() && (0.0..=1.0).contains(&v));
        }
    }
}

#[test]
fn output_finite_and_passes_signal() {
    let sr = 48_000.0;
    let mut c = StereoChorus::new(sr);
    c.set_params(1.0, 0.7, 0.5);
    let table = SineTable::new(&unit());
    let mut energy = 0.0f32;
    for i in 0..48_000 {
        let x = lookup_sine(&table, (i as f32 * 220.0 / sr).fract());
        let (l, r) = c.process(x, x);
        assert!(l.is_finite() && r.is_finite());
        energy += l.abs();
    }
    assert!(energy > 100.0, "chorus produced near-silence");
}

#[test]
fn impulse_reappears_after_delay() {
    let mut d = DelayLine::new(1000);
    d.write(1.0);
    for _ in 0..99 {
        d.write(0.0);
    }
    // Wrote 100 samples; the impulse sits 99 behind the most recent write.
    assert!((d.read(99.0) - 1.0).abs() < 1e-4, "got {}", d.read(99.0));
}

#[test]
fn stereo_delay_decays_and_is_finite() {
    let sr = 48_000.0;
    let mut d = StereoDelay::new(sr, 2.0);
    d.set_params(0.01, 0.01, 0.5, 0.3, 1.0, false);
    let mut peak = 0.0f32;
    for i in 0..sr as usize {
        let x = if i == 0 { 1.0 } else { 0.0 };
        let (l, r) = d.process(x, x);
        assert!(l.is_finite() && r.is_finite());
        peak = peak.max(l.abs());
    }
    assert!(peak < 5.0, "delay unstable: {peak}");
}

#[test]
fn dc_passes_through_2x() {
    let mut os = Oversampler::new();
    let input = [1.0f32; 64];
    let mut output = [0.0f32; 32];
    // Flush, then measure.
    for _ in 0..4 {
        os.decimate(&input, &mut output, 2);
    }
    let tail = output[output.len() - 4..].iter().sum::<f32>() / 4.0;
    assert!((tail - 1.0).abs() < 0.01, "2x DC gain {tail}");
}

#[test]
fn nyquist_rejected_2x() {
    // Alternating ±1 at the oversampled rate is the oversampled Nyquist;
    // a halfband decimator should crush it.
    let mut os = Oversampler::new();
    let input: [f32; 64] = std::array::from_fn(|i| if i % 2 == 0 { 1.0 } else { -1.0 });
    let mut output = [0.0f32; 32];
    for _ in 0..6 {
        os.decimate(&input, &mut output, 2);
    }
    let peak = output[output.len() - 8..]
        .iter()
        .fold(0.0f32, |m, &x| m.max(x.abs()));
    assert!(peak < 0.05, "2x Nyquist leakage {peak}");
}

#[test]
fn dc_passes_through_4x() {
    let mut os = Oversampler::new();
    let input = [1.0f32; 128];
    let mut output = [0.0f32; 32];
    for _ in 0..6 {
        os.decimate(&input, &mut output, 4);
    }
    let tail = output[output.len() - 4..].iter().sum::<f32>() / 4.0;
    assert!((tail - 1.0).abs() < 0.02, "4x DC gain {tail}");
}

#[test]
fn dc_passes_through_8x() {
    let mut os = Oversampler::new();
    let input = [1.0f32; 256];
    let mut output = [0.0f32; 32];
    for _ in 0..6 {
        os.decimate(&input, &mut output, 8);
    }
    let tail = output[output.len() - 4..].iter().sum::<f32>() / 4.0;
    assert!((tail - 1.0).abs() < 0.02, "8x DC gain {tail}");
}

#[test]
fn nyquist_rejected_8x() {
    // Alternating ±1 at the 8× rate is the oversampled Nyquist; the cascade
    // should crush it back to the base rate.
    let mut os = Oversampler::new();
    let input: [f32; 256] = std::array::from_fn(|i| if i % 2 == 0 { 1.0 } else { -1.0 });
    let mut output = [0.0f32; 32];
    for _ in 0..6 {
        os.decimate(&input, &mut output, 8);
    }
    let peak = output[output.len() - 8..]
        .iter()
        .fold(0.0f32, |m, &x| m.max(x.abs()));
    assert!(peak < 0.05, "8x Nyquist leakage {peak}");
}

#[test]
fn passthrough_1x_is_identity() {
    let mut os = Oversampler::new();
    let input: [f32; 32] = std::array::from_fn(|i| i as f32);
    let mut output = [0.0f32; 32];
    os.decimate(&input, &mut output, 1);
    assert_eq!(input, output);
}

/// Steady-state gain at a frequency, as output peak / input peak. Both
/// peaks are taken from the same sampled sine, so undersampling of a
/// high-frequency tone cancels out of the ratio.
fn peak_gain(cutoff: f32, freq: f32, sr: f32) -> f32 {
    let mut k = HpfKernel::new();
    k.set_cutoff(cutoff, sr);
    let mut out_peak = 0.0f32;
    let mut in_peak = 0.0f32;
    let n = 20_000;
    for i in 0..n {
        let x = (2.0 * PI * freq * i as f32 / sr).sin();
        let y = k.tick(x);
        // Ignore the initial transient.
        if i > n / 2 {
            out_peak = out_peak.max(y.abs());
            in_peak = in_peak.max(x.abs());
        }
    }
    out_peak / in_peak
}

#[test]
fn attenuates_dc_and_lows_passes_highs() {
    let sr = 48_000.0;
    // DC is fully removed.
    let mut k = HpfKernel::new();
    k.set_cutoff(500.0, sr);
    let mut last = 0.0;
    for _ in 0..5000 {
        last = k.tick(1.0);
    }
    assert!(last.abs() < 1e-3, "DC not blocked: {last}");

    // A frequency well below cutoff is attenuated; well above passes ~unity.
    let low = peak_gain(500.0, 50.0, sr);
    let high = peak_gain(500.0, 8000.0, sr);
    assert!(low < 0.2, "low not attenuated: {low}");
    assert!(high > 0.9, "high not passed: {high}");
}

#[test]
fn default_low_cutoff_is_near_transparent() {
    // At the default 20 Hz cutoff, mid/high content passes essentially
    // untouched ("off").
    let sr = 48_000.0;
    let g = peak_gain(20.0, 1000.0, sr);
    assert!(
        (g - 1.0).abs() < 0.02,
        "20 Hz HPF not transparent at 1 kHz: {g}"
    );
}

#[test]
fn poly_lane0_matches_scalar() {
    let sr = 48_000.0;
    let mut kern = HpfKernel::new();
    kern.set_cutoff(800.0, sr);
    let mut poly = PolyHpf::new();
    poly.set_cutoff(0, 800.0, sr);
    let mut out = [0.0; N];
    let mut max_diff = 0.0f32;
    for i in 0..4800 {
        let x = (2.0 * PI * 300.0 * i as f32 / sr).sin();
        let xs = [x; N];
        poly.process(&xs, &mut out);
        let s = kern.tick(x);
        max_diff = max_diff.max((out[0] - s).abs());
    }
    assert!(max_diff < 1e-6, "poly vs scalar HPF diff {max_diff}");
}

#[test]
fn ladder_passes_dc_and_attenuates_hf() {
    let sr = 48_000.0;
    let mut k = LadderKernel::new();
    k.set_coeffs(LadderCoeffs::new(1000.0, sr, 0.0, 1.0, LadderVariant::Sharp));
    // DC settles near input. Use a small-signal input so the input tanh
    // stays linear (tanh(0.05) ≈ 0.04996); the four LP stages pass DC at
    // unity, so the steady-state gain is ~1.
    let x = 0.05;
    let mut last = 0.0;
    for _ in 0..2000 {
        last = k.tick(x);
    }
    assert!((last / x - 1.0).abs() < 0.02, "dc gain {}", last / x);

    // Nyquist-ish input is heavily attenuated.
    k.reset();
    let mut peak = 0.0f32;
    for i in 0..2000 {
        let s = if i % 2 == 0 { x } else { -x };
        peak = peak.max(k.tick(s).abs());
    }
    assert!(peak < 0.3 * x, "hf leakage {}", peak / x);
}

#[test]
fn ladder_stable_at_high_resonance() {
    let sr = 48_000.0;
    let mut k = LadderKernel::new();
    k.set_coeffs(LadderCoeffs::new(2000.0, sr, 1.0, 1.0, LadderVariant::Sharp));
    let mut peak = 0.0f32;
    for i in 0..48_000 {
        let x = if i == 0 { 1.0 } else { 0.0 };
        let y = k.tick(x);
        assert!(y.is_finite());
        peak = peak.max(y.abs());
    }
    assert!(peak < 10.0, "self-osc blew up: {peak}");
}

#[test]
fn period_matches_rate() {
    let sr = 1000.0;
    let mut lfo = LfoCore::new(sr, 1);
    lfo.set_rate(10.0); // 100-sample period
    // Find first up-zero-crossing period of the sine.
    let mut prev = lfo.next(LfoShape::Sine);
    let mut crossings = vec![];
    for i in 1..1000 {
        let v = lfo.next(LfoShape::Sine);
        if prev < 0.0 && v >= 0.0 {
            crossings.push(i);
        }
        prev = v;
    }
    assert!(crossings.len() >= 2);
    let period = (crossings[1] - crossings[0]) as i64;
    assert!((period - 100).abs() <= 2, "period {period}");
}

#[test]
fn all_shapes_bipolar_bounded() {
    let mut lfo = LfoCore::new(48000.0, 3);
    lfo.set_rate(5.0);
    for shape in LfoShape::all() {
        for _ in 0..20_000 {
            let v = lfo.next(shape);
            assert!(v.is_finite() && v.abs() <= 1.001, "{shape:?} {v}");
        }
    }
}

#[test]
fn sine_key_points() {
    let table = SineTable::new(&unit());
    for (p, e) in [(0.0, 0.0), (0.25, 1.0), (0.5, 0.0), (0.75, -1.0)] {
        assert!((fast_sine(p) - e).abs() < 0.002, "fast_sine({p})");
        assert!((lookup_sine(&table, p) - e).abs() < 0.002, "lookup_sine({p})");
    }
}

#[test]
fn exp2_matches_std() {
    for x in [-10.0, -1.0, 0.0, 0.5, 1.0, 7.0f32] {
        let rel = ((fast_exp2(x) - x.exp2()) / x.exp2()).abs();
        assert!(rel < 1e-4, "fast_exp2({x}) rel err {rel}");
    }
}

#[test]
fn tanh_saturates_and_odd() {
    assert_eq!(fast_tanh(0.0), 0.0);
    assert!((fast_tanh(10.0) - 1.0).abs() < 1e-6);
    assert!((fast_tanh(-10.0) + 1.0).abs() < 1e-6);
    for i in 1..=25 {
        let x = i as f32 * 0.1;
        assert!((fast_tanh(x) + fast_tanh(-x)).abs() < 1e-6);
    }
}

#[test]
fn white_variance_reasonable() {
    let mut s = 42u64;
    let n = 65536;
    let xs: Vec<f32> = (0..n).map(|_| xorshift64(&mut s)).collect();
    let mean = xs.iter().sum::<f32>() / n as f32;
    let var = xs.iter().map(|x| (x - mean).powi(2)).sum::<f32>() / n as f32;
    assert!((0.2..=0.4).contains(&var), "variance {var}");
}

#[test]
fn colors_finite_and_bounded() {
    let mut ns = NoiseSource::new(7);
    for c in NoiseColor::all() {
        for _ in 0..10_000 {
            let v = ns.next(c);
            assert!(v.is_finite() && v.abs() <= 1.5, "{c:?} {v}");
        }
    }
}

fn rms(samples: &[f32]) -> f32 {
    (samples.iter().map(|s| s * s).sum::<f32>() / samples.len() as f32).sqrt()
}

#[test]
fn all_waveforms_bounded_and_nonzero() {
    for wave in Waveform::all() {
        let mut osc = Oscillator::new();
        osc.set_increment(440.0 / 48000.0);
        let buf: Vec<f32> = (0..4800).map(|_| osc.next(wave)).collect();
        assert!(buf.iter().all(|s| s.is_finite() && s.abs() <= 2.0), "{wave:?} bounds");
        assert!(rms(&buf) > 0.1, "{wave:?} produced near-silence");
    }
}

#[test]
fn sine_is_approximately_unit_amplitude() {
    let mut osc = Oscillator::new();
    osc.set_increment(100.0 / 48000.0);
    let buf: Vec<f32> = (0..4800).map(|_| osc.next(Waveform::Sine)).collect();
    let peak = buf.iter().fold(0.0f32, |m, &s| m.max(s.abs()));
    assert!((peak - 1.0).abs() < 0.02, "sine peak {peak}");
}

#[test]
fn ota_ladder_passes_dc_and_attenuates_hf() {
    let sr = 48_000.0;
    let mut k = OtaLadderKernel::new();
    k.set_coeffs(OtaLadderCoeffs::new(1000.0, sr, 0.0, 1.0));
    let x = 0.05;
    let mut last = 0.0;
    for _ in 0..2000 {
        last = k.tick(x);
    }
    assert!((last / x - 1.0).abs() < 0.02, "dc gain {}", last / x);

    k.reset();
    let mut peak = 0.0f32;
    for i in 0..2000 {
        let s = if i % 2 == 0 { x } else { -x };
        peak = peak.max(k.tick(s).abs());
    }
    assert!(peak < 0.3 * x, "hf leakage {}", peak / x);
}

#[test]
fn two_pole_tap_is_brighter_than_four_pole() {
    // Same coefficients, different output tap: the 12 dB/oct tap must let
    // more HF through than the 24 dB/oct tap. Use a sub-Nyquist sine well
    // above the cutoff — a pure-Nyquist test is degenerate because the
    // bilinear one-pole has an exact zero at Nyquist (both taps → 0).
    let sr = 48_000.0;
    let f = 6_000.0;
    let c = OtaLadderCoeffs::new(1000.0, sr, 0.0, 1.0);
    let hf_energy = |poles| {
        let mut k = OtaLadderKernel::new();
        k.set_coeffs(c);
        k.set_poles(poles);
        let mut e = 0.0f32;
        for i in 0..4000 {
            let s = 0.1 * (2.0 * PI * f * i as f32 / sr).sin();
            let y = k.tick(s);
            if i > 2000 {
                e += y * y;
            }
        }
        e
    };
    assert!(hf_energy(OtaPoles::Two) > 4.0 * hf_energy(OtaPoles::Four));
}

#[test]
fn ota_ladder_stable_at_high_resonance() {
    let sr = 48_000.0;
    let mut k = OtaLadderKernel::new();
    k.set_coeffs(OtaLadderCoeffs::new(2000.0, sr, 1.0, 1.0));
    let mut peak = 0.0f32;
    for i in 0..48_000 {
        let x = if i == 0 { 1.0 } else { 0.0 };
        let y = k.tick(x);
        assert!(y.is_finite());
        peak = peak.max(y.abs());
    }
    assert!(peak < 10.0, "self-osc blew up: {peak}");
}

#[test]
fn wraps_once_per_period_at_440hz() {
    let mut acc = MonoPhaseAccumulator::new();
    acc.set_increment(440.0 / 44100.0);
    let mut wraps = 0;
    let mut prev = acc.phase();
    for _ in 0..102 {
        acc.advance();
        if acc.phase() < prev {
            wraps += 1;
        }
        prev = acc.phase();
    }
    assert_eq!(wraps, 1);
}

#[test]
fn polyblep_zero_in_interior() {
    assert_eq!(polyblep(0.5, 0.01), 0.0);
}
