//! The bucket-brigade line and the reverb.
use vxn1::fpu::{Fpu, Op};
use vxn1::plain::Plain;
use vxn1::{bbd, vreverb};

type Unit = Fpu<fn(Op, Plain, Plain) -> Plain>;

/// Hardware arithmetic, with results too small to be normal flushed to zero.
fn hardware(op: Op, a: Plain, b: Plain) -> Plain {
    let x = f32::from_bits(a.bits);
    let y = f32::from_bits(b.bits);
    let r = match op {
        Op::Add => x + y,
        Op::Subtract => x - y,
        Op::Multiply => x * y,
        Op::Divide => x / y,
        Op::Power => x.powf(y),
        Op::SquareRoot => x.sqrt(),
        Op::Exponential => x.exp(),
        Op::Logarithm => x.ln(),
        Op::Sine => x.sin(),
        Op::Cosine => x.cos(),
        Op::Tangent => x.tan(),
    };
    if r.is_nan() {
        Plain { bits: 0x7fc0_0000 }
    } else if r.is_subnormal() {
        Plain { bits: r.to_bits() & 0x8000_0000 }
    } else {
        Plain { bits: r.to_bits() }
    }
}

fn unit() -> Unit {
    Fpu { alu: hardware }
}

fn plain(x: f32) -> Plain {
    Plain { bits: x.to_bits() }
}

fn float(x: Plain) -> f32 {
    f32::from_bits(x.bits)
}

const SR: f32 = 48_000.0;
const TAU: f32 = std::f32::consts::TAU;
const DELAY_S: f32 = 0.002;

struct ModDelayLine(bbd::ModDelayLine);

impl ModDelayLine {
    fn new(max: f32, sr: f32) -> Self {
        ModDelayLine(bbd::ModDelayLine::new(&unit(), plain(max), plain(sr)))
    }
    fn set_recon_cutoff(&mut self, hz: f32) {
        self.0.set_recon_cutoff(&unit(), plain(hz));
    }
    fn process(&mut self, x: f32, delay: f32) -> f32 {
        float(self.0.process(&unit(), plain(x), plain(delay)))
    }
}

struct StereoVReverb(vreverb::StereoVReverb);

impl StereoVReverb {
    fn new(sr: f32, seed: u32) -> Self {
        StereoVReverb(vreverb::StereoVReverb::new(&unit(), plain(sr), seed))
    }
    fn set_params(&mut self, size: f32, decay: f32, damp: f32, rate: f32, depth: f32, jit: f32) {
        self.0.set_params(
            &unit(),
            plain(size),
            plain(decay),
            plain(damp),
            plain(rate),
            plain(depth),
            plain(jit),
        );
    }
    fn set_diffusion(&mut self, amount: f32) {
        self.0.set_diffusion(&unit(), plain(amount));
    }
    fn process_block(&mut self, dry: &[f32], l: &mut [f32], r: &mut [f32]) {
        let xs: Vec<Plain> = dry.iter().map(|x| plain(*x)).collect();
        let mut ls: Vec<Plain> = l.iter().map(|x| plain(*x)).collect();
        let mut rs: Vec<Plain> = r.iter().map(|x| plain(*x)).collect();
        self.0.process_block(&unit(), &xs, &mut ls, &mut rs);
        for i in 0..l.len() {
            l[i] = float(ls[i]);
        }
        for i in 0..r.len() {
            r[i] = float(rs[i]);
        }
    }
}


fn rms_gain<F: FnMut(f32) -> f32>(mut step: F, freq: f32) -> f32 {
    let n = SR as usize;
    let warm = n / 4;
    let (mut si, mut so) = (0.0_f64, 0.0_f64);
    for i in 0..n {
        let x = (TAU * freq * (i as f32 / SR)).sin();
        let y = step(x);
        if i >= warm {
            si += (x as f64).powi(2);
            so += (y as f64).powi(2);
        }
    }
    (so / si).sqrt() as f32
}

#[test]
fn dc_gain_is_unity() {
    // Both banks and the one-pole are unity-DC; the delay only shifts.
    let mut line = ModDelayLine::new(0.01, SR);
    line.set_recon_cutoff(8_000.0);
    let mut y = 0.0;
    for _ in 0..(SR as usize) {
        y = line.process(1.0, DELAY_S);
    }
    assert!((y - 1.0).abs() < 1e-3, "DC gain should be ~1.0, got {y}");
}

#[test]
fn passband_is_non_peaking() {
    for &f in &[50.0, 200.0, 1_000.0, 3_000.0, 6_000.0_f32] {
        let mut line = ModDelayLine::new(0.01, SR);
        line.set_recon_cutoff(8_000.0);
        let g = rms_gain(|x| line.process(x, DELAY_S), f);
        assert!(g <= 1.02, "gain at {f} Hz peaked: {g}");
    }
}

#[test]
fn rolls_off_high_frequencies() {
    let mut line = ModDelayLine::new(0.01, SR);
    line.set_recon_cutoff(8_000.0);
    let lo = rms_gain(|x| line.process(x, DELAY_S), 1_000.0);
    let mut line = ModDelayLine::new(0.01, SR);
    line.set_recon_cutoff(8_000.0);
    let hi = rms_gain(|x| line.process(x, DELAY_S), 14_000.0);
    assert!(hi < lo * 0.5, "expected HF rolloff: 1k={lo}, 14k={hi}");
}


fn make() -> StereoVReverb {
    StereoVReverb::new(SR, 0xBBD0_0040)
}

#[test]
fn wet_decays_to_zero_with_no_input() {
    // Feed zero, allow any startup transient to die, assert the wet output
    // settles at zero (no self-oscillation in an empty reverb).
    let mut rev = make();
    let zeros = [0.0_f32; 64];
    let mut l = [0.0_f32; 64];
    let mut r = [0.0_f32; 64];
    for _ in 0..4_000 {
        rev.process_block(&zeros, &mut l, &mut r);
    }
    for i in 0..64 {
        assert!(l[i].abs() < 1e-6 && r[i].abs() < 1e-6, "wet leaked: l={} r={}", l[i], r[i]);
    }
}

#[test]
fn output_is_bounded_under_sustained_input() {
    let mut rev = make();
    rev.set_params(0.7, 0.9, 0.5, 0.3, 0.2, 0.0);
    let mut dry = [0.0_f32; 64];
    let mut l = [0.0_f32; 64];
    let mut r = [0.0_f32; 64];
    let mut t = 0;
    for _ in 0..(40_000 / 64 + 1) {
        for i in 0..64 {
            let s = (t as f32) / SR;
            dry[i] = 0.5 * (TAU * 440.0 * s).sin();
            t += 1;
        }
        rev.process_block(&dry, &mut l, &mut r);
        for i in 0..64 {
            assert!(
                l[i].is_finite() && r[i].is_finite() && l[i].abs() < 5.0 && r[i].abs() < 5.0,
                "diverged at t={t}: l={} r={}", l[i], r[i]
            );
        }
    }
}

#[test]
fn impulse_tail_decays() {
    let mut rev = make();
    // Hold the delay still so the test measures decay, not LFO motion.
    rev.set_params(0.5, 0.6, 0.5, 0.3, 0.0, 0.0);

    // Single-sample impulse.
    let mut dry = [0.0_f32; 1];
    let mut l = [0.0_f32; 1];
    let mut r = [0.0_f32; 1];
    dry[0] = 1.0;
    rev.process_block(&dry, &mut l, &mut r);
    dry[0] = 0.0;

    let mut early_peak = 0.0_f32;
    for _ in 0..((0.3 * SR) as usize) {
        rev.process_block(&dry, &mut l, &mut r);
        let m = l[0].abs().max(r[0].abs());
        if m > early_peak {
            early_peak = m;
        }
    }
    let mut late_peak = 0.0_f32;
    for _ in 0..((0.7 * SR) as usize) {
        rev.process_block(&dry, &mut l, &mut r);
        let m = l[0].abs().max(r[0].abs());
        if m > late_peak {
            late_peak = m;
        }
    }
    assert!(
        late_peak < early_peak,
        "tail should decay: early={early_peak} late={late_peak}"
    );
}

#[test]
fn diffusion_preserves_dry_wet_unity_at_zero() {
    // Two reverbs configured identically. One is left at the default
    // (set_diffusion never called → g = 0 by construction); the other has
    // set_diffusion(0.0) called explicitly. Both must produce bit-identical
    // wet outputs: amount = 0 is a true bypass.
    let mut a = make();
    let mut b = make();
    a.set_params(0.5, 0.7, 0.5, 0.3, 0.0, 0.0);
    b.set_params(0.5, 0.7, 0.5, 0.3, 0.0, 0.0);
    b.set_diffusion(0.0);

    let mut dry = [0.0_f32; 64];
    let (mut la, mut ra) = ([0.0_f32; 64], [0.0_f32; 64]);
    let (mut lb, mut rb) = ([0.0_f32; 64], [0.0_f32; 64]);
    dry[0] = 1.0;
    a.process_block(&dry, &mut la, &mut ra);
    b.process_block(&dry, &mut lb, &mut rb);
    dry[0] = 0.0;
    for _ in 0..((0.2 * SR / 64.0) as usize) {
        a.process_block(&dry, &mut la, &mut ra);
        b.process_block(&dry, &mut lb, &mut rb);
        for i in 0..64 {
            assert_eq!(la[i].to_bits(), lb[i].to_bits(), "L diverged at i={i}");
            assert_eq!(ra[i].to_bits(), rb[i].to_bits(), "R diverged at i={i}");
        }
    }
}

#[test]
fn diffusion_smooths_impulse_density() {
    // Qualitative: with diffusion = 1, the impulse response in the first
    // 50 ms picks up substantially more zero-crossings than at diffusion
    // = 0 (loose threshold; we're measuring density change, not a number).
    fn zero_crossings(rev: &mut StereoVReverb) -> usize {
        let mut dry = [0.0_f32; 64];
        let mut l = [0.0_f32; 64];
        let mut r = [0.0_f32; 64];
        dry[0] = 1.0;
        rev.process_block(&dry, &mut l, &mut r);
        dry[0] = 0.0;
        let mut prev = l[0];
        let mut crossings = 0;
        // 50 ms ≈ 2400 samples at 48 kHz.
        let total = (0.05 * SR) as usize;
        let mut taken = 1;
        while taken < total {
            rev.process_block(&dry, &mut l, &mut r);
            for i in 0..64 {
                if taken >= total { break; }
                if (prev >= 0.0) != (l[i] >= 0.0) {
                    crossings += 1;
                }
                prev = l[i];
                taken += 1;
            }
        }
        crossings
    }

    let mut dry_rev = make();
    dry_rev.set_params(0.5, 0.6, 0.5, 0.3, 0.0, 0.0);
    dry_rev.set_diffusion(0.0);
    let dry_cx = zero_crossings(&mut dry_rev);

    let mut wet_rev = make();
    wet_rev.set_params(0.5, 0.6, 0.5, 0.3, 0.0, 0.0);
    wet_rev.set_diffusion(1.0);
    let wet_cx = zero_crossings(&mut wet_rev);

    assert!(
        wet_cx > dry_cx * 2,
        "expected denser response under diffusion: dry={dry_cx} wet={wet_cx}"
    );
}

#[test]
fn diffusion_does_not_blow_up() {
    let mut rev = make();
    rev.set_params(0.7, 0.9, 0.5, 0.3, 0.2, 0.0);
    rev.set_diffusion(1.0);
    let mut dry = [0.0_f32; 64];
    let mut l = [0.0_f32; 64];
    let mut r = [0.0_f32; 64];
    let mut t = 0;
    for _ in 0..(40_000 / 64 + 1) {
        for i in 0..64 {
            let s = (t as f32) / SR;
            dry[i] = 0.5 * (TAU * 440.0 * s).sin();
            t += 1;
        }
        rev.process_block(&dry, &mut l, &mut r);
        for i in 0..64 {
            assert!(
                l[i].is_finite() && r[i].is_finite() && l[i].abs() < 5.0 && r[i].abs() < 5.0,
                "diverged at t={t}: l={} r={}", l[i], r[i]
            );
        }
    }
}

#[test]
fn taps_decorrelate_stereo() {
    let mut rev = make();
    rev.set_params(0.5, 0.7, 0.5, 0.3, 0.2, 0.0);
    let mut dry = [0.0_f32; 1];
    let mut l = [0.0_f32; 1];
    let mut r = [0.0_f32; 1];
    let mut max_diff = 0.0_f32;
    for i in 0..20_000 {
        dry[0] = if i < 64 { 0.8 } else { 0.0 };
        rev.process_block(&dry, &mut l, &mut r);
        max_diff = max_diff.max((l[0] - r[0]).abs());
    }
    assert!(max_diff > 1e-3, "L/R never decorrelated: max_diff={max_diff}");
}
