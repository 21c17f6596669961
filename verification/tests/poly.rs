//! The lane-parallel kernels.
use vxn1::fpu::{Fpu, Op};
use vxn1::math::SineTable;
use vxn1::oscillator::Waveform;
use vxn1::plain::Plain;
use vxn1::{oscillator, ota_ladder, poly};

type Unit = Fpu<fn(Op, Plain, Plain) -> Plain>;

/// Hardware arithmetic, with results too small to be normal flushed to zero.
fn hardware(op: Op, a: Plain, b: Plain) -> Plain {
    let x = f32::from_bits(a.bits);
    let y = f32::from_bits(b.bits);
    let r = match op {
        Op::Add => x + y,
        Op::Subtract => x - y,
        Op::Multiply => x * y,
        Op::Divide => x / y,
        Op::Power => x.powf(y),
        Op::SquareRoot => x.sqrt(),
        Op::Exponential => x.exp(),
        Op::Logarithm => x.ln(),
        Op::Sine => x.sin(),
        Op::Cosine => x.cos(),
        Op::Tangent => x.tan(),
    };
    if r.is_nan() {
        Plain { bits: 0x7fc0_0000 }
    } else if r.is_subnormal() {
        Plain { bits: r.to_bits() & 0x8000_0000 }
    } else {
        Plain { bits: r.to_bits() }
    }
}

fn unit() -> Unit {
    Fpu { alu: hardware }
}

fn plain(x: f32) -> Plain {
    Plain { bits: x.to_bits() }
}

fn float(x: Plain) -> f32 {
    f32::from_bits(x.bits)
}

const N: usize = 8;

/// A layer's oscillators, their increments set from outside. `phase` serves the plain reset
/// that the sync is measured against.
struct PolyOscillator {
    core: poly::PolyOscillator,
    inc: [f32; N],
    phase: [f32; N],
}

impl PolyOscillator {
    fn new() -> Self {
        PolyOscillator { core: poly::PolyOscillator::new(), inc: [0.0; N], phase: [0.0; N] }
    }
    fn tune(&mut self) {
        for v in 0..N {
            self.core.set_inc(v, plain(self.inc[v]));
        }
    }
    fn process(&mut self, wave: Waveform, pw: &[f32; N], out: &mut [f32; N]) {
        self.tune();
        let mut y = [plain(0.0); N];
        self.core.process(&unit(), wave, &pw.map(plain), &mut y);
        *out = y.map(float);
    }
    fn process_pair(
        &mut self,
        slave: &mut PolyOscillator,
        sync: bool,
        pm: f32,
        wave1: Waveform,
        wave2: Waveform,
        pw1: &[f32; N],
        pw2: &[f32; N],
        o1: &mut [f32; N],
        o2: &mut [f32; N],
    ) {
        self.tune();
        slave.tune();
        let (mut a, mut b) = ([plain(0.0); N], [plain(0.0); N]);
        self.core.process_pair(
            &unit(),
            &mut slave.core,
            sync,
            plain(pm),
            wave1,
            wave2,
            &pw1.map(plain),
            &pw2.map(plain),
            &mut a,
            &mut b,
        );
        *o1 = a.map(float);
        *o2 = b.map(float);
    }
    fn process_sync(
        &mut self,
        slave: &mut PolyOscillator,
        wave1: Waveform,
        wave2: Waveform,
        pw1: &[f32; N],
        pw2: &[f32; N],
        o1: &mut [f32; N],
        o2: &mut [f32; N],
    ) {
        self.tune();
        slave.tune();
        let (mut a, mut b) = ([plain(0.0); N], [plain(0.0); N]);
        self.core.process_sync(
            &unit(),
            &mut slave.core,
            wave1,
            wave2,
            &pw1.map(plain),
            &pw2.map(plain),
            &mut a,
            &mut b,
        );
        *o1 = a.map(float);
        *o2 = b.map(float);
    }
    fn process_pm(
        &mut self,
        slave: &mut PolyOscillator,
        pm: f32,
        wave1: Waveform,
        wave2: Waveform,
        pw1: &[f32; N],
        pw2: &[f32; N],
        o1: &mut [f32; N],
        o2: &mut [f32; N],
    ) {
        self.tune();
        slave.tune();
        let (mut a, mut b) = ([plain(0.0); N], [plain(0.0); N]);
        self.core.process_pm(
            &unit(),
            &mut slave.core,
            plain(pm),
            wave1,
            wave2,
            &pw1.map(plain),
            &pw2.map(plain),
            &mut a,
            &mut b,
        );
        *o1 = a.map(float);
        *o2 = b.map(float);
    }
}

struct Oscillator(oscillator::Oscillator, SineTable);

impl Oscillator {
    fn new() -> Self {
        Oscillator(oscillator::Oscillator::new(), SineTable::new(&unit()))
    }
    fn set_increment(&mut self, inc: f32) {
        self.0.set_increment(plain(inc));
    }
    fn next(&mut self, wave: Waveform) -> f32 {
        float(self.0.next(&unit(), &self.1, wave))
    }
}

fn osc_sample(wave: Waveform, phase: f32, pw: f32, dt: f32) -> f32 {
    float(poly::osc_sample(&unit(), wave, plain(phase), plain(pw), plain(dt)))
}

#[derive(Clone, Copy)]
struct OtaLadderCoeffs {
    core: ota_ladder::OtaLadderCoeffs,
    g: f32,
}

impl OtaLadderCoeffs {
    fn new(hz: f32, sr: f32, reso: f32, drive: f32) -> Self {
        let core = ota_ladder::OtaLadderCoeffs::new(
            &unit(),
            plain(hz),
            plain(sr),
            plain(reso),
            plain(drive),
        );
        OtaLadderCoeffs { core, g: float(core.g) }
    }
}

struct PolyOtaLadder(poly::PolyOtaLadder);

impl PolyOtaLadder {
    fn new() -> Self {
        PolyOtaLadder(poly::PolyOtaLadder::new())
    }
    fn set_coeffs(&mut self, v: usize, c: OtaLadderCoeffs) {
        self.0.set_coeffs(v, c.core);
    }
    fn snap_coeffs(&mut self) {
        self.0.snap_coeffs();
    }
    fn prepare_ramp(&mut self, steps: usize) {
        self.0.prepare_ramp(&unit(), steps);
    }
    fn process(&mut self, x: &[f32; N], out: &mut [f32; N]) {
        let mut y = [plain(0.0); N];
        self.0.process(&unit(), &x.map(plain), &mut y);
        *out = y.map(float);
    }
    fn g(&self, v: usize) -> f32 {
        float(self.0.lanes[v].now.g)
    }
}

fn poly_ring_mod(o1: &[f32; N], o2: &[f32; N], gain: f32, out: &mut [f32; N]) {
    let mut y = [plain(0.0); N];
    poly::poly_ring_mod(&unit(), &o1.map(plain), &o2.map(plain), plain(gain), &mut y);
    *out = y.map(float);
}

#[test]
fn poly_saw_matches_scalar_within_tolerance() {
    // Lane 0 of the poly oscillator should track a scalar saw closely
    // (same polyblep maths, branchless form).
    let inc = 220.0 / 48_000.0;
    let mut poly = PolyOscillator::new();
    poly.inc[0] = inc;
    let mut scalar = Oscillator::new();
    scalar.set_increment(inc);

    let pw = [0.5; N];
    let mut out = [0.0; N];
    let mut max_diff = 0.0f32;
    for _ in 0..4800 {
        poly.process(Waveform::Saw, &pw, &mut out);
        let s = scalar.next(Waveform::Saw);
        max_diff = max_diff.max((out[0] - s).abs());
    }
    assert!(max_diff < 1e-5, "poly vs scalar saw diff {max_diff}");
}

#[test]
fn poly_osc_all_lanes_bounded() {
    let mut poly = PolyOscillator::new();
    for v in 0..N {
        poly.inc[v] = (50.0 + v as f32 * 40.0) / 48_000.0;
    }
    let pw = [0.5; N];
    let mut out = [0.0; N];
    for wave in Waveform::all() {
        for _ in 0..4800 {
            poly.process(wave, &pw, &mut out);
            assert!(
                out.iter().all(|s| s.is_finite() && s.abs() <= 2.0),
                "{wave:?}"
            );
        }
    }
}

#[test]
fn frozen_voice_produces_no_nan() {
    // inc = 0 (inactive voice): pblep must not divide by zero.
    let mut poly = PolyOscillator::new();
    let pw = [0.5; N];
    let mut out = [0.0; N];
    for _ in 0..100 {
        poly.process(Waveform::Pulse, &pw, &mut out);
        assert!(out.iter().all(|s| s.is_finite()));
    }
}

/// The specialised `process_sync` / `process_pm` kernels must match the
/// combined `process_pair` oracle: sync ≡ `process_pair(sync=true, pm=0)`,
/// PM ≡ `process_pair(sync=false, pm=index)`. Drives detuned master/slave
/// across every osc1×osc2 waveform pair and a moving pulse width so the BLEP
/// and reset branches all fire, and checks both osc outputs every sample.
#[test]
fn specialised_cross_mod_kernels_match_combined() {
    fn pair() -> (PolyOscillator, PolyOscillator) {
        let mut m = PolyOscillator::new();
        let mut s = PolyOscillator::new();
        for v in 0..N {
            // Distinct, detuned incs per lane; slave runs higher (sync/PM
            // motion). Lane 0 left at inc 0 to exercise the frozen guard.
            if v > 0 {
                m.inc[v] = (60.0 + v as f32 * 30.0) / 48_000.0;
                s.inc[v] = (90.0 + v as f32 * 55.0) / 48_000.0;
            }
        }
        (m, s)
    }

    for wave1 in Waveform::all() {
        for wave2 in Waveform::all() {
            // Sync: combined(sync=true, pm=0) vs process_sync.
            let (mut ma, mut sa) = pair();
            let (mut mb, mut sb) = pair();
            // PM: combined(sync=false, pm=index) vs process_pm.
            let (mut mc, mut sc) = pair();
            let (mut md, mut sd) = pair();
            let (mut oa1, mut oa2) = ([0.0; N], [0.0; N]);
            let (mut ob1, mut ob2) = ([0.0; N], [0.0; N]);
            let (mut oc1, mut oc2) = ([0.0; N], [0.0; N]);
            let (mut od1, mut od2) = ([0.0; N], [0.0; N]);

            for i in 0..2000 {
                // Sweep pulse width so the pulse BLEP edges move.
                let w = 0.3 + 0.4 * (i as f32 * 0.01).sin().abs();
                let pw1 = [w; N];
                let pw2 = [0.5; N];

                ma.process_pair(
                    &mut sa, true, 0.0, wave1, wave2, &pw1, &pw2, &mut oa1, &mut oa2,
                );
                mb.process_sync(&mut sb, wave1, wave2, &pw1, &pw2, &mut ob1, &mut ob2);

                mc.process_pair(
                    &mut sc, false, 0.7, wave1, wave2, &pw1, &pw2, &mut oc1, &mut oc2,
                );
                md.process_pm(&mut sd, 0.7, wave1, wave2, &pw1, &pw2, &mut od1, &mut od2);

                for v in 0..N {
                    assert!(
                        (oa1[v] - ob1[v]).abs() < 1e-6 && (oa2[v] - ob2[v]).abs() < 1e-6,
                        "sync mismatch {wave1:?}/{wave2:?} lane {v} i {i}: \
                         o1 {} vs {}, o2 {} vs {}",
                        oa1[v], ob1[v], oa2[v], ob2[v]
                    );
                    assert!(
                        (oc1[v] - od1[v]).abs() < 1e-6 && (oc2[v] - od2[v]).abs() < 1e-6,
                        "pm mismatch {wave1:?}/{wave2:?} lane {v} i {i}: \
                         o1 {} vs {}, o2 {} vs {}",
                        oc1[v], od1[v], oc2[v], od2[v]
                    );
                }
            }
        }
    }
}

#[test]
fn poly_ladder_stable_and_lowpass() {
    let sr = 48_000.0;
    let mut lad = PolyOtaLadder::new();
    for v in 0..N {
        lad.set_coeffs(v, OtaLadderCoeffs::new(1000.0, sr, 0.5, 1.0));
    }
    lad.snap_coeffs();
    // Feed Nyquist-ish into all lanes; should be attenuated and finite.
    let mut peak = 0.0f32;
    let mut out = [0.0; N];
    for i in 0..4800 {
        let s = if i % 2 == 0 { 0.1 } else { -0.1 };
        let x = [s; N];
        lad.process(&x, &mut out);
        peak = peak.max(out[0].abs());
        assert!(out.iter().all(|y| y.is_finite()));
    }
    assert!(peak < 0.1, "hf not attenuated: {peak}");
}

#[test]
fn ladder_coeffs_interpolate_across_block() {
    // prepare_ramp must land the current coefficients exactly on target
    // after `steps` process calls, ramping linearly (no jump on sample 0).
    let sr = 48_000.0;
    let mut lad = PolyOtaLadder::new();
    // Start settled at a low cutoff, then target a high one.
    for v in 0..N {
        lad.set_coeffs(v, OtaLadderCoeffs::new(200.0, sr, 0.0, 1.0));
    }
    lad.snap_coeffs();
    let g_start = lad.g(0);
    let target = OtaLadderCoeffs::new(8000.0, sr, 0.0, 1.0);
    for v in 0..N {
        lad.set_coeffs(v, target);
    }
    let steps = 32;
    lad.prepare_ramp(steps);
    let x = [0.0; N];
    let mut out = [0.0; N];
    // After one step the coefficient has moved only a fraction of the way.
    lad.process(&x, &mut out);
    let after_one = lad.g(0);
    assert!(
        after_one > g_start && after_one < target.g,
        "no mid-ramp value: start {g_start}, after1 {after_one}, target {}",
        target.g
    );
    // Remaining steps land on (≈) the target.
    for _ in 1..steps {
        lad.process(&x, &mut out);
    }
    assert!(
        (lad.g(0) - target.g).abs() < 1e-5,
        "ramp missed target: {} vs {}",
        lad.g(0),
        target.g
    );
}

#[test]
fn synced_slave_locks_to_master_period() {
    // Master at a power-of-two sample period (512, so 1/512 is exact in f32
    // and the master wrap fraction repeats bit-exactly); slave tuned well
    // above and not a divisor of it. With sync, the slave resets at every
    // master wrap, so its output is exactly periodic at the master's period.
    let period = 512usize;
    let mut osc1 = PolyOscillator::new();
    let mut osc2 = PolyOscillator::new();
    osc1.inc[0] = 1.0 / period as f32;
    osc2.inc[0] = 1.0 / 63.0; // ~7.6× master, non-divisor
    let pw = [0.5; N];
    let (mut o1, mut o2) = ([0.0; N], [0.0; N]);

    // Capture two full master periods after a one-period warm-up.
    let mut log = Vec::with_capacity(2 * period);
    for i in 0..(3 * period) {
        osc1.process_pair(
            &mut osc2,
            true,
            0.0,
            Waveform::Saw,
            Waveform::Sine,
            &pw,
            &pw,
            &mut o1,
            &mut o2,
        );
        if i >= period {
            log.push(o2[0]);
        }
    }
    // Slave output repeats with the master's period (sync lock).
    let mut max_diff = 0.0f32;
    for i in 0..period {
        max_diff = max_diff.max((log[i] - log[i + period]).abs());
    }
    assert!(
        max_diff < 1e-6,
        "slave not locked to master period: {max_diff}"
    );
}

/// Sub-sample polyBLEP sync sprays materially less aliasing than a
/// sample-accurate hard reset: render a synced
/// saw both ways, take the magnitude spectrum (rectangular window — the
/// signal is periodic in the window by construction), and compare energy in
/// the upper eighth of the spectrum, which a BLEP-smoothed synced saw keeps
/// nearly empty while the boundary-rounded reset fills with broadband noise.
#[test]
fn subsample_sync_beats_sample_accurate_aliasing() {
    const SR: f32 = 48_000.0;
    const NFFT: usize = 4096;
    // 40 cycles of the master fit exactly in the window (bin-aligned), so
    // the synced output is periodic in NFFT and needs no window.
    const K: usize = 40;
    let f_master = K as f32 * SR / NFFT as f32; // 468.75 Hz
    let f_slave = f_master * 1.5; // 3:2 sync

    // Sample-accurate path: hard reset to 0 on the master wrap, no
    // residual.
    fn process_naive(
        master: &mut PolyOscillator,
        slave: &mut PolyOscillator,
        o2: &mut [f32; N],
    ) {
        for v in 0..N {
            o2[v] = osc_sample(Waveform::Saw, slave.phase[v], 0.5, slave.inc[v]);
            let np1 = master.phase[v] + master.inc[v];
            let wrapped = (np1 >= 1.0) as u32 as f32;
            master.phase[v] = np1 - wrapped;
            let np2 = slave.phase[v] + slave.inc[v];
            slave.phase[v] = (np2 - (np2 >= 1.0) as u32 as f32) * (1.0 - wrapped);
        }
    }

    fn render(subsample: bool, f_master: f32, f_slave: f32) -> Vec<f32> {
        let mut m = PolyOscillator::new();
        let mut s = PolyOscillator::new();
        m.inc[0] = f_master / SR;
        s.inc[0] = f_slave / SR;
        let pw = [0.5; N];
        let (mut o1, mut o2) = ([0.0; N], [0.0; N]);
        // Warm up past the initial transient, then capture one window.
        for _ in 0..NFFT {
            if subsample {
                m.process_pair(
                    &mut s, true, 0.0, Waveform::Saw, Waveform::Saw, &pw, &pw, &mut o1, &mut o2,
                );
            } else {
                process_naive(&mut m, &mut s, &mut o2);
            }
        }
        let mut out = Vec::with_capacity(NFFT);
        for _ in 0..NFFT {
            if subsample {
                m.process_pair(
                    &mut s, true, 0.0, Waveform::Saw, Waveform::Saw, &pw, &pw, &mut o1, &mut o2,
                );
            } else {
                process_naive(&mut m, &mut s, &mut o2);
            }
            out.push(o2[0]);
        }
        out
    }

    // Naive DFT magnitude sum over the upper eighth (bins 3N/8..N/2).
    fn high_band_energy(x: &[f32]) -> f64 {
        let n = x.len();
        let start = 3 * n / 8;
        let end = n / 2;
        let mut total = 0.0f64;
        for k in start..end {
            let w = std::f64::consts::TAU * k as f64 / n as f64;
            let (mut re, mut im) = (0.0f64, 0.0f64);
            for (i, &s) in x.iter().enumerate() {
                let ph = w * i as f64;
                re += s as f64 * ph.cos();
                im -= s as f64 * ph.sin();
            }
            total += (re * re + im * im).sqrt();
        }
        total
    }

    let _ = f_slave;
    // Several inharmonic ratios; the floor across them is ~1.5×, so require
    // the sample-accurate reset to spray at least 1.4× the BLEP path's
    // high-band energy (margin tuned with headroom against regressions).
    for ratio in [1.5_f32, 1.618_034, 2.5, 3.5] {
        let blep = render(true, f_master, f_master * ratio);
        let naive = render(false, f_master, f_master * ratio);
        assert!(blep.iter().all(|v| v.is_finite()), "ratio {ratio}: non-finite");
        let blep_hi = high_band_energy(&blep);
        let naive_hi = high_band_energy(&naive);
        assert!(
            naive_hi > blep_hi * 1.4,
            "ratio {ratio}: expected sample-accurate aliasing ({naive_hi:.2}) to \
             exceed sub-sample BLEP ({blep_hi:.2}) by >1.4×"
        );
    }
}

#[test]
fn synced_pair_all_lanes_finite() {
    // Mixed waveforms, varied tunings, and a frozen (inc = 0) lane: the
    // coupled path must stay finite, including the masked phase reset.
    let mut osc1 = PolyOscillator::new();
    let mut osc2 = PolyOscillator::new();
    for v in 0..N {
        osc1.inc[v] = (40.0 + v as f32 * 30.0) / 48_000.0;
        osc2.inc[v] = (300.0 + v as f32 * 90.0) / 48_000.0;
    }
    osc1.inc[3] = 0.0; // frozen master lane
    osc2.inc[5] = 0.0; // frozen slave lane
    let pw = [0.5; N];
    let (mut o1, mut o2) = ([0.0; N], [0.0; N]);
    for (w1, w2) in [
        (Waveform::Saw, Waveform::Pulse),
        (Waveform::Pulse, Waveform::Saw),
        (Waveform::Sine, Waveform::Triangle),
    ] {
        for _ in 0..4800 {
            // sync on + heavy cross-mod: both couplings active at once.
            osc1.process_pair(&mut osc2, true, 0.9, w1, w2, &pw, &pw, &mut o1, &mut o2);
            assert!(
                o1.iter().chain(o2.iter()).all(|s| s.is_finite()),
                "{w1:?}/{w2:?}"
            );
        }
    }
}

#[test]
fn coupled_xmod_zero_matches_fast_path() {
    // The coupled path with sync off and PM index 0 must be bit-identical to
    // the independent fast path (`read == phase1`, no reset), so plain patches
    // selecting the fast path lose nothing.
    let mut a1 = PolyOscillator::new();
    let mut a2 = PolyOscillator::new();
    let mut b1 = PolyOscillator::new();
    let mut b2 = PolyOscillator::new();
    for v in 0..N {
        let i1 = (60.0 + v as f32 * 25.0) / 48_000.0;
        let i2 = (90.0 + v as f32 * 55.0) / 48_000.0;
        a1.inc[v] = i1;
        b1.inc[v] = i1;
        a2.inc[v] = i2;
        b2.inc[v] = i2;
    }
    a1.inc[7] = 0.0; // frozen lane
    b1.inc[7] = 0.0;
    let pw = [0.5; N];
    let (mut fo1, mut fo2) = ([0.0; N], [0.0; N]);
    let (mut co1, mut co2) = ([0.0; N], [0.0; N]);
    for _ in 0..4800 {
        // Fast path.
        a1.process(Waveform::Saw, &pw, &mut fo1);
        a2.process(Waveform::Pulse, &pw, &mut fo2);
        // Coupled path, sync off, depth 0.
        b1.process_pair(
            &mut b2,
            false,
            0.0,
            Waveform::Saw,
            Waveform::Pulse,
            &pw,
            &pw,
            &mut co1,
            &mut co2,
        );
        assert_eq!(fo1, co1, "osc1 diverged from fast path");
        assert_eq!(fo2, co2, "osc2 diverged from fast path");
    }
}

#[test]
fn cross_mod_adds_spectral_content() {
    // Cross-mod of a sine carrier (f1) by a sine modulator (f2) creates
    // sidebands at f1 ± f2. Measure the magnitude at the f1+f2 bin via a
    // single-bin DFT: ≈0 at depth 0, clearly present at depth > 0.
    let sr = 48_000.0;
    let f1 = 110.0f32;
    let f2 = 270.0f32; // inharmonic ratio
    fn sideband(xmod: f32, f1: f32, f2: f32, sr: f32) -> f32 {
        let mut osc1 = PolyOscillator::new();
        let mut osc2 = PolyOscillator::new();
        osc1.inc[0] = f1 / sr;
        osc2.inc[0] = f2 / sr;
        let pw = [0.5; N];
        let (mut o1, mut o2) = ([0.0; N], [0.0; N]);
        let w = std::f32::consts::TAU * (f1 + f2) / sr;
        let (mut re, mut im) = (0.0f32, 0.0f32);
        let frames = 8192usize;
        // Hann window so the strong carrier's spectral leakage doesn't swamp
        // the sideband bin (rectangular sidelobes fall off only as 1/k).
        for n in 0..frames {
            osc1.process_pair(
                &mut osc2,
                false,
                xmod,
                Waveform::Sine,
                Waveform::Sine,
                &pw,
                &pw,
                &mut o1,
                &mut o2,
            );
            let win =
                0.5 * (1.0 - (std::f32::consts::TAU * n as f32 / (frames - 1) as f32).cos());
            let ph = w * n as f32;
            re += o1[0] * win * ph.cos();
            im -= o1[0] * win * ph.sin();
        }
        (re * re + im * im).sqrt() / frames as f32
    }
    let clean = sideband(0.0, f1, f2, sr);
    let modulated = sideband(0.6, f1, f2, sr);
    assert!(
        modulated > 10.0 * clean.max(1e-6),
        "cross-mod produced no sideband: clean {clean}, modulated {modulated}"
    );
}

/// Default ring drive gain (mirrors the engine's fixed operating point).
fn ring_gain() -> f32 {
    10.0_f32.powf(1.0 / 20.0)
}

#[test]
fn ring_mod_zero_input_silences() {
    // Zero carrier (o2) or zero signal (o1) ⇒ ~silence.
    let g = ring_gain();
    let mut out = [1.0; N];
    // Zero carrier across all lanes.
    poly_ring_mod(&[0.7; N], &[0.0; N], g, &mut out);
    assert!(out.iter().all(|y| y.abs() < 1e-6), "zero carrier not silent");
    // Zero signal across all lanes.
    poly_ring_mod(&[0.0; N], &[0.7; N], g, &mut out);
    assert!(out.iter().all(|y| y.abs() < 1e-6), "zero signal not silent");
}

#[test]
fn ring_mod_nonzero_inputs_produce_output() {
    let mut out = [0.0; N];
    poly_ring_mod(&[0.5; N], &[0.5; N], ring_gain(), &mut out);
    assert!(out.iter().all(|y| y.abs() > 1e-4), "expected nonzero output");
}

#[test]
fn ring_mod_antisymmetric_and_finite() {
    // Negating either input negates the output; all lanes (incl. a frozen
    // zero lane) stay finite across a range of drives.
    let mut a = [0.0; N];
    let mut b = [0.0; N];
    let sig: [f32; N] = std::array::from_fn(|v| 0.3 + v as f32 * 0.05);
    let car: [f32; N] = std::array::from_fn(|v| 0.6 - v as f32 * 0.03);
    let neg_sig: [f32; N] = std::array::from_fn(|v| -sig[v]);
    for drive_db in [0.2_f32, 1.0, 6.0, 20.0] {
        let g = 10.0_f32.powf(drive_db / 20.0);
        poly_ring_mod(&sig, &car, g, &mut a);
        poly_ring_mod(&neg_sig, &car, g, &mut b);
        for v in 0..N {
            assert!(a[v].is_finite() && b[v].is_finite(), "non-finite @ {drive_db}");
            assert!((a[v] + b[v]).abs() < 1e-5, "not antisymmetric in signal");
        }
    }
}
