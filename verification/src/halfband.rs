//! Halfband FIR decimator and a 2x/4x/8x oversampling helper.
use crate::delay::{self, DelayLine, Ring};
use crate::fpu::{Fpu, Op};
use crate::nums::{
    F0_00386248, F0_01594711, F0_05071856, F0_31594176, F0_5007058, MINUS_F0_00188788,
    MINUS_F0_00824247, MINUS_F0_02867656, MINUS_F0_09801591, ZERO,
};
use crate::plain::{self, num, Plain};
use vstd::prelude::*;

verus! {

broadcast use crate::plain::group_by_rank;

/// The off-centre taps of the default 33-tap filter, outermost first.
pub open spec fn spec_default_taps() -> Seq<Plain> {
    seq![
        num(MINUS_F0_00188788),
        num(F0_00386248),
        num(MINUS_F0_00824247),
        num(F0_01594711),
        num(MINUS_F0_02867656),
        num(F0_05071856),
        num(MINUS_F0_09801591),
        num(F0_31594176),
    ]
}

/// The off-centre taps of the default 33-tap filter, outermost first.
pub fn default_taps() -> (r: Vec<Plain>)
    ensures
        r@ == spec_default_taps(),
{
    let r: Vec<Plain> = vec![
        num(MINUS_F0_00188788),
        num(F0_00386248),
        num(MINUS_F0_00824247),
        num(F0_01594711),
        num(MINUS_F0_02867656),
        num(F0_05071856),
        num(MINUS_F0_09801591),
        num(F0_31594176),
    ];
    assert(r@ =~= spec_default_taps());
    r
}

/// The filter output over the first `j` pairs of taps around the centre: the
/// centre sample lies as many samples back as there are samples in front of it.
pub open spec fn fir_sum<A: Fn(Op, Plain, Plain) -> Plain>(
    fpu: &Fpu<A>,
    ring: Ring,
    taps: Seq<Plain>,
    centre: Plain,
    j: nat,
) -> Plain
    decreases j,
{
    let n = taps.len() as int;
    if j == 0 {
        fpu.mul(centre, ring.history(2 * n + 1))
    } else {
        let i = j - 1;
        fpu.add(
            fir_sum(fpu, ring, taps, centre, i as nat),
            fpu.mul(
                taps[n - j],
                fpu.add(ring.history(2 * n + 2 + 2 * i), ring.history(2 * n - 2 * i)),
            ),
        )
    }
}

/// Two samples into a halfband stage, one out.
pub open spec fn halved<A: Fn(Op, Plain, Plain) -> Plain>(
    fpu: &Fpu<A>,
    ring: Ring,
    taps: Seq<Plain>,
    centre: Plain,
    first: Plain,
    second: Plain,
) -> (Ring, Plain) {
    let next = ring.written(first).written(second);
    (next, fir_sum(fpu, next, taps, centre, taps.len()))
}

/// Symmetric linear-phase halfband filter used as a 2:1 decimator. Every other tap
/// is zero by the halfband property and is not stored.
pub struct HalfbandFir {
    pub taps: Vec<Plain>,
    pub delay: DelayLine,
    pub centre: Plain,
}

/// Group delay of the default filter in oversampled samples.
pub const GROUP_DELAY_OVERSAMPLED: usize = 16;

impl HalfbandFir {
    /// The line reaches back over all taps.
    pub open spec fn wf(&self) -> bool {
        &&& self.delay@.wf()
        &&& 4 * self.taps@.len() + 2 <= self.delay@.cells.len()
        &&& 2 * self.delay@.cells.len() <= usize::MAX
    }

    pub fn new(taps: Vec<Plain>, centre: Plain) -> (r: Self)
        requires
            taps@.len() <= usize::MAX / 32,
        ensures
            r.wf(),
            r.taps@ == taps@,
            r.centre == centre,
            r.delay@ == Ring::silent(r.delay@.cells.len()),
            delay::is_capacity(r.delay@.cells.len() as int, 4 * taps@.len() as int + 2),
    {
        let n: usize = taps.len();
        let delay = DelayLine::with_cells(n * 4 + 2);
        HalfbandFir { taps, delay, centre }
    }

    pub fn reset(&mut self)
        requires
            old(self).wf(),
        ensures
            final(self).wf(),
            final(self).taps@ == old(self).taps@,
            final(self).centre == old(self).centre,
            final(self).delay@ == Ring::silent(old(self).delay@.cells.len()),
    {
        self.delay.clear();
    }

    /// Decimate two oversampled samples into one.
    pub fn process<A: Fn(Op, Plain, Plain) -> Plain>(
        &mut self,
        fpu: &Fpu<A>,
        first: Plain,
        second: Plain,
    ) -> (r: Plain)
        requires
            fpu.valid(),
            old(self).wf(),
        ensures
            final(self).wf(),
            final(self).taps@ == old(self).taps@,
            final(self).centre == old(self).centre,
            (final(self).delay@, r) == halved(
                fpu,
                old(self).delay@,
                old(self).taps@,
                old(self).centre,
                first,
                second,
            ),
    {
        let n: usize = self.taps.len();
        self.delay.write(first);
        self.delay.write(second);
        let mut acc = fpu.mul(self.centre, self.delay.past(2 * n + 1));
        for j in 0..n
            invariant
                fpu.valid(),
                self.wf(),
                n == self.taps@.len(),
                acc == fir_sum(fpu, self.delay@, self.taps@, self.centre, j as nat),
        {
            let l = self.delay.past(2 * n + 2 + 2 * j);
            let r = self.delay.past(2 * n - 2 * j);
            acc = fpu.add(acc, fpu.mul(self.taps[n - 1 - j], fpu.add(l, r)));
        }
        acc
    }
}

impl Default for HalfbandFir {
    fn default() -> (r: Self)
        ensures
            r.wf(),
            r.taps@ == spec_default_taps(),
            r.centre == num(F0_5007058),
            r.delay@ == Ring::silent(r.delay@.cells.len()),
            delay::is_capacity(r.delay@.cells.len() as int, 34),
    {
        HalfbandFir::new(default_taps(), num(F0_5007058))
    }
}

/// The lines of the three stages of an [`Oversampler`].
#[verifier::ext_equal]
pub struct Stages {
    pub a: Ring,
    pub b: Ring,
    pub c: Ring,
}

impl Stages {
    /// Every stage empty.
    pub open spec fn silenced(self) -> Self {
        Stages {
            a: Ring::silent(self.a.cells.len()),
            b: Ring::silent(self.b.cells.len()),
            c: Ring::silent(self.c.cells.len()),
        }
    }

    /// Empty stages with room for the default filter.
    pub open spec fn is_fresh(self) -> bool {
        &&& self == self.silenced()
        &&& delay::is_capacity(self.a.cells.len() as int, 34)
        &&& delay::is_capacity(self.b.cells.len() as int, 34)
        &&& delay::is_capacity(self.c.cells.len() as int, 34)
    }
}

/// One sample out of `factor` samples in, starting at `input[base]`.
pub open spec fn decimate_one<A: Fn(Op, Plain, Plain) -> Plain>(
    fpu: &Fpu<A>,
    s: Stages,
    input: Seq<Plain>,
    base: int,
    factor: int,
) -> (Stages, Plain) {
    let t = spec_default_taps();
    let m = num(F0_5007058);
    if factor == 2 {
        let (a, out) = halved(fpu, s.a, t, m, input[base], input[base + 1]);
        (Stages { a, ..s }, out)
    } else if factor == 4 {
        let (a0, x0) = halved(fpu, s.a, t, m, input[base], input[base + 1]);
        let (a, x1) = halved(fpu, a0, t, m, input[base + 2], input[base + 3]);
        let (b, out) = halved(fpu, s.b, t, m, x0, x1);
        (Stages { a, b, ..s }, out)
    } else if factor == 8 {
        let (a0, x0) = halved(fpu, s.a, t, m, input[base], input[base + 1]);
        let (a1, x1) = halved(fpu, a0, t, m, input[base + 2], input[base + 3]);
        let (a2, x2) = halved(fpu, a1, t, m, input[base + 4], input[base + 5]);
        let (a, x3) = halved(fpu, a2, t, m, input[base + 6], input[base + 7]);
        let (b0, y0) = halved(fpu, s.b, t, m, x0, x1);
        let (b, y1) = halved(fpu, b0, t, m, x2, x3);
        let (c, out) = halved(fpu, s.c, t, m, y0, y1);
        (Stages { a, b, c }, out)
    } else {
        (s, input[base])
    }
}

/// Samples consumed for each sample produced.
pub open spec fn stride(factor: int) -> int {
    if factor == 2 || factor == 4 || factor == 8 {
        factor
    } else {
        1
    }
}

/// The stages and the output after `k` samples have been produced.
pub open spec fn decimated<A: Fn(Op, Plain, Plain) -> Plain>(
    fpu: &Fpu<A>,
    s: Stages,
    input: Seq<Plain>,
    factor: int,
    k: nat,
) -> (Stages, Seq<Plain>)
    decreases k,
{
    if k == 0 {
        (s, Seq::empty())
    } else {
        let (t, out) = decimated(fpu, s, input, factor, (k - 1) as nat);
        let (u, x) = decimate_one(fpu, t, input, stride(factor) * (k - 1), factor);
        (u, out.push(x))
    }
}

/// Every group of input samples gives one.
pub proof fn lemma_decimated_len<A: Fn(Op, Plain, Plain) -> Plain>(
    fpu: &Fpu<A>,
    s: Stages,
    input: Seq<Plain>,
    factor: int,
    k: nat,
)
    ensures
        decimated(fpu, s, input, factor, k).1.len() == k,
    decreases k,
{
    if k > 0 {
        lemma_decimated_len(fpu, s, input, factor, (k - 1) as nat);
    }
}

/// 2x, 4x or 8x oversampling decimator: three cascaded halfband stages, each a 2:1
/// step. 8x runs all three, 4x the first two, 2x the first alone, so a stage always
/// keeps its place in the cascade.
pub struct Oversampler {
    pub stage_a: HalfbandFir,
    pub stage_b: HalfbandFir,
    pub stage_c: HalfbandFir,
}

impl View for Oversampler {
    type V = Stages;

    open spec fn view(&self) -> Stages {
        Stages { a: self.stage_a.delay@, b: self.stage_b.delay@, c: self.stage_c.delay@ }
    }
}

/// A stage with the default filter.
pub open spec fn is_default_stage(f: HalfbandFir) -> bool {
    &&& f.wf()
    &&& f.taps@ == spec_default_taps()
    &&& f.centre == num(F0_5007058)
}

impl Oversampler {
    pub open spec fn wf(&self) -> bool {
        &&& is_default_stage(self.stage_a)
        &&& is_default_stage(self.stage_b)
        &&& is_default_stage(self.stage_c)
    }

    pub fn new() -> (r: Self)
        ensures
            r.wf(),
            r@.is_fresh(),
    {
        Oversampler {
            stage_a: HalfbandFir::default(),
            stage_b: HalfbandFir::default(),
            stage_c: HalfbandFir::default(),
        }
    }

    pub fn reset(&mut self)
        requires
            old(self).wf(),
        ensures
            final(self).wf(),
            final(self)@ == old(self)@.silenced(),
    {
        self.stage_a.reset();
        self.stage_b.reset();
        self.stage_c.reset();
    }

    /// One output sample.
    fn decimate_at<A: Fn(Op, Plain, Plain) -> Plain>(
        &mut self,
        fpu: &Fpu<A>,
        input: &[Plain],
        base: usize,
        factor: usize,
    ) -> (r: Plain)
        requires
            fpu.valid(),
            old(self).wf(),
            base + stride(factor as int) <= input@.len(),
        ensures
            final(self).wf(),
            (final(self)@, r) == decimate_one(
                fpu,
                old(self)@,
                input@,
                base as int,
                factor as int,
            ),
    {
        match factor {
            2 => self.stage_a.process(fpu, input[base], input[base + 1]),
            4 => {
                let x0 = self.stage_a.process(fpu, input[base], input[base + 1]);
                let x1 = self.stage_a.process(fpu, input[base + 2], input[base + 3]);
                self.stage_b.process(fpu, x0, x1)
            },
            8 => {
                let x0 = self.stage_a.process(fpu, input[base], input[base + 1]);
                let x1 = self.stage_a.process(fpu, input[base + 2], input[base + 3]);
                let x2 = self.stage_a.process(fpu, input[base + 4], input[base + 5]);
                let x3 = self.stage_a.process(fpu, input[base + 6], input[base + 7]);
                let y0 = self.stage_b.process(fpu, x0, x1);
                let y1 = self.stage_b.process(fpu, x2, x3);
                self.stage_c.process(fpu, y0, y1)
            },
            _ => input[base],
        }
    }

    /// Decimate `input` into `output`, which takes one sample for every `factor`.
    /// For a factor other than 2, 4 or 8 this is a straight copy.
    pub fn decimate<A: Fn(Op, Plain, Plain) -> Plain>(
        &mut self,
        fpu: &Fpu<A>,
        input: &[Plain],
        output: &mut [Plain],
        factor: usize,
    )
        requires
            fpu.valid(),
            old(self).wf(),
            stride(factor as int) * old(output)@.len() <= input@.len(),
        ensures
            final(self).wf(),
            (final(self)@, final(output)@) == decimated(
                fpu,
                old(self)@,
                input@,
                factor as int,
                old(output)@.len(),
            ),
    {
        let step: usize = if factor == 2 || factor == 4 || factor == 8 {
            factor
        } else {
            1
        };
        let len: usize = input.len();
        let n: usize = output.len();
        let mut i: usize = 0;
        while i < n
            invariant
                fpu.valid(),
                self.wf(),
                i <= n == output@.len() == old(output)@.len(),
                step == stride(factor as int),
                step * n <= len,
                len == input@.len(),
                decimated(fpu, old(self)@, input@, factor as int, i as nat) == (
                    self@,
                    output@.take(i as int),
                ),
            decreases n - i,
        {
            proof {
                assert(step * (i + 1) <= step * n) by (nonlinear_arith)
                    requires
                        i + 1 <= n,
                        0 <= step,
                ;
                assert(step * (i + 1) == step * i + step) by (nonlinear_arith);
            }
            let x = self.decimate_at(fpu, input, step * i, factor);
            let ghost before = output@;
            output[i] = x;
            i = i + 1;
            proof {
                assert(output@.take(i as int) =~= before.take(i - 1).push(x));
            }
        }
        assert(output@.take(n as int) =~= output@);
    }
}

impl Default for Oversampler {
    fn default() -> (r: Self)
        ensures
            r.wf(),
            r@.is_fresh(),
    {
        Oversampler::new()
    }
}

/// Which tap a sample meets, by how far back it lies: the centre tap in the middle, tap `i`
/// counted from the middle at every second sample to either side, and none between.
pub open spec fn tap_met(taps: Seq<Plain>, centre: Plain, back: int) -> Plain {
    let n = taps.len() as int;
    let away = back - (2 * n + 1);
    if away == 0 {
        centre
    } else if (away - 1) % 2 == 0 && 0 <= (away - 1) / 2 < n {
        taps[n - 1 - (away - 1) / 2]
    } else if (away + 1) % 2 == 0 && 0 <= -(away + 1) / 2 < n {
        taps[n - 1 - (-(away + 1) / 2)]
    } else {
        num(ZERO)
    }
}

/// The response of a halfband filter to a single sample is its tap there, the same on both
/// sides of the middle: a sample alone in the line comes out times the tap that it meets, and
/// not at all where there is none.
pub proof fn lemma_impulse_response<A: Fn(Op, Plain, Plain) -> Plain>(
    fpu: &Fpu<A>,
    ring: Ring,
    taps: Seq<Plain>,
    centre: Plain,
    back: int,
    y: Plain,
)
    requires
        fpu.rounds(),
        taps.len() >= 1,
        0 <= back <= 4 * taps.len() + 1,
        centre.is_finite(),
        forall|i: int| 0 <= i < taps.len() ==> (#[trigger] taps[i]).is_finite(),
        forall|b: int|
            0 <= b <= 4 * taps.len() + 1 && b != back ==> (#[trigger] ring.history(b)).is_zero(),
        ring.history(back).is_number(),
        y.is_number(),
        y.scaled() * plain::unit() == tap_met(taps, centre, back).scaled() * ring.history(
            back,
        ).scaled(),
    ensures
        fir_sum(fpu, ring, taps, centre, taps.len()).equals(y),
{
    let n = taps.len() as int;
    plain::lemma_small_values();
    let u = plain::unit();
    if tap_met(taps, centre, back).scaled() == 0 {
        let h = ring.history(back).scaled();
        let s = y.scaled();
        assert(0 * h == 0) by (nonlinear_arith);
        assert(s == 0) by (nonlinear_arith)
            requires
                s * u == 0,
                u > 0,
        ;
    }
    lemma_impulse_so_far(fpu, ring, taps, centre, back, y, taps.len());
}

proof fn lemma_impulse_so_far<A: Fn(Op, Plain, Plain) -> Plain>(
    fpu: &Fpu<A>,
    ring: Ring,
    taps: Seq<Plain>,
    centre: Plain,
    back: int,
    y: Plain,
    j: nat,
)
    requires
        fpu.rounds(),
        taps.len() >= 1,
        j <= taps.len(),
        0 <= back <= 4 * taps.len() + 1,
        centre.is_finite(),
        forall|i: int| 0 <= i < taps.len() ==> (#[trigger] taps[i]).is_finite(),
        forall|b: int|
            0 <= b <= 4 * taps.len() + 1 && b != back ==> (#[trigger] ring.history(b)).is_zero(),
        ring.history(back).is_number(),
        y.is_number(),
        y.scaled() * plain::unit() == tap_met(taps, centre, back).scaled() * ring.history(
            back,
        ).scaled(),
    ensures
        ({
            let n = taps.len() as int;
            let s = fir_sum(fpu, ring, taps, centre, j);
            let away = back - (2 * n + 1);
            let met = away == 0 || (1 <= away <= 2 * j - 1 && away % 2 == 1) || (1 <= -away <= 2 * j
                - 1 && away % 2 == 1);
            if met {
                s.equals(y)
            } else {
                s.is_zero()
            }
        }),
    decreases j,
{
    let n = taps.len() as int;
    let x = ring.history(back);
    let away = back - (2 * n + 1);
    plain::lemma_small_values();
    if j == 0 {
        if away == 0 {
            fpu.lemma_mul_side(centre, x, y);
        } else {
            fpu.lemma_none_of(centre, ring.history(2 * n + 1));
        }
    } else {
        let i = j - 1;
        lemma_impulse_so_far(fpu, ring, taps, centre, back, y, i as nat);
        let (p, q) = (2 * n + 2 + 2 * i, 2 * n - 2 * i);
        let (a, b) = (ring.history(p), ring.history(q));
        let tap = taps[n - j];
        let s = fir_sum(fpu, ring, taps, centre, i as nat);
        let both = fpu.add(a, b);
        if back == p || back == q {
            let other = if back == p {
                b
            } else {
                a
            };
            assert(other.is_zero());
            fpu.lemma_nothing_added(x, other);
            plain::lemma_equal_scaled(both, x);
            assert(tap_met(taps, centre, back) == tap);
            fpu.lemma_mul_side(tap, both, y);
            let m = fpu.mul(tap, both);
            plain::lemma_equal_scaled(m, y);
            plain::lemma_zero_scaled(s);
            fpu.lemma_add_side(s, m, y);
        } else {
            fpu.lemma_nothing_added(a, b);
            fpu.lemma_none_of(tap, both);
            let m = fpu.mul(tap, both);
            plain::lemma_zero_scaled(m);
            if away == 0 || (1 <= away <= 2 * i - 1 && away % 2 == 1) || (1 <= -away <= 2 * i - 1
                && away % 2 == 1) {
                plain::lemma_equal_scaled(s, y);
                fpu.lemma_add_side(s, m, y);
            } else {
                fpu.lemma_nothing_added(s, m);
            }
        }
    }
}

/// The taps of the default filter fall off from the middle and change sign with every step.
pub proof fn lemma_taps_alternate(i: int)
    requires
        0 <= i < 7,
    ensures
        ({
            let t = spec_default_taps();
            &&& t[i].mag() < t[i + 1].mag()
            &&& t[i].negative() != t[i + 1].negative()
            &&& !t[7].negative() && t[7].mag() < num(F0_5007058).mag()
        }),
{
}

/// The line of a stage takes both samples, the second as the newest.
pub proof fn lemma_both_samples_are_taken<A: Fn(Op, Plain, Plain) -> Plain>(
    fpu: &Fpu<A>,
    ring: Ring,
    taps: Seq<Plain>,
    centre: Plain,
    first: Plain,
    second: Plain,
)
    requires
        ring.wf(),
    ensures
        ({
            let next = halved(fpu, ring, taps, centre, first, second).0;
            &&& next.wf() && next.cells.len() == ring.cells.len()
            &&& next.history(0) == second && next.history(1) == first
        }),
{
    let n = ring.cells.len() as int;
    let h = ring.head;
    let h1 = (h + 1) % n;
    let h2 = (h1 + 1) % n;
    assert(h1 == (if h + 1 < n { h + 1 } else { 0 }) && h2 == (if h1 + 1 < n {
        h1 + 1
    } else {
        0
    }) && (h2 - 1) % n == h1 && (h2 - 2) % n == h) by (nonlinear_arith)
        requires
            n >= 2,
            0 <= h < n,
            h1 == (h + 1) % n,
            h2 == (h1 + 1) % n,
    ;
}

/// Decimation is done by halves: by four it is a halving of two halvings, and by eight a halving
/// of two decimations by four, each with the next stage.
pub proof fn lemma_decimation_is_by_halves<A: Fn(Op, Plain, Plain) -> Plain>(
    fpu: &Fpu<A>,
    s: Stages,
    input: Seq<Plain>,
    base: int,
)
    ensures
        ({
            let (s1, x0) = decimate_one(fpu, s, input, base, 2);
            let (s2, x1) = decimate_one(fpu, s1, input, base + 2, 2);
            let (top, out) = decimate_one(fpu, Stages { a: s.b, ..s }, seq![x0, x1], 0, 2);
            decimate_one(fpu, s, input, base, 4) == (Stages { a: s2.a, b: top.a, c: s.c }, out)
        }),
        ({
            let (s1, x0) = decimate_one(fpu, s, input, base, 4);
            let (s2, x1) = decimate_one(fpu, s1, input, base + 4, 4);
            let (top, out) = decimate_one(fpu, Stages { a: s.c, ..s }, seq![x0, x1], 0, 2);
            decimate_one(fpu, s, input, base, 8) == (Stages { a: s2.a, b: s2.b, c: top.a }, out)
        }),
        decimate_one(fpu, s, input, base, 1) == (s, input[base]),
{
}

} // verus!
