//! One-pole (-6 dB per octave) high-pass filter, placed before the voice filter.
//! Thins body and removes DC below the cutoff.
use crate::CHANNELS_PER_LAYER;
use crate::fpu::{Fpu, Op};
use crate::lanes::{splat, Lanes};
use crate::nums::ZERO;
use crate::plain::{self, num, Plain};
use crate::tpt::{self, compute_g, one_pole};
use vstd::prelude::*;

verus! {

broadcast use crate::plain::group_by_rank;

/// Single-voice one-pole high-pass kernel.
#[derive(Clone, Copy, Debug, PartialEq, Eq, Structural)]
pub struct HpfKernel {
    pub a: Plain,
    pub s: Plain,
}

impl HpfKernel {
    pub fn new() -> (r: Self)
        ensures
            r == (HpfKernel { a: num(ZERO), s: num(ZERO) }),
    {
        HpfKernel { a: num(ZERO), s: num(ZERO) }
    }

    /// Set the cutoff, once per control block.
    pub fn set_cutoff<A: Fn(Op, Plain, Plain) -> Plain>(
        &mut self,
        fpu: &Fpu<A>,
        cutoff_hz: Plain,
        sample_rate: Plain,
    )
        requires
            fpu.valid(),
            tpt::filterable(fpu, sample_rate),
        ensures
            *final(self) == (HpfKernel {
                a: compute_g(fpu, cutoff_hz, sample_rate),
                ..*old(self)
            }),
    {
        self.a = compute_g(fpu, cutoff_hz, sample_rate);
    }

    pub fn reset(&mut self)
        ensures
            *final(self) == (HpfKernel { s: num(ZERO), ..*old(self) }),
    {
        self.s = num(ZERO);
    }

    /// Run one sample: what is left of `x` once its lowpass is taken off.
    pub fn tick<A: Fn(Op, Plain, Plain) -> Plain>(&mut self, fpu: &Fpu<A>, x: Plain) -> (r: Plain)
        requires
            fpu.valid(),
        ensures
            *final(self) == (HpfKernel {
                s: one_pole(fpu, x, old(self).s, old(self).a).0,
                ..*old(self)
            }),
            r == passed(fpu, *old(self), x),
    {
        let (s, low) = one_pole(fpu, x, self.s, self.a);
        self.s = s;
        fpu.sub(x, low)
    }
}

impl Default for HpfKernel {
    fn default() -> (r: Self)
        ensures
            r == (HpfKernel { a: num(ZERO), s: num(ZERO) }),
    {
        HpfKernel::new()
    }
}

/// The one-pole high-pass of a whole layer, one lane per voice.
#[derive(Clone, Copy)]
pub struct PolyHpf {
    pub a: Lanes,
    pub s: Lanes,
}

impl Default for PolyHpf {
    fn default() -> (r: Self)
        ensures
            forall|v: int| 0 <= v < CHANNELS_PER_LAYER ==> r.lane(v) == (HpfKernel {
                a: num(ZERO),
                s: num(ZERO),
            }),
    {
        PolyHpf::new()
    }
}

impl PolyHpf {
    /// Voice `v` as a kernel of its own.
    pub open spec fn lane(&self, v: int) -> HpfKernel {
        HpfKernel { a: self.a@[v], s: self.s@[v] }
    }

    pub fn new() -> (r: Self)
        ensures
            forall|v: int| 0 <= v < CHANNELS_PER_LAYER ==> r.lane(v) == (HpfKernel {
                a: num(ZERO),
                s: num(ZERO),
            }),
    {
        PolyHpf { a: splat(num(ZERO)), s: splat(num(ZERO)) }
    }

    pub fn reset(&mut self)
        ensures
            forall|v: int|
                0 <= v < CHANNELS_PER_LAYER ==> final(self).lane(v) == (HpfKernel {
                    s: num(ZERO),
                    ..old(self).lane(v)
                }),
    {
        self.s = splat(num(ZERO));
    }

    /// Set voice `v`'s cutoff, once per control block.
    pub fn set_cutoff<A: Fn(Op, Plain, Plain) -> Plain>(
        &mut self,
        fpu: &Fpu<A>,
        v: usize,
        cutoff_hz: Plain,
        sample_rate: Plain,
    )
        requires
            fpu.valid(),
            tpt::filterable(fpu, sample_rate),
            v < CHANNELS_PER_LAYER,
        ensures
            forall|i: int|
                0 <= i < CHANNELS_PER_LAYER ==> final(self).lane(i) == (if i == v {
                    HpfKernel { a: compute_g(fpu, cutoff_hz, sample_rate), ..old(self).lane(i) }
                } else {
                    old(self).lane(i)
                }),
    {
        self.a[v] = compute_g(fpu, cutoff_hz, sample_rate);
    }

    /// Set the same cutoff for every voice, computing the coefficient once.
    pub fn set_cutoff_all<A: Fn(Op, Plain, Plain) -> Plain>(
        &mut self,
        fpu: &Fpu<A>,
        cutoff_hz: Plain,
        sample_rate: Plain,
    )
        requires
            fpu.valid(),
            tpt::filterable(fpu, sample_rate),
        ensures
            forall|i: int|
                0 <= i < CHANNELS_PER_LAYER ==> final(self).lane(i) == (HpfKernel {
                    a: compute_g(fpu, cutoff_hz, sample_rate),
                    ..old(self).lane(i)
                }),
    {
        let a = compute_g(fpu, cutoff_hz, sample_rate);
        self.a = splat(a);
    }

    /// One sample per voice: every lane runs as its own kernel.
    pub fn process<A: Fn(Op, Plain, Plain) -> Plain>(
        &mut self,
        fpu: &Fpu<A>,
        x: &Lanes,
        out: &mut Lanes,
    )
        requires
            fpu.valid(),
        ensures
            final(self).a@ == old(self).a@,
            forall|v: int|
                0 <= v < CHANNELS_PER_LAYER ==> #[trigger] final(self).s@[v] == one_pole(
                    fpu,
                    x@[v],
                    old(self).s@[v],
                    old(self).a@[v],
                ).0,
            forall|v: int|
                0 <= v < CHANNELS_PER_LAYER ==> #[trigger] final(out)@[v] == passed(
                    fpu,
                    old(self).lane(v),
                    x@[v],
                ),
    {
        for v in 0..CHANNELS_PER_LAYER
            invariant
                fpu.valid(),
                self.a@ == old(self).a@,
                forall|i: int|
                    0 <= i < v ==> #[trigger] self.s@[i] == one_pole(
                        fpu,
                        x@[i],
                        old(self).s@[i],
                        old(self).a@[i],
                    ).0,
                forall|i: int|
                    0 <= i < v ==> #[trigger] out@[i] == passed(fpu, old(self).lane(i), x@[i]),
                forall|i: int| v <= i < CHANNELS_PER_LAYER ==> self.s@[i] == old(self).s@[i],
        {
            let (s, low) = one_pole(fpu, x[v], self.s[v], self.a[v]);
            self.s[v] = s;
            out[v] = fpu.sub(x[v], low);
        }
    }
}

/// What a high-pass filter puts out for `x`: what is left once its lowpass is taken off.
pub open spec fn passed<A: Fn(Op, Plain, Plain) -> Plain>(
    fpu: &Fpu<A>,
    k: HpfKernel,
    x: Plain,
) -> Plain {
    fpu.sub(x, one_pole(fpu, x, k.s, k.a).1)
}

/// A steady input is removed: once the filter has settled on it nothing is left of it.
pub proof fn lemma_steady_input_is_removed<A: Fn(Op, Plain, Plain) -> Plain>(
    fpu: &Fpu<A>,
    k: HpfKernel,
)
    requires
        fpu.rounds(),
        k.s.is_number(),
        k.a.is_finite(),
    ensures
        passed(fpu, k, k.s).is_zero(),
        one_pole(fpu, k.s, k.s, k.a).0.equals(k.s),
{
    tpt::lemma_pole_settles(fpu, k.s, k.a);
    let low = one_pole(fpu, k.s, k.s, k.a).1;
    plain::lemma_zero_scaled(num(ZERO));
    plain::lemma_equal_scaled(low, k.s);
    fpu.lemma_sub_side(k.s, low, num(ZERO));
}

/// A jump from rest passes with its sign, the less of it the higher the gain is.
pub proof fn lemma_jump_passes<A: Fn(Op, Plain, Plain) -> Plain>(
    fpu: &Fpu<A>,
    low: HpfKernel,
    high: HpfKernel,
    x: Plain,
)
    requires
        fpu.rounds(),
        low.s.is_zero() && high.s == low.s,
        low.a.is_finite() && high.a.is_finite(),
        0 <= low.a.scaled() <= high.a.scaled() <= plain::unit(),
        x.is_number() && x.scaled() >= 0,
    ensures
        passed(fpu, low, x).at_most(x),
        passed(fpu, high, x).at_most(passed(fpu, low, x)),
        num(ZERO).at_most(passed(fpu, high, x)),
{
    plain::lemma_small_values();
    plain::lemma_zero_scaled(low.s);
    let u = plain::unit();
    let d = fpu.sub(x, low.s);
    fpu.lemma_nothing_added(x, low.s);
    plain::lemma_equal_scaled(d, x);
    let (v, w) = (fpu.mul(d, low.a), fpu.mul(d, high.a));
    let (s, a, b) = (x.scaled(), low.a.scaled(), high.a.scaled());
    assert(0 * u == 0 && 0 <= s * a && s * a <= s * b && s * b <= s * u) by (nonlinear_arith)
        requires
            s >= 0,
            0 <= a <= b <= u,
    ;
    fpu.lemma_mul_side(d, low.a, num(ZERO));
    fpu.lemma_mul_side(d, high.a, num(ZERO));
    fpu.lemma_mul_side(d, low.a, x);
    fpu.lemma_mul_side(d, high.a, x);
    plain::lemma_between_finite(num(ZERO), v, x);
    plain::lemma_between_finite(num(ZERO), w, x);
    fpu.lemma_mul_order(d, low.a, d, high.a);
    plain::lemma_equal_scaled(v, w);
    let (p, q) = (fpu.add(v, low.s), fpu.add(w, low.s));
    fpu.lemma_add_order(v, low.s, w, low.s);
    fpu.lemma_add_side(v, low.s, num(ZERO));
    fpu.lemma_add_side(v, low.s, x);
    fpu.lemma_add_side(w, low.s, num(ZERO));
    fpu.lemma_add_side(w, low.s, x);
    plain::lemma_between_finite(num(ZERO), p, x);
    plain::lemma_between_finite(num(ZERO), q, x);
    plain::lemma_equal_scaled(p, q);
    fpu.lemma_sub_side(x, p, x);
    fpu.lemma_sub_order(x, q, x, p);
    fpu.lemma_sub_side(x, q, num(ZERO));
}

} // verus!
