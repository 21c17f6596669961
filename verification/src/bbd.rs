//! Bucket-brigade modelling: complex-pole filter banks, fractional reads, clock jitter
//! and the modulated delay line built from them.
use crate::delay::{self, DelayLine, Ring};
use crate::fpu::{Fpu, Op};
use crate::math::{self, fast_tanh, flush_denormal};
use crate::nums::{
    F0_001, F0_03, F1_5, F20000, F2_5, F30000, HALF, MINUS_F0_5, MINUS_F30000, MINUS_F50000,
    MINUS_ONE, MINUS_TAU, ONE, ONE_LESS_F0_001, TWO, TWO_POW_MINUS_31, ZERO,
};
use crate::plain::{num, Plain};
use crate::plain;
use vstd::arithmetic::{div_mod, mul};
use vstd::prelude::*;

verus! {

broadcast use crate::plain::group_by_rank;

/// A complex number.
#[derive(Clone, Copy, Debug, PartialEq, Eq, Structural)]
pub struct Complex32 {
    pub re: Plain,
    pub im: Plain,
}

impl Default for Complex32 {
    fn default() -> (r: Self)
        ensures
            r == (Complex32 { re: num(ZERO), im: num(ZERO) }),
    {
        Complex32 { re: num(ZERO), im: num(ZERO) }
    }
}

impl Complex32 {
    pub open spec fn spec_new(re: Plain, im: Plain) -> Self {
        Complex32 { re, im }
    }

    #[verifier::when_used_as_spec(spec_new)]
    pub fn new(re: Plain, im: Plain) -> (r: Self)
        ensures
            r == Complex32::new(re, im),
    {
        Complex32 { re, im }
    }

    pub open spec fn spec_conj(self) -> Self {
        Complex32 { re: self.re, im: self.im.neg() }
    }

    /// The conjugate.
    #[verifier::when_used_as_spec(spec_conj)]
    pub fn conj(self) -> (r: Self)
        ensures
            r == self.conj(),
    {
        Complex32 { re: self.re, im: self.im.neg() }
    }

    pub open spec fn spec_neg(self) -> Self {
        Complex32 { re: self.re.neg(), im: self.im.neg() }
    }

    /// The negative.
    #[verifier::when_used_as_spec(spec_neg)]
    pub fn neg(self) -> (r: Self)
        ensures
            r == self.neg(),
    {
        Complex32 { re: self.re.neg(), im: self.im.neg() }
    }

    pub open spec fn spec_exp<A: Fn(Op, Plain, Plain) -> Plain>(self, fpu: &Fpu<A>) -> Self {
        let m = fpu.exp(self.re);
        Complex32 { re: fpu.mul(m, fpu.cos(self.im)), im: fpu.mul(m, fpu.sin(self.im)) }
    }

    /// The exponential.
    #[verifier::when_used_as_spec(spec_exp)]
    pub fn exp<A: Fn(Op, Plain, Plain) -> Plain>(self, fpu: &Fpu<A>) -> (r: Self)
        requires
            fpu.valid(),
        ensures
            r == self.exp(fpu),
    {
        let m = fpu.exp(self.re);
        Complex32 { re: fpu.mul(m, fpu.cos(self.im)), im: fpu.mul(m, fpu.sin(self.im)) }
    }

    pub open spec fn spec_inv<A: Fn(Op, Plain, Plain) -> Plain>(self, fpu: &Fpu<A>) -> Self {
        let inv_d = fpu.div(
            num(ONE),
            fpu.add(fpu.mul(self.re, self.re), fpu.mul(self.im, self.im)),
        );
        Complex32 { re: fpu.mul(self.re, inv_d), im: fpu.mul(self.im.neg(), inv_d) }
    }

    /// The multiplicative inverse. Undefined at zero.
    #[verifier::when_used_as_spec(spec_inv)]
    pub fn inv<A: Fn(Op, Plain, Plain) -> Plain>(self, fpu: &Fpu<A>) -> (r: Self)
        requires
            fpu.valid(),
        ensures
            r == self.inv(fpu),
    {
        let inv_d = fpu.div(
            num(ONE),
            fpu.add(fpu.mul(self.re, self.re), fpu.mul(self.im, self.im)),
        );
        Complex32 { re: fpu.mul(self.re, inv_d), im: fpu.mul(self.im.neg(), inv_d) }
    }

    pub open spec fn spec_add<A: Fn(Op, Plain, Plain) -> Plain>(
        self,
        fpu: &Fpu<A>,
        o: Complex32,
    ) -> Self {
        Complex32 { re: fpu.add(self.re, o.re), im: fpu.add(self.im, o.im) }
    }

    /// The sum.
    #[verifier::when_used_as_spec(spec_add)]
    pub fn add<A: Fn(Op, Plain, Plain) -> Plain>(self, fpu: &Fpu<A>, o: Complex32) -> (r: Self)
        requires
            fpu.valid(),
        ensures
            r == self.add(fpu, o),
    {
        Complex32 { re: fpu.add(self.re, o.re), im: fpu.add(self.im, o.im) }
    }

    pub open spec fn spec_mul<A: Fn(Op, Plain, Plain) -> Plain>(
        self,
        fpu: &Fpu<A>,
        o: Complex32,
    ) -> Self {
        Complex32 { re: fpu.sub(
            fpu.mul(self.re, o.re),
            fpu.mul(self.im, o.im),
        ), im: fpu.add(fpu.mul(self.re, o.im), fpu.mul(self.im, o.re)) }
    }

    /// The product.
    #[verifier::when_used_as_spec(spec_mul)]
    pub fn mul<A: Fn(Op, Plain, Plain) -> Plain>(self, fpu: &Fpu<A>, o: Complex32) -> (r: Self)
        requires
            fpu.valid(),
        ensures
            r == self.mul(fpu, o),
    {
        Complex32 { re: fpu.sub(
            fpu.mul(self.re, o.re),
            fpu.mul(self.im, o.im),
        ), im: fpu.add(fpu.mul(self.re, o.im), fpu.mul(self.im, o.re)) }
    }

    pub open spec fn spec_scale<A: Fn(Op, Plain, Plain) -> Plain>(
        self,
        fpu: &Fpu<A>,
        s: Plain,
    ) -> Self {
        Complex32 { re: fpu.mul(self.re, s), im: fpu.mul(self.im, s) }
    }

    /// The product with a real number.
    #[verifier::when_used_as_spec(spec_scale)]
    pub fn scale<A: Fn(Op, Plain, Plain) -> Plain>(self, fpu: &Fpu<A>, s: Plain) -> (r: Self)
        requires
            fpu.valid(),
        ensures
            r == self.scale(fpu, s),
    {
        Complex32 { re: fpu.mul(self.re, s), im: fpu.mul(self.im, s) }
    }

    pub open spec fn spec_div<A: Fn(Op, Plain, Plain) -> Plain>(
        self,
        fpu: &Fpu<A>,
        o: Complex32,
    ) -> Self {
        let inv_d = fpu.div(num(ONE), fpu.add(fpu.mul(o.re, o.re), fpu.mul(o.im, o.im)));
        Complex32 {
            re: fpu.mul(fpu.add(fpu.mul(self.re, o.re), fpu.mul(self.im, o.im)), inv_d),
            im: fpu.mul(fpu.sub(fpu.mul(self.im, o.re), fpu.mul(self.re, o.im)), inv_d),
        }
    }

    /// The quotient.
    #[verifier::when_used_as_spec(spec_div)]
    pub fn div<A: Fn(Op, Plain, Plain) -> Plain>(self, fpu: &Fpu<A>, o: Complex32) -> (r: Self)
        requires
            fpu.valid(),
        ensures
            r == self.div(fpu, o),
    {
        let inv_d = fpu.div(num(ONE), fpu.add(fpu.mul(o.re, o.re), fpu.mul(o.im, o.im)));
        Complex32 {
            re: fpu.mul(fpu.add(fpu.mul(self.re, o.re), fpu.mul(self.im, o.im)), inv_d),
            im: fpu.mul(fpu.sub(fpu.mul(self.im, o.re), fpu.mul(self.re, o.im)), inv_d),
        }
    }
}

/// A complex one-pole `dx/dt = p x + u`, advanced once per sample by the closed
/// form of its solution with `u` held, and its weight in the output.
#[derive(Clone, Copy, Debug, PartialEq, Eq, Structural)]
pub struct Pole {
    pub corr: Complex32,
    pub psi1: Complex32,
    pub r: Complex32,
    pub x: Complex32,
}

pub open spec fn spec_pole_at<A: Fn(Op, Plain, Plain) -> Plain>(
    fpu: &Fpu<A>,
    pole: Complex32,
    residue: Complex32,
    sample_rate: Plain,
) -> Pole {
    let corr = pole.scale(fpu, fpu.div(num(ONE), sample_rate)).exp(fpu);
    let psi1 = Complex32 { re: fpu.sub(corr.re, num(ONE)), im: corr.im }.mul(fpu, pole.inv(fpu));
    Pole { corr, psi1, r: residue, x: Complex32 { re: num(ZERO), im: num(ZERO) } }
}

/// A silent pole at the given place, stepped once per sample.
#[verifier::when_used_as_spec(spec_pole_at)]
pub fn pole_at<A: Fn(Op, Plain, Plain) -> Plain>(
    fpu: &Fpu<A>,
    pole: Complex32,
    residue: Complex32,
    sample_rate: Plain,
) -> (r: Pole)
    requires
        fpu.valid(),
    ensures
        r == pole_at(fpu, pole, residue, sample_rate),
{
    let corr = pole.scale(fpu, fpu.div(num(ONE), sample_rate)).exp(fpu);
    let psi1 = Complex32 { re: fpu.sub(corr.re, num(ONE)), im: corr.im }.mul(fpu, pole.inv(fpu));
    Pole { corr, psi1, r: residue, x: Complex32 { re: num(ZERO), im: num(ZERO) } }
}

impl Pole {
    pub open spec fn spec_advanced<A: Fn(Op, Plain, Plain) -> Plain>(
        self,
        fpu: &Fpu<A>,
        u: Plain,
    ) -> Self {
        let re = fpu.add(
            fpu.sub(fpu.mul(self.corr.re, self.x.re), fpu.mul(self.corr.im, self.x.im)),
            fpu.mul(self.psi1.re, u),
        );
        let im = fpu.add(
            fpu.add(fpu.mul(self.corr.re, self.x.im), fpu.mul(self.corr.im, self.x.re)),
            fpu.mul(self.psi1.im, u),
        );
        Pole { corr: self.corr, psi1: self.psi1, r: self.r, x: Complex32 { re, im } }
    }

    /// One sample on, with input `u`.
    #[verifier::when_used_as_spec(spec_advanced)]
    pub fn advanced<A: Fn(Op, Plain, Plain) -> Plain>(self, fpu: &Fpu<A>, u: Plain) -> (r: Self)
        requires
            fpu.valid(),
        ensures
            r == self.advanced(fpu, u),
    {
        let re = fpu.add(
            fpu.sub(fpu.mul(self.corr.re, self.x.re), fpu.mul(self.corr.im, self.x.im)),
            fpu.mul(self.psi1.re, u),
        );
        let im = fpu.add(
            fpu.add(fpu.mul(self.corr.re, self.x.im), fpu.mul(self.corr.im, self.x.re)),
            fpu.mul(self.psi1.im, u),
        );
        Pole { corr: self.corr, psi1: self.psi1, r: self.r, x: Complex32 { re, im } }
    }

    pub open spec fn spec_part<A: Fn(Op, Plain, Plain) -> Plain>(self, fpu: &Fpu<A>) -> Plain {
        fpu.sub(fpu.mul(self.r.re, self.x.re), fpu.mul(self.r.im, self.x.im))
    }

    /// The real part of its weighted state.
    #[verifier::when_used_as_spec(spec_part)]
    pub fn part<A: Fn(Op, Plain, Plain) -> Plain>(self, fpu: &Fpu<A>) -> (r: Plain)
        requires
            fpu.valid(),
        ensures
            r == self.part(fpu),
    {
        fpu.sub(fpu.mul(self.r.re, self.x.re), fpu.mul(self.r.im, self.x.im))
    }

    pub open spec fn spec_silenced(self) -> Self {
        Pole { x: Complex32 { re: num(ZERO), im: num(ZERO) }, ..self }
    }

    /// The pole with its state cleared.
    #[verifier::when_used_as_spec(spec_silenced)]
    pub fn silenced(self) -> (r: Self)
        ensures
            r == self.silenced(),
    {
        Pole { x: Complex32 { re: num(ZERO), im: num(ZERO) }, ..self }
    }
}

/// Four poles in two conjugate pairs. The real part of the weighted sum of their
/// states is the output of the filter.
#[derive(Clone, Copy, Debug, PartialEq, Eq, Structural)]
pub struct ContinuousPoleBank {
    pub p0: Pole,
    pub p1: Pole,
    pub p2: Pole,
    pub p3: Pole,
}

impl ContinuousPoleBank {
    pub open spec fn advanced<A: Fn(Op, Plain, Plain) -> Plain>(
        self,
        fpu: &Fpu<A>,
        u: Plain,
    ) -> Self {
        ContinuousPoleBank {
            p0: self.p0.advanced(fpu, u),
            p1: self.p1.advanced(fpu, u),
            p2: self.p2.advanced(fpu, u),
            p3: self.p3.advanced(fpu, u),
        }
    }

    /// Roll all four poles forward one sample with input `u` held.
    pub fn advance<A: Fn(Op, Plain, Plain) -> Plain>(&mut self, fpu: &Fpu<A>, u: Plain)
        requires
            fpu.valid(),
        ensures
            *final(self) == old(self).advanced(fpu, u),
    {
        self.p0 = self.p0.advanced(fpu, u);
        self.p1 = self.p1.advanced(fpu, u);
        self.p2 = self.p2.advanced(fpu, u);
        self.p3 = self.p3.advanced(fpu, u);
    }

    pub open spec fn silenced(self) -> Self {
        ContinuousPoleBank {
            p0: self.p0.silenced(),
            p1: self.p1.silenced(),
            p2: self.p2.silenced(),
            p3: self.p3.silenced(),
        }
    }

    pub fn reset(&mut self)
        ensures
            *final(self) == old(self).silenced(),
    {
        self.p0 = self.p0.silenced();
        self.p1 = self.p1.silenced();
        self.p2 = self.p2.silenced();
        self.p3 = self.p3.silenced();
    }

    pub open spec fn spec_real_output<A: Fn(Op, Plain, Plain) -> Plain>(
        self,
        fpu: &Fpu<A>,
    ) -> Plain {
        fpu.add(
            fpu.add(
                fpu.add(fpu.add(num(ZERO), self.p0.part(fpu)), self.p1.part(fpu)),
                self.p2.part(fpu),
            ),
            self.p3.part(fpu),
        )
    }

    /// The output of the filter.
    #[verifier::when_used_as_spec(spec_real_output)]
    pub fn real_output<A: Fn(Op, Plain, Plain) -> Plain>(self, fpu: &Fpu<A>) -> (r: Plain)
        requires
            fpu.valid(),
        ensures
            r == self.real_output(fpu),
    {
        fpu.add(
            fpu.add(
                fpu.add(fpu.add(num(ZERO), self.p0.part(fpu)), self.p1.part(fpu)),
                self.p2.part(fpu),
            ),
            self.p3.part(fpu),
        )
    }
}

pub open spec fn spec_pair_residue<A: Fn(Op, Plain, Plain) -> Plain>(
    fpu: &Fpu<A>,
    p0: Complex32,
    p1: Complex32,
) -> Complex32 {
    let one = Complex32 { re: num(ONE), im: num(ZERO) };
    let g = fpu.mul(num(TWO), fpu.add(one.neg().div(fpu, p0).re, one.neg().div(fpu, p1).re));
    Complex32 { re: fpu.div(num(ONE), g), im: num(ZERO) }
}

/// The residue of two pole pairs that makes their DC gain one.
#[verifier::when_used_as_spec(spec_pair_residue)]
pub fn pair_residue<A: Fn(Op, Plain, Plain) -> Plain>(
    fpu: &Fpu<A>,
    p0: Complex32,
    p1: Complex32,
) -> (r: Complex32)
    requires
        fpu.valid(),
    ensures
        r == pair_residue(fpu, p0, p1),
{
    let one = Complex32 { re: num(ONE), im: num(ZERO) };
    let g = fpu.mul(num(TWO), fpu.add(one.neg().div(fpu, p0).re, one.neg().div(fpu, p1).re));
    Complex32 { re: fpu.div(num(ONE), g), im: num(ZERO) }
}

pub open spec fn spec_recon_bank<A: Fn(Op, Plain, Plain) -> Plain>(
    fpu: &Fpu<A>,
    sample_rate: Plain,
) -> ContinuousPoleBank {
    let a = Complex32 { re: num(MINUS_F30000), im: num(F20000) };
    let b = Complex32 { re: num(MINUS_F50000), im: num(F30000) };
    let r = pair_residue(fpu, a, b);
    ContinuousPoleBank {
        p0: pole_at(fpu, a, r, sample_rate),
        p1: pole_at(fpu, a.conj(), r.conj(), sample_rate),
        p2: pole_at(fpu, b, r, sample_rate),
        p3: pole_at(fpu, b.conj(), r.conj(), sample_rate),
    }
}

/// The shape of the input and output filters: two well-damped pole pairs, a lowpass
/// from about 6 kHz with unity gain at DC.
#[verifier::when_used_as_spec(spec_recon_bank)]
pub fn recon_bank<A: Fn(Op, Plain, Plain) -> Plain>(
    fpu: &Fpu<A>,
    sample_rate: Plain,
) -> (r: ContinuousPoleBank)
    requires
        fpu.valid(),
    ensures
        r == recon_bank(fpu, sample_rate),
{
    let a = Complex32 { re: num(MINUS_F30000), im: num(F20000) };
    let b = Complex32 { re: num(MINUS_F50000), im: num(F30000) };
    let r = pair_residue(fpu, a, b);
    ContinuousPoleBank {
        p0: pole_at(fpu, a, r, sample_rate),
        p1: pole_at(fpu, a.conj(), r.conj(), sample_rate),
        p2: pole_at(fpu, b, r, sample_rate),
        p3: pole_at(fpu, b.conj(), r.conj(), sample_rate),
    }
}

/// One-pole low-pass with unity gain at DC.
#[derive(Clone, Copy, Debug, PartialEq, Eq, Structural)]
pub struct OnePoleLpf {
    pub alpha: Plain,
    pub y: Plain,
}

impl Default for OnePoleLpf {
    fn default() -> (r: Self)
        ensures
            r == (OnePoleLpf { alpha: num(ZERO), y: num(ZERO) }),
    {
        OnePoleLpf { alpha: num(ZERO), y: num(ZERO) }
    }
}

pub open spec fn spec_lpf_alpha<A: Fn(Op, Plain, Plain) -> Plain>(
    fpu: &Fpu<A>,
    cutoff_hz: Plain,
    sample_rate: Plain,
) -> Plain {
    fpu.sub(num(ONE), fpu.exp(fpu.div(fpu.mul(num(MINUS_TAU), cutoff_hz), sample_rate)))
}

/// The coefficient of a one-pole low-pass.
#[verifier::when_used_as_spec(spec_lpf_alpha)]
pub fn lpf_alpha<A: Fn(Op, Plain, Plain) -> Plain>(
    fpu: &Fpu<A>,
    cutoff_hz: Plain,
    sample_rate: Plain,
) -> (r: Plain)
    requires
        fpu.valid(),
    ensures
        r == lpf_alpha(fpu, cutoff_hz, sample_rate),
{
    fpu.sub(num(ONE), fpu.exp(fpu.div(fpu.mul(num(MINUS_TAU), cutoff_hz), sample_rate)))
}

impl OnePoleLpf {
    pub fn set_cutoff<A: Fn(Op, Plain, Plain) -> Plain>(
        &mut self,
        fpu: &Fpu<A>,
        cutoff_hz: Plain,
        sample_rate: Plain,
    )
        requires
            fpu.valid(),
        ensures
            *final(self) == (OnePoleLpf {
                alpha: lpf_alpha(fpu, cutoff_hz, sample_rate),
                ..*old(self)
            }),
    {
        self.alpha = lpf_alpha(fpu, cutoff_hz, sample_rate);
    }

    pub fn reset(&mut self)
        ensures
            *final(self) == (OnePoleLpf { y: num(ZERO), ..*old(self) }),
    {
        self.y = num(ZERO);
    }

    pub open spec fn processed<A: Fn(Op, Plain, Plain) -> Plain>(
        self,
        fpu: &Fpu<A>,
        x: Plain,
    ) -> (Self, Plain) {
        let y = fpu.add(self.y, fpu.mul(self.alpha, fpu.sub(x, self.y)));
        (OnePoleLpf { y, ..self }, y)
    }

    pub fn process<A: Fn(Op, Plain, Plain) -> Plain>(&mut self, fpu: &Fpu<A>, x: Plain) -> (r:
        Plain)
        requires
            fpu.valid(),
        ensures
            (*final(self), r) == old(self).processed(fpu, x),
    {
        self.y = fpu.add(self.y, fpu.mul(self.alpha, fpu.sub(x, self.y)));
        self.y
    }
}

/// A silent line for `max_delay_secs` of delay at the given rate.
pub fn line_for_duration<A: Fn(Op, Plain, Plain) -> Plain>(
    fpu: &Fpu<A>,
    max_delay_secs: Plain,
    sample_rate: Plain,
) -> (r: DelayLine)
    requires
        fpu.valid(),
        fpu.mul(max_delay_secs, sample_rate).ceil_index() <= usize::MAX / 32,
    ensures
        r@.wf(),
        2 * r@.cells.len() <= usize::MAX,
        delay::is_capacity(
            r@.cells.len() as int,
            fpu.mul(max_delay_secs, sample_rate).ceil_index() as int,
        ),
        r@ == Ring::silent(r@.cells.len()),
{
    DelayLine::with_cells(fpu.mul(max_delay_secs, sample_rate).ceil_index())
}

/// A line as the fractional reads ask for it.
pub open spec fn readable(ring: Ring) -> bool {
    ring.wf() && 2 * ring.cells.len() <= usize::MAX
}

pub open spec fn spec_catmull_rom<A: Fn(Op, Plain, Plain) -> Plain>(
    fpu: &Fpu<A>,
    x0: Plain,
    x1: Plain,
    x2: Plain,
    x3: Plain,
    f: Plain,
) -> Plain {
    let a0 = fpu.add(
        fpu.sub(
            fpu.add(fpu.mul(num(MINUS_F0_5), x0), fpu.mul(num(F1_5), x1)),
            fpu.mul(num(F1_5), x2),
        ),
        fpu.mul(num(HALF), x3),
    );
    let a1 = fpu.sub(
        fpu.add(fpu.sub(x0, fpu.mul(num(F2_5), x1)), fpu.mul(num(TWO), x2)),
        fpu.mul(num(HALF), x3),
    );
    let a2 = fpu.add(fpu.mul(num(MINUS_F0_5), x0), fpu.mul(num(HALF), x2));
    fpu.add(fpu.mul(fpu.add(fpu.mul(fpu.add(fpu.mul(a0, f), a1), f), a2), f), x1)
}

/// The Catmull-Rom cubic through four neighbours, `f` of the way from the second to
/// the third.
#[verifier::when_used_as_spec(spec_catmull_rom)]
pub fn catmull_rom<A: Fn(Op, Plain, Plain) -> Plain>(
    fpu: &Fpu<A>,
    x0: Plain,
    x1: Plain,
    x2: Plain,
    x3: Plain,
    f: Plain,
) -> (r: Plain)
    requires
        fpu.valid(),
    ensures
        r == catmull_rom(fpu, x0, x1, x2, x3, f),
{
    let a0 = fpu.add(
        fpu.sub(
            fpu.add(fpu.mul(num(MINUS_F0_5), x0), fpu.mul(num(F1_5), x1)),
            fpu.mul(num(F1_5), x2),
        ),
        fpu.mul(num(HALF), x3),
    );
    let a1 = fpu.sub(
        fpu.add(fpu.sub(x0, fpu.mul(num(F2_5), x1)), fpu.mul(num(TWO), x2)),
        fpu.mul(num(HALF), x3),
    );
    let a2 = fpu.add(fpu.mul(num(MINUS_F0_5), x0), fpu.mul(num(HALF), x2));
    fpu.add(fpu.mul(fpu.add(fpu.mul(fpu.add(fpu.mul(a0, f), a1), f), a2), f), x1)
}

/// A cubic read `offset` samples behind the last write.
pub open spec fn cubic<A: Fn(Op, Plain, Plain) -> Plain>(
    fpu: &Fpu<A>,
    ring: Ring,
    offset: Plain,
) -> Plain {
    let i = offset.to_index();
    let f = fpu.sub(offset, Plain::from_index(i));
    catmull_rom(
        fpu,
        ring.history(i - 1),
        ring.history(i as int),
        ring.history(i + 1),
        ring.history(i + 2),
        f,
    )
}

/// The cubic read of [`cubic`].
pub fn read_cubic<A: Fn(Op, Plain, Plain) -> Plain>(
    fpu: &Fpu<A>,
    line: &DelayLine,
    offset: Plain,
) -> (r: Plain)
    requires
        fpu.valid(),
        readable(line@),
    ensures
        r == cubic(fpu, line@, offset),
{
    let i: usize = offset.to_index();
    let f = fpu.sub(offset, Plain::from_index(i));
    let len: usize = line.capacity();
    let j: usize = i % len;
    proof {
        let n = len as int;
        let q = i as int / n;
        div_mod::lemma_fundamental_div_mod(i as int, n);
        mul::lemma_mul_is_commutative(n, q);
        line@.lemma_history_repeats(j as int, q);
        line@.lemma_history_repeats(j + 1, q);
        line@.lemma_history_repeats(j + 2, q);
        line@.lemma_history_repeats(j + n - 1, q - 1);
        assert((q - 1) * n == q * n - n) by (nonlinear_arith);
    }
    let x0 = line.past_around(j + (len - 1));
    let x1 = line.past_around(j);
    let x2 = line.past_around(j + 1);
    let x3 = line.past_around(j + 2);
    catmull_rom(fpu, x0, x1, x2, x3, f)
}

/// A first-order all-pass read `offset` samples behind the last write, after
/// `y_prev`.
pub open spec fn thiran<A: Fn(Op, Plain, Plain) -> Plain>(
    fpu: &Fpu<A>,
    ring: Ring,
    y_prev: Plain,
    offset: Plain,
) -> Plain {
    let i = offset.to_index();
    let frac = fpu.sub(offset, Plain::from_index(i)).clamp(num(F0_001), num(ONE_LESS_F0_001));
    let a = fpu.div(fpu.sub(num(ONE), frac), fpu.add(num(ONE), frac));
    let x0 = ring.history(i as int);
    let x1 = ring.history(i + 1);
    fpu.add(fpu.mul(a, fpu.sub(x0, y_prev)), x1)
}

/// First-order all-pass interpolation: flat magnitude and group delay. Recursive,
/// so it is reset when the delay jumps.
#[derive(Clone, Copy, Debug, PartialEq, Eq, Structural)]
pub struct ThiranInterp {
    pub y_prev: Plain,
}

impl Default for ThiranInterp {
    fn default() -> (r: Self)
        ensures
            r == (ThiranInterp { y_prev: num(ZERO) }),
    {
        ThiranInterp { y_prev: num(ZERO) }
    }
}

impl ThiranInterp {
    pub fn reset(&mut self)
        ensures
            *final(self) == (ThiranInterp { y_prev: num(ZERO) }),
    {
        self.y_prev = num(ZERO);
    }

    /// The read of [`thiran`], which becomes the next `y_prev`.
    pub fn read<A: Fn(Op, Plain, Plain) -> Plain>(
        &mut self,
        fpu: &Fpu<A>,
        line: &DelayLine,
        offset: Plain,
    ) -> (r: Plain)
        requires
            fpu.valid(),
            readable(line@),
        ensures
            r == thiran(fpu, line@, old(self).y_prev, offset),
            *final(self) == (ThiranInterp { y_prev: r }),
    {
        let i: usize = offset.to_index();
        let frac = fpu.sub(offset, Plain::from_index(i)).clamp(num(F0_001), num(ONE_LESS_F0_001));
        let a = fpu.div(fpu.sub(num(ONE), frac), fpu.add(num(ONE), frac));
        let len: usize = line.capacity();
        let j: usize = i % len;
        proof {
            let n = len as int;
            let q = i as int / n;
            div_mod::lemma_fundamental_div_mod(i as int, n);
            mul::lemma_mul_is_commutative(n, q);
            line@.lemma_history_repeats(j as int, q);
            line@.lemma_history_repeats(j + 1, q);
        }
        let x0 = line.past_around(j);
        let x1 = line.past_around(j + 1);
        let y = fpu.add(fpu.mul(a, fpu.sub(x0, self.y_prev)), x1);
        self.y_prev = y;
        y
    }
}

/// Bounded random walk driven by a 32-bit linear congruential generator.
#[derive(Clone, Copy, Debug, PartialEq, Eq, Structural)]
pub struct BoundedRandomWalk {
    pub rng: u32,
    pub value: Plain,
    pub step: Plain,
}

/// One step of the generator.
pub open spec fn congruential(rng: u32) -> u32 {
    rng.wrapping_mul(1_664_525).wrapping_add(1_013_904_223)
}

/// A 32-bit word read as a two's-complement integer.
pub open spec fn signed_half(s: u32) -> i64 {
    if s < 0x8000_0000 {
        s as i64
    } else {
        (s - 0x1_0000_0000) as i64
    }
}

impl BoundedRandomWalk {
    pub fn new(seed: u32, step: Plain) -> (r: Self)
        ensures
            r == (BoundedRandomWalk { rng: seed, value: num(ZERO), step }),
    {
        BoundedRandomWalk { rng: seed, value: num(ZERO), step }
    }

    /// The walk one step on: a random part of the step, kept to `[-1, 1]`.
    pub open spec fn advanced<A: Fn(Op, Plain, Plain) -> Plain>(self, fpu: &Fpu<A>) -> Self {
        let rng = congruential(self.rng);
        let noise = fpu.mul(Plain::from_int(signed_half(rng)), num(TWO_POW_MINUS_31));
        BoundedRandomWalk {
            rng,
            value: fpu.add(self.value, fpu.mul(noise, self.step)).clamp(num(MINUS_ONE), num(ONE)),
            ..self
        }
    }

    pub fn advance<A: Fn(Op, Plain, Plain) -> Plain>(&mut self, fpu: &Fpu<A>) -> (r: Plain)
        requires
            fpu.valid(),
        ensures
            *final(self) == old(self).advanced(fpu),
            r == final(self).value,
    {
        self.rng = self.rng.wrapping_mul(1_664_525).wrapping_add(1_013_904_223);
        let word: i64 = if self.rng < 0x8000_0000 {
            self.rng as i64
        } else {
            self.rng as i64 - 0x1_0000_0000
        };
        let noise = fpu.mul(Plain::from_int(word), num(TWO_POW_MINUS_31));
        self.value = fpu.add(self.value, fpu.mul(noise, self.step)).clamp(num(MINUS_ONE), num(ONE));
        self.value
    }
}

/// Samples between two steps of the clock jitter.
pub const JITTER_WALK_INTERVAL: u32 = 64;

/// Clock jitter: a slow wobble of the delay, renewed every
/// [`JITTER_WALK_INTERVAL`] samples.
#[derive(Clone, Copy, Debug, PartialEq, Eq, Structural)]
pub struct Jitter {
    pub amount: Plain,
    pub walk: BoundedRandomWalk,
    pub counter: u32,
    pub value: Plain,
}

impl Jitter {
    pub open spec fn wf(&self) -> bool {
        self.counter < JITTER_WALK_INTERVAL
    }

    pub open spec fn seeded(seed: u32, amount: Plain) -> Self {
        Jitter {
            amount,
            walk: BoundedRandomWalk { rng: seed, value: num(ZERO), step: num(F0_03) },
            counter: 0,
            value: num(ZERO),
        }
    }

    /// A walk from `seed`, at rest.
    pub fn new(seed: u32, amount: Plain) -> (r: Self)
        ensures
            r == Jitter::seeded(seed, amount),
            r.wf(),
    {
        Jitter {
            amount,
            walk: BoundedRandomWalk::new(seed, num(F0_03)),
            counter: 0,
            value: num(ZERO),
        }
    }

    /// Bring the wobble to rest. The walk itself stays where it is.
    pub fn rest(&mut self)
        ensures
            *final(self) == (Jitter { counter: 0, value: num(ZERO), ..*old(self) }),
            final(self).wf(),
    {
        self.counter = 0;
        self.value = num(ZERO);
    }

    /// The jitter one sample on, and the delay it makes of `delay_s`. With no amount
    /// the walk does not move and the delay is untouched.
    pub open spec fn applied<A: Fn(Op, Plain, Plain) -> Plain>(
        self,
        fpu: &Fpu<A>,
        delay_s: Plain,
    ) -> (Self, Plain) {
        if num(ZERO).less(self.amount) {
            let (walk, value) = if self.counter == 0 {
                (self.walk.advanced(fpu), self.walk.advanced(fpu).value)
            } else {
                (self.walk, self.value)
            };
            let counter = ((self.counter + 1) % JITTER_WALK_INTERVAL as int) as u32;
            (
                Jitter { walk, value, counter, ..self },
                fpu.mul(
                    delay_s,
                    fpu.add(num(ONE), fpu.mul(fpu.mul(value, self.amount), num(F0_03))),
                ),
            )
        } else {
            (self, delay_s)
        }
    }

    pub fn apply<A: Fn(Op, Plain, Plain) -> Plain>(&mut self, fpu: &Fpu<A>, delay_s: Plain) -> (r:
        Plain)
        requires
            fpu.valid(),
            old(self).wf(),
        ensures
            (*final(self), r) == old(self).applied(fpu, delay_s),
            final(self).wf(),
    {
        if num(ZERO).less(self.amount) {
            if self.counter == 0 {
                self.value = self.walk.advance(fpu);
            }
            self.counter = (self.counter + 1) % JITTER_WALK_INTERVAL;
            fpu.mul(
                delay_s,
                fpu.add(num(ONE), fpu.mul(fpu.mul(self.value, self.amount), num(F0_03))),
            )
        } else {
            delay_s
        }
    }
}

/// Soft saturation of the charge written to a line. A drive of zero disables it.
#[derive(Clone, Copy, Debug, PartialEq, Eq, Structural)]
pub struct Saturation {
    pub drive: Plain,
    pub inv_drive: Plain,
}

pub open spec fn spec_saturation<A: Fn(Op, Plain, Plain) -> Plain>(
    fpu: &Fpu<A>,
    drive: Plain,
) -> Saturation {
    let d = drive.max(num(ZERO));
    let inv_drive = if num(ZERO).less(d) {
        fpu.div(num(ONE), d)
    } else {
        num(ONE)
    };
    Saturation { drive: d, inv_drive }
}

/// Saturation at the given drive.
#[verifier::when_used_as_spec(spec_saturation)]
pub fn saturation<A: Fn(Op, Plain, Plain) -> Plain>(fpu: &Fpu<A>, drive: Plain) -> (r: Saturation)
    requires
        fpu.valid(),
    ensures
        r == saturation(fpu, drive),
{
    let d = drive.max(num(ZERO));
    let inv_drive = if num(ZERO).less(d) {
        fpu.div(num(ONE), d)
    } else {
        num(ONE)
    };
    Saturation { drive: d, inv_drive }
}

impl Saturation {
    pub open spec fn spec_charge<A: Fn(Op, Plain, Plain) -> Plain>(
        self,
        fpu: &Fpu<A>,
        x: Plain,
    ) -> Plain {
        if num(ZERO).less(self.drive) {
            fpu.mul(fast_tanh(fpu, fpu.mul(self.drive, x)), self.inv_drive)
        } else {
            x
        }
    }

    /// The charge that `x` leaves behind.
    #[verifier::when_used_as_spec(spec_charge)]
    pub fn charge<A: Fn(Op, Plain, Plain) -> Plain>(self, fpu: &Fpu<A>, x: Plain) -> (r: Plain)
        requires
            fpu.valid(),
        ensures
            r == self.charge(fpu, x),
    {
        if num(ZERO).less(self.drive) {
            fpu.mul(fast_tanh(fpu, fpu.mul(self.drive, x)), self.inv_drive)
        } else {
            x
        }
    }
}

/// Fractional-read interpolator of a delay tap.
#[derive(Clone, Copy, Debug, PartialEq, Eq, Structural)]
pub enum Interp {
    /// Catmull-Rom cubic: stateless, near-flat magnitude.
    Cubic,
    /// First-order all-pass: flat magnitude and group delay.
    Thiran,
}

impl Default for Interp {
    fn default() -> (r: Self)
        ensures
            r == Interp::Cubic,
    {
        Interp::Cubic
    }
}

/// What a [`ModDelayLine`] carries from sample to sample.
#[verifier::ext_equal]
pub struct ModDelayState {
    pub ring: Ring,
    pub input_bank: ContinuousPoleBank,
    pub output_bank: ContinuousPoleBank,
    pub recon: OnePoleLpf,
    pub thiran: ThiranInterp,
    pub jitter: Jitter,
}

/// What a [`ModDelayLine`] is set to.
#[derive(Clone, Copy, Debug, PartialEq, Eq, Structural)]
pub struct ModDelayParams {
    pub sample_rate: Plain,
    pub interp: Interp,
    pub sat: Saturation,
}

impl ModDelayState {
    pub open spec fn wf(self) -> bool {
        readable(self.ring) && self.jitter.wf()
    }

    /// One sample on: jittered delay, input filter, saturating write, fractional
    /// read, output filter and trim.
    #[verifier::opaque]
    pub open spec fn processed<A: Fn(Op, Plain, Plain) -> Plain>(
        self,
        fpu: &Fpu<A>,
        p: ModDelayParams,
        x: Plain,
        delay_s: Plain,
    ) -> (Self, Plain) {
        let (jitter, swung) = self.jitter.applied(fpu, delay_s);
        let input_bank = self.input_bank.advanced(fpu, x);
        let ring = self.ring.written(p.sat.charge(fpu, input_bank.real_output(fpu)));
        let top = Plain::from_index((ring.cells.len() - 2) as usize);
        let offset = fpu.mul(swung, p.sample_rate).clamp(num(ZERO), top);
        let (thiran, read) = match p.interp {
            Interp::Cubic => (self.thiran, cubic(fpu, ring, offset)),
            Interp::Thiran => {
                let y = thiran(fpu, ring, self.thiran.y_prev, offset);
                (ThiranInterp { y_prev: y }, y)
            },
        };
        let output_bank = self.output_bank.advanced(fpu, read);
        let (recon, y) = self.recon.processed(fpu, output_bank.real_output(fpu));
        (ModDelayState { ring, input_bank, output_bank, recon, thiran, jitter }, flush_denormal(y))
    }
}

/// One modulated delay line with the character of a bucket brigade at short delays.
pub struct ModDelayLine {
    pub buf: DelayLine,
    pub input_bank: ContinuousPoleBank,
    pub output_bank: ContinuousPoleBank,
    pub recon: OnePoleLpf,
    pub thiran: ThiranInterp,
    pub jitter: Jitter,
    pub params: ModDelayParams,
}

impl View for ModDelayLine {
    type V = ModDelayState;

    open spec fn view(&self) -> ModDelayState {
        ModDelayState {
            ring: self.buf@,
            input_bank: self.input_bank,
            output_bank: self.output_bank,
            recon: self.recon,
            thiran: self.thiran,
            jitter: self.jitter,
        }
    }
}

/// The seed a line's jitter starts from.
pub const DEFAULT_JITTER_SEED: u32 = 0x1bbd_0001;

impl ModDelayLine {
    /// A silent line for up to `max_delay_s` of delay, with two samples of headroom
    /// for the cubic read.
    pub fn new<A: Fn(Op, Plain, Plain) -> Plain>(
        fpu: &Fpu<A>,
        max_delay_s: Plain,
        sample_rate: Plain,
    ) -> (r: Self)
        requires
            fpu.valid(),
            ({
                let secs = fpu.add(max_delay_s, fpu.div(num(TWO), sample_rate));
                fpu.mul(secs, sample_rate).ceil_index() <= usize::MAX / 32
            }),
        ensures
            r@.wf(),
            ({
                let secs = fpu.add(max_delay_s, fpu.div(num(TWO), sample_rate));
                delay::is_capacity(
                    r@.ring.cells.len() as int,
                    fpu.mul(secs, sample_rate).ceil_index() as int,
                )
            }),
            r@ == (ModDelayState {
                ring: Ring::silent(r@.ring.cells.len()),
                input_bank: recon_bank(fpu, sample_rate),
                output_bank: recon_bank(fpu, sample_rate),
                recon: OnePoleLpf { alpha: num(ZERO), y: num(ZERO) },
                thiran: ThiranInterp { y_prev: num(ZERO) },
                jitter: Jitter::seeded(DEFAULT_JITTER_SEED, num(ZERO)),
            }),
            r.params == (ModDelayParams {
                sample_rate,
                interp: Interp::Cubic,
                sat: Saturation { drive: num(ZERO), inv_drive: num(ONE) },
            }),
    {
        let secs = fpu.add(max_delay_s, fpu.div(num(TWO), sample_rate));
        ModDelayLine {
            buf: line_for_duration(fpu, secs, sample_rate),
            input_bank: recon_bank(fpu, sample_rate),
            output_bank: recon_bank(fpu, sample_rate),
            recon: OnePoleLpf::default(),
            thiran: ThiranInterp::default(),
            jitter: Jitter::new(DEFAULT_JITTER_SEED, num(ZERO)),
            params: ModDelayParams {
                sample_rate,
                interp: Interp::Cubic,
                sat: Saturation { drive: num(ZERO), inv_drive: num(ONE) },
            },
        }
    }

    /// Set the cutoff of the trailing one-pole.
    pub fn set_recon_cutoff<A: Fn(Op, Plain, Plain) -> Plain>(
        &mut self,
        fpu: &Fpu<A>,
        cutoff_hz: Plain,
    )
        requires
            fpu.valid(),
        ensures
            final(self)@ == (ModDelayState {
                recon: OnePoleLpf {
                    alpha: lpf_alpha(fpu, cutoff_hz, old(self).params.sample_rate),
                    ..old(self).recon
                },
                ..old(self)@
            }),
            final(self).params == old(self).params,
    {
        self.recon.set_cutoff(fpu, cutoff_hz, self.params.sample_rate);
    }

    /// Select the interpolator. Its all-pass state restarts, so that the switch
    /// itself cannot click.
    pub fn set_interp(&mut self, interp: Interp)
        ensures
            final(self)@ == (ModDelayState {
                thiran: ThiranInterp { y_prev: num(ZERO) },
                ..old(self)@
            }),
            final(self).params == (ModDelayParams { interp, ..old(self).params }),
    {
        self.params.interp = interp;
        self.thiran.reset();
    }

    /// Set the drive of the write saturation. Zero disables it.
    pub fn set_saturation<A: Fn(Op, Plain, Plain) -> Plain>(&mut self, fpu: &Fpu<A>, drive: Plain)
        requires
            fpu.valid(),
        ensures
            final(self)@ == old(self)@,
            final(self).params == (ModDelayParams {
                sat: saturation(fpu, drive),
                ..old(self).params
            }),
    {
        self.params.sat = saturation(fpu, drive);
    }

    /// Set the amount of clock jitter. Zero disables it.
    pub fn set_jitter_amount(&mut self, amount: Plain)
        ensures
            final(self)@ == (ModDelayState {
                jitter: Jitter { amount: amount.clamp(num(ZERO), num(ONE)), ..old(self).jitter },
                ..old(self)@
            }),
            final(self).params == old(self).params,
    {
        self.jitter.amount = amount.clamp(num(ZERO), num(ONE));
    }

    /// Seed the jitter so that sibling lines decorrelate.
    pub fn set_jitter_seed(&mut self, seed: u32)
        ensures
            final(self)@ == (ModDelayState {
                jitter: Jitter::seeded(seed, old(self).jitter.amount),
                ..old(self)@
            }),
            final(self).params == old(self).params,
    {
        self.jitter = Jitter::new(seed, self.jitter.amount);
    }

    /// Silence the line.
    pub fn clear(&mut self)
        ensures
            final(self)@ == (ModDelayState {
                ring: Ring::silent(old(self)@.ring.cells.len()),
                input_bank: old(self).input_bank.silenced(),
                output_bank: old(self).output_bank.silenced(),
                recon: OnePoleLpf { y: num(ZERO), ..old(self).recon },
                thiran: ThiranInterp { y_prev: num(ZERO) },
                jitter: Jitter { counter: 0, value: num(ZERO), ..old(self).jitter },
            }),
            final(self).params == old(self).params,
            old(self)@.wf() ==> final(self)@.wf(),
    {
        self.buf.clear();
        self.input_bank.reset();
        self.output_bank.reset();
        self.recon.reset();
        self.thiran.reset();
        self.jitter.rest();
    }

    /// Process one sample at the commanded delay, which may change every sample.
    pub fn process<A: Fn(Op, Plain, Plain) -> Plain>(
        &mut self,
        fpu: &Fpu<A>,
        x: Plain,
        delay_s: Plain,
    ) -> (r: Plain)
        requires
            fpu.valid(),
            old(self)@.wf(),
        ensures
            (final(self)@, r) == old(self)@.processed(fpu, old(self).params, x, delay_s),
            final(self)@.wf(),
            final(self).params == old(self).params,
    {
        reveal(ModDelayState::processed);
        let p = self.params;
        let swung = self.jitter.apply(fpu, delay_s);
        self.input_bank.advance(fpu, x);
        let charge = p.sat.charge(fpu, self.input_bank.real_output(fpu));
        self.buf.write(charge);
        let top = Plain::from_index(self.buf.capacity() - 2);
        proof {
            plain::lemma_count_not_negative(top);
        }
        let offset = fpu.mul(swung, p.sample_rate).clamp(num(ZERO), top);
        let read = match p.interp {
            Interp::Cubic => read_cubic(fpu, &self.buf, offset),
            Interp::Thiran => self.thiran.read(fpu, &self.buf, offset),
        };
        self.output_bank.advance(fpu, read);
        let y = self.recon.process(fpu, self.output_bank.real_output(fpu));
        flush_denormal(y)
    }
}

/// A low-pass filter heads for its input: it never moves away from it, stays once it is there,
/// and at the full coefficient arrives at once.
pub proof fn lemma_lpf_heads_for_input<A: Fn(Op, Plain, Plain) -> Plain>(
    fpu: &Fpu<A>,
    f: OnePoleLpf,
    x: Plain,
    way: Plain,
)
    requires
        fpu.rounds(),
        f.y.is_number() && x.is_number() && way.is_number(),
        way.scaled() == x.scaled() - f.y.scaled(),
        f.alpha.is_finite() && 0 <= f.alpha.scaled() <= plain::unit(),
    ensures
        ({
            let (next, out) = f.processed(fpu, x);
            &&& out == next.y && next.alpha == f.alpha
            &&& f.y.at_most(x) ==> f.y.at_most(out)
            &&& x.at_most(f.y) ==> out.at_most(f.y)
            &&& f.y.equals(x) ==> out.equals(x)
            &&& f.alpha == num(ONE) ==> out.equals(x)
        }),
{
    math::lemma_part_way(fpu, f.y, x, f.alpha, way);
}

/// A higher cutoff has the larger coefficient, so long as the unit keeps the order of the two
/// exponentials.
pub proof fn lemma_cutoff_opens<A: Fn(Op, Plain, Plain) -> Plain>(
    fpu: &Fpu<A>,
    low: Plain,
    high: Plain,
    rate: Plain,
)
    requires
        fpu.rounds(),
        low.is_finite() && high.is_finite() && rate.is_finite(),
        low.at_most(high) && rate.scaled() > 0,
        fpu.mul(num(MINUS_TAU), low).is_finite() && fpu.mul(num(MINUS_TAU), high).is_finite(),
        ({
            let a = fpu.div(fpu.mul(num(MINUS_TAU), low), rate);
            let b = fpu.div(fpu.mul(num(MINUS_TAU), high), rate);
            &&& fpu.exp(a).is_finite() && fpu.exp(b).is_finite()
            &&& b.at_most(a) ==> fpu.exp(b).at_most(fpu.exp(a))
        }),
    ensures
        lpf_alpha(fpu, low, rate).at_most(lpf_alpha(fpu, high, rate)),
{
    plain::lemma_equal_scaled(low, high);
    plain::lemma_scaled_sign(num(MINUS_TAU));
    let (t, l, h) = (num(MINUS_TAU).scaled(), low.scaled(), high.scaled());
    assert(t * h <= t * l) by (nonlinear_arith)
        requires
            t <= 0,
            l <= h,
    ;
    fpu.lemma_mul_order(num(MINUS_TAU), high, num(MINUS_TAU), low);
    let (p, q) = (fpu.mul(num(MINUS_TAU), low), fpu.mul(num(MINUS_TAU), high));
    plain::lemma_equal_scaled(q, p);
    let (x, y, r) = (p.scaled(), q.scaled(), rate.scaled());
    assert(y * r <= x * r) by (nonlinear_arith)
        requires
            y <= x,
            r > 0,
    ;
    fpu.lemma_div_order(q, rate, p, rate);
    let (a, b) = (fpu.div(p, rate), fpu.div(q, rate));
    plain::lemma_equal_scaled(fpu.exp(b), fpu.exp(a));
    fpu.lemma_sub_order(num(ONE), fpu.exp(a), num(ONE), fpu.exp(b));
}

/// The cubic goes through its points: at the start of the way it is the second of them.
pub proof fn lemma_cubic_meets_its_point<A: Fn(Op, Plain, Plain) -> Plain>(
    fpu: &Fpu<A>,
    x0: Plain,
    x1: Plain,
    x2: Plain,
    x3: Plain,
    f: Plain,
)
    requires
        fpu.rounds(),
        f.is_zero(),
        x1.is_number(),
        ({
            let a0 = fpu.add(
                fpu.sub(
                    fpu.add(fpu.mul(num(MINUS_F0_5), x0), fpu.mul(num(F1_5), x1)),
                    fpu.mul(num(F1_5), x2),
                ),
                fpu.mul(num(HALF), x3),
            );
            let a1 = fpu.sub(
                fpu.add(fpu.sub(x0, fpu.mul(num(F2_5), x1)), fpu.mul(num(TWO), x2)),
                fpu.mul(num(HALF), x3),
            );
            let a2 = fpu.add(fpu.mul(num(MINUS_F0_5), x0), fpu.mul(num(HALF), x2));
            a0.is_finite() && a1.is_number() && a2.is_number()
        }),
    ensures
        catmull_rom(fpu, x0, x1, x2, x3, f).equals(x1),
{
    let a0 = fpu.add(
        fpu.sub(
            fpu.add(fpu.mul(num(MINUS_F0_5), x0), fpu.mul(num(F1_5), x1)),
            fpu.mul(num(F1_5), x2),
        ),
        fpu.mul(num(HALF), x3),
    );
    let a1 = fpu.sub(
        fpu.add(fpu.sub(x0, fpu.mul(num(F2_5), x1)), fpu.mul(num(TWO), x2)),
        fpu.mul(num(HALF), x3),
    );
    let a2 = fpu.add(fpu.mul(num(MINUS_F0_5), x0), fpu.mul(num(HALF), x2));
    fpu.lemma_none_of(a0, f);
    let b1 = fpu.add(fpu.mul(a0, f), a1);
    fpu.lemma_nothing_added(a1, fpu.mul(a0, f));
    fpu.lemma_none_of(b1, f);
    let b2 = fpu.add(fpu.mul(b1, f), a2);
    fpu.lemma_nothing_added(a2, fpu.mul(b1, f));
    fpu.lemma_none_of(b2, f);
    fpu.lemma_nothing_added(x1, fpu.mul(b2, f));
}

/// Between equal points the cubic is flat, wherever half the level and what it works with are
/// numbers.
pub proof fn lemma_cubic_is_flat<A: Fn(Op, Plain, Plain) -> Plain>(
    fpu: &Fpu<A>,
    c: Plain,
    h: Plain,
    h3: Plain,
    h5: Plain,
    f: Plain,
)
    requires
        fpu.rounds(),
        c.is_number() && c.mag() < 0x7e00_0000,
        h.is_number() && h3.is_number() && h5.is_number(),
        2 * h.scaled() == c.scaled(),
        h3.scaled() == 3 * h.scaled(),
        h5.scaled() == 5 * h.scaled(),
        f.is_finite(),
    ensures
        catmull_rom(fpu, c, c, c, c, f).equals(c),
{
    plain::lemma_small_values();
    vstd::arithmetic::power2::lemma2_to64();
    plain::lemma_half_again(127);
    plain::lemma_whole_value(0x40a0_0000, 5, 21);
    plain::lemma_twice(num(F2_5));
    plain::lemma_twice(c);
    plain::lemma_neg_scaled(num(HALF));
    plain::lemma_neg_scaled(h);
    plain::lemma_neg_scaled(h3);
    let (u, s) = (plain::unit(), c.scaled());
    let (hs, k) = (h.scaled(), num(HALF).scaled());
    assert(k * s == hs * u && (-k) * s == (-hs) * u) by (nonlinear_arith)
        requires
            2 * k == u,
            2 * hs == s,
    ;
    let (t, w) = (num(F1_5).scaled(), num(F2_5).scaled());
    assert(t * s == (3 * hs) * u && w * s == (5 * hs) * u && (2 * u) * s == (2 * s) * u)
        by (nonlinear_arith)
        requires
            2 * t == 3 * u,
            2 * w == 5 * u,
            2 * hs == s,
    ;
    let z = num(ZERO);
    let (mh, ph) = (fpu.mul(num(MINUS_F0_5), c), fpu.mul(num(HALF), c));
    let (m15, m25, m2) = (
        fpu.mul(num(F1_5), c),
        fpu.mul(num(F2_5), c),
        fpu.mul(num(TWO), c),
    );
    fpu.lemma_mul_side(num(MINUS_F0_5), c, h.neg());
    fpu.lemma_mul_side(num(HALF), c, h);
    fpu.lemma_mul_side(num(F1_5), c, h3);
    fpu.lemma_mul_side(num(F2_5), c, h5);
    fpu.lemma_mul_side(num(TWO), c, plain::twice(c));
    plain::lemma_equal_scaled(mh, h.neg());
    plain::lemma_equal_scaled(ph, h);
    plain::lemma_equal_scaled(m15, h3);
    plain::lemma_equal_scaled(m25, h5);
    plain::lemma_equal_scaled(m2, plain::twice(c));
    // The cubic coefficient.
    let p = fpu.add(mh, m15);
    fpu.lemma_add_side(mh, m15, c);
    plain::lemma_equal_scaled(p, c);
    let q = fpu.sub(p, m15);
    fpu.lemma_sub_side(p, m15, h.neg());
    plain::lemma_equal_scaled(q, h.neg());
    let a0 = fpu.add(q, ph);
    fpu.lemma_add_side(q, ph, z);
    plain::lemma_equal_scaled(a0, z);
    // The square one.
    let r = fpu.sub(c, m25);
    fpu.lemma_sub_side(c, m25, h3.neg());
    plain::lemma_equal_scaled(r, h3.neg());
    let v = fpu.add(r, m2);
    fpu.lemma_add_side(r, m2, h);
    plain::lemma_equal_scaled(v, h);
    let a1 = fpu.sub(v, ph);
    fpu.lemma_sub_side(v, ph, z);
    plain::lemma_equal_scaled(a1, z);
    // The slope.
    let a2 = fpu.add(mh, ph);
    fpu.lemma_add_side(mh, ph, z);
    plain::lemma_equal_scaled(a2, z);
    fpu.lemma_none_of(f, a0);
    fpu.lemma_nothing_added(a1, fpu.mul(a0, f));
    let b1 = fpu.add(fpu.mul(a0, f), a1);
    fpu.lemma_none_of(f, b1);
    fpu.lemma_nothing_added(a2, fpu.mul(b1, f));
    let b2 = fpu.add(fpu.mul(b1, f), a2);
    fpu.lemma_none_of(f, b2);
    fpu.lemma_nothing_added(c, fpu.mul(b2, f));
}

/// A whole offset reads back the very sample so far behind the last write.
pub proof fn lemma_whole_offset_reads_back<A: Fn(Op, Plain, Plain) -> Plain>(
    fpu: &Fpu<A>,
    ring: Ring,
    i: usize,
)
    requires
        fpu.rounds(),
        i < 0x100_0000,
        ring.history(i as int).is_number(),
        ({
            let (x0, x1) = (ring.history(i - 1), ring.history(i as int));
            let (x2, x3) = (ring.history(i + 1), ring.history(i + 2));
            let a0 = fpu.add(
                fpu.sub(
                    fpu.add(fpu.mul(num(MINUS_F0_5), x0), fpu.mul(num(F1_5), x1)),
                    fpu.mul(num(F1_5), x2),
                ),
                fpu.mul(num(HALF), x3),
            );
            let a1 = fpu.sub(
                fpu.add(fpu.sub(x0, fpu.mul(num(F2_5), x1)), fpu.mul(num(TWO), x2)),
                fpu.mul(num(HALF), x3),
            );
            let a2 = fpu.add(fpu.mul(num(MINUS_F0_5), x0), fpu.mul(num(HALF), x2));
            a0.is_finite() && a1.is_number() && a2.is_number()
        }),
    ensures
        cubic(fpu, ring, Plain::from_index(i)).equals(ring.history(i as int)),
{
    let x = Plain::from_index(i);
    plain::lemma_exact_index(i);
    plain::lemma_count_exists(i as int);
    plain::lemma_zero_scaled(num(ZERO));
    fpu.lemma_sub_side(x, x, num(ZERO));
    lemma_cubic_meets_its_point(
        fpu,
        ring.history(i - 1),
        ring.history(i as int),
        ring.history(i + 1),
        ring.history(i + 2),
        fpu.sub(x, x),
    );
}

/// The charge that a sample leaves has its sign; without drive it is the sample itself.
pub proof fn lemma_charge_keeps_sign<A: Fn(Op, Plain, Plain) -> Plain>(
    fpu: &Fpu<A>,
    s: Saturation,
    x: Plain,
)
    requires
        fpu.rounds(),
        s.drive.is_finite() && s.inv_drive.is_finite() && x.is_finite(),
        s.inv_drive.scaled() >= 0,
        fpu.mul(s.drive, x).is_finite(),
    ensures
        s.drive.at_most(num(ZERO)) ==> s.charge(fpu, x) == x,
        num(ZERO).at_most(s.drive) && x.scaled() >= 0 ==> s.charge(fpu, x).scaled() >= 0,
        num(ZERO).at_most(s.drive) && x.scaled() <= 0 ==> s.charge(fpu, x).scaled() <= 0,
{
    plain::lemma_small_values();
    let u = plain::unit();
    plain::lemma_equal_scaled(num(ZERO), s.drive);
    let y = fpu.mul(s.drive, x);
    let (d, w) = (s.drive.scaled(), x.scaled());
    if num(ZERO).less(s.drive) {
        assert(0 * u == 0 && (w >= 0 ==> d * w >= 0) && (w <= 0 ==> d * w <= 0))
            by (nonlinear_arith)
            requires
                d >= 0,
        ;
        fpu.lemma_mul_side(s.drive, x, num(ZERO));
        plain::lemma_equal_scaled(y, num(ZERO));
        math::lemma_tanh_keeps_sign(fpu, y);
        math::lemma_tanh_bounds(fpu, y);
        let t = fast_tanh(fpu, y);
        let (a, b) = (t.scaled(), s.inv_drive.scaled());
        assert((a >= 0 ==> a * b >= 0) && (a <= 0 ==> a * b <= 0)) by (nonlinear_arith)
            requires
                b >= 0,
        ;
        fpu.lemma_mul_side(t, s.inv_drive, num(ZERO));
        plain::lemma_equal_scaled(fpu.mul(t, s.inv_drive), num(ZERO));
    }
}

/// A clock without jitter leaves the delay as it is and does not walk on; one with it renews its
/// wobble once in an interval and holds it between.
pub proof fn lemma_jitter_interval<A: Fn(Op, Plain, Plain) -> Plain>(
    fpu: &Fpu<A>,
    j: Jitter,
    delay_s: Plain,
)
    requires
        j.wf(),
        !j.amount.is_nan(),
    ensures
        ({
            let (next, swung) = j.applied(fpu, delay_s);
            &&& j.amount.at_most(num(ZERO)) ==> next == j && swung == delay_s
            &&& num(ZERO).less(j.amount) && j.counter != 0 ==> next.value == j.value && next.walk
                == j.walk
            &&& num(ZERO).less(j.amount) ==> next.counter == (if j.counter + 1
                == JITTER_WALK_INTERVAL {
                0
            } else {
                j.counter + 1
            })
            &&& next.wf()
        }),
{
}

/// A walk stays within `[-1, 1]`.
pub proof fn lemma_walk_is_bounded<A: Fn(Op, Plain, Plain) -> Plain>(
    fpu: &Fpu<A>,
    w: BoundedRandomWalk,
)
    requires
        !fpu.add(
            w.value,
            fpu.mul(
                fpu.mul(Plain::from_int(signed_half(congruential(w.rng))), num(TWO_POW_MINUS_31)),
                w.step,
            ),
        ).is_nan(),
    ensures
        num(MINUS_ONE).at_most(w.advanced(fpu).value),
        w.advanced(fpu).value.at_most(num(ONE)),
        w.advanced(fpu).step == w.step,
{
}

/// An all-pass read passes a steady signal as it is, and stays above the older sample where the
/// newer one is above what came out last.
pub proof fn lemma_allpass_is_steady<A: Fn(Op, Plain, Plain) -> Plain>(
    fpu: &Fpu<A>,
    ring: Ring,
    y_prev: Plain,
    offset: Plain,
)
    requires
        fpu.rounds(),
        offset.is_finite(),
        !fpu.sub(offset, Plain::from_index(offset.to_index())).is_nan(),
        y_prev.is_finite(),
        ({
            let i = offset.to_index() as int;
            let (x0, x1) = (ring.history(i), ring.history(i + 1));
            &&& x0.is_finite() && x1.is_number()
            &&& fpu.sub(x0, y_prev).is_finite()
        }),
    ensures
        ({
            let i = offset.to_index() as int;
            let (x0, x1) = (ring.history(i), ring.history(i + 1));
            &&& x0.equals(y_prev) ==> thiran(fpu, ring, y_prev, offset).equals(x1)
            &&& y_prev.at_most(x0) && fpu.mul(
                fpu.div(num(ONE), num(ONE)),
                fpu.sub(x0, y_prev),
            ).is_finite() ==> x1.at_most(thiran(fpu, ring, y_prev, offset))
        }),
{
    plain::lemma_small_values();
    let u = plain::unit();
    let i = offset.to_index();
    let (x0, x1) = (ring.history(i as int), ring.history(i + 1));
    let frac = fpu.sub(offset, Plain::from_index(i)).clamp(num(F0_001), num(ONE_LESS_F0_001));
    plain::lemma_scaled_sign(num(F0_001));
    plain::lemma_equal_scaled(num(F0_001), frac);
    plain::lemma_equal_scaled(frac, num(ONE_LESS_F0_001));
    plain::lemma_equal_scaled(num(ONE_LESS_F0_001), num(ONE));
    let (t, b) = (fpu.sub(num(ONE), frac), fpu.add(num(ONE), frac));
    fpu.lemma_sub_side(num(ONE), frac, num(ZERO));
    fpu.lemma_sub_side(num(ONE), frac, num(ONE));
    plain::lemma_between_finite(num(ZERO), t, num(ONE));
    fpu.lemma_add_side(num(ONE), frac, num(ONE));
    fpu.lemma_add_side(num(ONE), frac, num(TWO));
    plain::lemma_between_finite(num(ONE), b, num(TWO));
    let a = fpu.div(t, b);
    let (ts, bs) = (t.scaled(), b.scaled());
    assert(0 <= ts * u <= u * bs && 0 * bs == 0) by (nonlinear_arith)
        requires
            0 <= ts <= u <= bs,
    ;
    fpu.lemma_div_side(t, b, num(ZERO));
    fpu.lemma_div_side(t, b, num(ONE));
    plain::lemma_between_finite(num(ZERO), a, num(ONE));
    let d = fpu.sub(x0, y_prev);
    if x0.equals(y_prev) {
        plain::lemma_equal_scaled(x0, y_prev);
        fpu.lemma_sub_side(x0, y_prev, num(ZERO));
        fpu.lemma_none_of(a, d);
        fpu.lemma_nothing_added(x1, fpu.mul(a, d));
    }
    let one = fpu.div(num(ONE), num(ONE));
    if y_prev.at_most(x0) && fpu.mul(one, d).is_finite() {
        assert(u * u == u * u);
        fpu.lemma_div_side(num(ONE), num(ONE), num(ONE));
        plain::lemma_equal_scaled(one, num(ONE));
        plain::lemma_equal_scaled(y_prev, x0);
        fpu.lemma_sub_side(x0, y_prev, num(ZERO));
        plain::lemma_equal_scaled(num(ZERO), d);
        let (s, k, q) = (a.scaled(), d.scaled(), one.scaled());
        assert(0 <= s * k <= q * k && 0 * u == 0) by (nonlinear_arith)
            requires
                0 <= s <= q,
                0 <= k,
        ;
        fpu.lemma_mul_side(a, d, num(ZERO));
        fpu.lemma_mul_order(a, d, one, d);
        let m = fpu.mul(a, d);
        plain::lemma_between_finite(num(ZERO), m, fpu.mul(one, d));
        fpu.lemma_add_side(m, x1, x1);
    }
}

} // verus!
