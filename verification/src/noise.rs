//! Noise sources.
use crate::fpu::{Fpu, Op};
use crate::nums::{
    F0_02, F0_0990460, F0_11, F0_1848, F0_2965164, F0_57000, F0_96300, F0_99765, F1_0526913,
    MINUS_ONE, ONE, TWO, TWO_POW_63, ZERO,
};
use crate::plain::{self, num, Plain};
use vstd::prelude::*;

verus! {

broadcast use crate::plain::group_by_rank;

/// One step of the xorshift64 generator.
pub open spec fn xorshifted(s: u64) -> u64 {
    let a = s ^ (s << 13);
    let b = a ^ (a >> 7);
    b ^ (b << 17)
}

/// The generator state read as a two's-complement integer.
pub open spec fn signed_word(s: u64) -> i64 {
    if s <= i64::MAX {
        s as i64
    } else {
        (s - 0x1_0000_0000_0000_0000) as i64
    }
}

/// The noise sample of a generator state.
pub open spec fn noise_sample<A: Fn(Op, Plain, Plain) -> Plain>(fpu: &Fpu<A>, s: u64) -> Plain {
    fpu.div(Plain::from_int(signed_word(s)), num(TWO_POW_63))
}

/// Only zero steps to zero, so a generator seeded with anything else never
/// sticks.
pub proof fn lemma_xorshift_never_sticks(s: u64)
    ensures
        xorshifted(s) == 0 <==> s == 0,
{
    let a = s ^ (s << 13);
    let b = a ^ (a >> 7);
    let c = b ^ (b << 17);
    assert(a == 0 <==> s == 0) by (bit_vector)
        requires
            a == s ^ (s << 13),
    ;
    assert(b == 0 <==> a == 0) by (bit_vector)
        requires
            b == a ^ (a >> 7),
    ;
    assert(c == 0 <==> b == 0) by (bit_vector)
        requires
            c == b ^ (b << 17),
    ;
}

/// Xorshift64 generator mapped to `[-1, 1]`. A zero `state` is a stuck fixed
/// point.
pub fn xorshift64<A: Fn(Op, Plain, Plain) -> Plain>(fpu: &Fpu<A>, state: &mut u64) -> (r: Plain)
    requires
        fpu.valid(),
    ensures
        *final(state) == xorshifted(*old(state)),
        r == noise_sample(fpu, *final(state)),
{
    let a: u64 = *state ^ (*state << 13);
    let b: u64 = a ^ (a >> 7);
    let s: u64 = b ^ (b << 17);
    *state = s;
    let word: i64 = if s <= i64::MAX as u64 {
        s as i64
    } else {
        -((u64::MAX - s) as i64) - 1
    };
    fpu.div(Plain::from_int(word), num(TWO_POW_63))
}

/// Selectable noise colour for the mixer's noise source.
#[derive(Clone, Copy, Debug, PartialEq, Eq, Structural)]
pub enum NoiseColor {
    White,
    Pink,
    Brown,
}

impl NoiseColor {
    pub open spec fn spec_label(self) -> &'static str {
        match self {
            NoiseColor::White => "White",
            NoiseColor::Pink => "Pink",
            NoiseColor::Brown => "Brown",
        }
    }

    #[verifier::when_used_as_spec(spec_label)]
    pub fn label(self) -> (r: &'static str)
        ensures
            r == self.label(),
    {
        match self {
            NoiseColor::White => "White",
            NoiseColor::Pink => "Pink",
            NoiseColor::Brown => "Brown",
        }
    }

    pub fn all() -> (r: [NoiseColor; 3])
        ensures
            r@ == seq![NoiseColor::White, NoiseColor::Pink, NoiseColor::Brown],
    {
        [NoiseColor::White, NoiseColor::Pink, NoiseColor::Brown]
    }
}

/// 3-pole pink-shaping filter, -3 dB per octave.
#[derive(Clone, Copy, Debug, PartialEq, Eq, Structural)]
pub struct PinkFilter {
    pub b0: Plain,
    pub b1: Plain,
    pub b2: Plain,
}

impl PinkFilter {
    pub open spec fn silent() -> Self {
        PinkFilter { b0: num(ZERO), b1: num(ZERO), b2: num(ZERO) }
    }

    pub fn new() -> (r: Self)
        ensures
            r == PinkFilter::silent(),
    {
        PinkFilter { b0: num(ZERO), b1: num(ZERO), b2: num(ZERO) }
    }

    pub fn reset(&mut self)
        ensures
            *final(self) == PinkFilter::silent(),
    {
        *self = PinkFilter::new();
    }

    pub open spec fn processed<A: Fn(Op, Plain, Plain) -> Plain>(
        self,
        fpu: &Fpu<A>,
        white: Plain,
    ) -> (Self, Plain) {
        let b0 = fpu.add(fpu.mul(num(F0_99765), self.b0), fpu.mul(white, num(F0_0990460)));
        let b1 = fpu.add(fpu.mul(num(F0_96300), self.b1), fpu.mul(white, num(F0_2965164)));
        let b2 = fpu.add(fpu.mul(num(F0_57000), self.b2), fpu.mul(white, num(F1_0526913)));
        (
            PinkFilter { b0, b1, b2 },
            fpu.mul(
                fpu.add(fpu.add(fpu.add(b0, b1), b2), fpu.mul(white, num(F0_1848))),
                num(F0_11),
            ),
        )
    }

    /// One shaped sample.
    pub fn process<A: Fn(Op, Plain, Plain) -> Plain>(
        &mut self,
        fpu: &Fpu<A>,
        white: Plain,
    ) -> (r: Plain)
        requires
            fpu.valid(),
        ensures
            (*final(self), r) == old(self).processed(fpu, white),
    {
        self.b0 = fpu.add(fpu.mul(num(F0_99765), self.b0), fpu.mul(white, num(F0_0990460)));
        self.b1 = fpu.add(fpu.mul(num(F0_96300), self.b1), fpu.mul(white, num(F0_2965164)));
        self.b2 = fpu.add(fpu.mul(num(F0_57000), self.b2), fpu.mul(white, num(F1_0526913)));
        fpu.mul(
            fpu.add(fpu.add(fpu.add(self.b0, self.b1), self.b2), fpu.mul(white, num(F0_1848))),
            num(F0_11),
        )
    }
}

impl Default for PinkFilter {
    fn default() -> (r: Self)
        ensures
            r == PinkFilter::silent(),
    {
        PinkFilter::new()
    }
}

/// Leaky integrator for brown noise (-6 dB per octave), held to `[-1, 1]`.
#[derive(Clone, Copy, Debug, PartialEq, Eq, Structural)]
pub struct BrownFilter {
    pub state: Plain,
}

impl BrownFilter {
    pub fn new() -> (r: Self)
        ensures
            r == (BrownFilter { state: num(ZERO) }),
    {
        BrownFilter { state: num(ZERO) }
    }

    pub fn reset(&mut self)
        ensures
            *final(self) == (BrownFilter { state: num(ZERO) }),
    {
        self.state = num(ZERO);
    }

    pub open spec fn processed<A: Fn(Op, Plain, Plain) -> Plain>(
        self,
        fpu: &Fpu<A>,
        input: Plain,
    ) -> (Self, Plain) {
        let state = fpu.add(self.state, fpu.mul(input, num(F0_02))).clamp(num(MINUS_ONE), num(ONE));
        (BrownFilter { state }, state)
    }

    /// One integrated sample.
    pub fn process<A: Fn(Op, Plain, Plain) -> Plain>(
        &mut self,
        fpu: &Fpu<A>,
        input: Plain,
    ) -> (r: Plain)
        requires
            fpu.valid(),
        ensures
            (*final(self), r) == old(self).processed(fpu, input),
    {
        self.state = fpu.add(
            self.state,
            fpu.mul(input, num(F0_02)),
        ).clamp(num(MINUS_ONE), num(ONE));
        self.state
    }
}

impl Default for BrownFilter {
    fn default() -> (r: Self)
        ensures
            r == (BrownFilter { state: num(ZERO) }),
    {
        BrownFilter::new()
    }
}

/// A complete noise generator: the PRNG and the colour shapers.
#[derive(Clone, Copy, Debug, PartialEq, Eq, Structural)]
pub struct NoiseSource {
    pub state: u64,
    pub pink: PinkFilter,
    pub brown: BrownFilter,
}

impl NoiseSource {
    /// The generator is off its stuck point.
    pub open spec fn wf(&self) -> bool {
        self.state != 0
    }

    pub fn new(seed: u64) -> (r: Self)
        ensures
            r.wf(),
            r == (NoiseSource {
                state: seed | 1,
                pink: PinkFilter::silent(),
                brown: BrownFilter { state: num(ZERO) },
            }),
    {
        assert(seed | 1 != 0) by (bit_vector);
        NoiseSource { state: seed | 1, pink: PinkFilter::new(), brown: BrownFilter::new() }
    }

    /// Silence the shapers. The generator runs on.
    pub fn reset(&mut self)
        ensures
            *final(self) == (NoiseSource {
                state: old(self).state,
                pink: PinkFilter::silent(),
                brown: BrownFilter { state: num(ZERO) },
            }),
    {
        self.pink.reset();
        self.brown.reset();
    }

    pub open spec fn stepped<A: Fn(Op, Plain, Plain) -> Plain>(
        self,
        fpu: &Fpu<A>,
        color: NoiseColor,
    ) -> (Self, Plain) {
        let state = xorshifted(self.state);
        let white = noise_sample(fpu, state);
        match color {
            NoiseColor::White => (NoiseSource { state, ..self }, white),
            NoiseColor::Pink => {
                let (pink, out) = self.pink.processed(fpu, white);
                (NoiseSource { state, pink, ..self }, out)
            },
            NoiseColor::Brown => {
                let (brown, out) = self.brown.processed(fpu, white);
                (NoiseSource { state, brown, ..self }, out)
            },
        }
    }

    /// The next sample in the given colour. Only that colour's shaper moves.
    pub fn next<A: Fn(Op, Plain, Plain) -> Plain>(
        &mut self,
        fpu: &Fpu<A>,
        color: NoiseColor,
    ) -> (r: Plain)
        requires
            fpu.valid(),
        ensures
            (*final(self), r) == old(self).stepped(fpu, color),
            old(self).wf() ==> final(self).wf(),
    {
        proof {
            lemma_xorshift_never_sticks(self.state);
        }
        let white = xorshift64(fpu, &mut self.state);
        match color {
            NoiseColor::White => white,
            NoiseColor::Pink => self.pink.process(fpu, white),
            NoiseColor::Brown => self.brown.process(fpu, white),
        }
    }
}

/// Noise keeps to `[-1, 1]` and has the sign of the word that it is read from.
pub proof fn lemma_noise_bounds<A: Fn(Op, Plain, Plain) -> Plain>(fpu: &Fpu<A>, s: u64)
    requires
        fpu.rounds(),
    ensures
        num(MINUS_ONE).at_most(noise_sample(fpu, s)),
        noise_sample(fpu, s).at_most(num(ONE)),
        signed_word(s) >= 0 ==> num(ZERO).at_most(noise_sample(fpu, s)),
        signed_word(s) <= 0 ==> noise_sample(fpu, s).at_most(num(ZERO)),
{
    plain::lemma_small_values();
    let w = signed_word(s);
    let x = Plain::from_int(w);
    let top = num(TWO_POW_63);
    plain::lemma_int_bounds(w);
    let u = plain::unit();
    plain::lemma_scaled_sign(top);
    let (v, t) = (x.scaled(), top.scaled());
    assert(t > 0 && -t <= v <= t);
    assert(0 * t == 0 && (-u) * t <= v * u && v * u <= u * t) by (nonlinear_arith)
        requires
            -t <= v <= t,
            u > 0,
    ;
    assert((v >= 0 ==> v * u >= 0) && (v <= 0 ==> v * u <= 0)) by (nonlinear_arith)
        requires
            u > 0,
    ;
    fpu.lemma_div_side(x, top, num(ONE));
    fpu.lemma_div_side(x, top, num(MINUS_ONE));
    fpu.lemma_div_side(x, top, num(ZERO));
}

/// A colour moves its own shaper and no other, the generator moves one step for any of them, and
/// white noise is the generator itself.
pub proof fn lemma_colours_apart<A: Fn(Op, Plain, Plain) -> Plain>(
    fpu: &Fpu<A>,
    n: NoiseSource,
    color: NoiseColor,
)
    ensures
        ({
            let (next, out) = n.stepped(fpu, color);
            &&& next.state == xorshifted(n.state)
            &&& color != NoiseColor::Pink ==> next.pink == n.pink
            &&& color != NoiseColor::Brown ==> next.brown == n.brown
            &&& color == NoiseColor::White ==> out == noise_sample(fpu, next.state)
            &&& color == NoiseColor::Brown ==> out == next.brown.state
        }),
{
}

/// Brown noise wanders: it goes up on a positive sample and down on a negative one, by no more
/// than the sample, and stays within `[-1, 1]`.
pub proof fn lemma_brown_wanders<A: Fn(Op, Plain, Plain) -> Plain>(
    fpu: &Fpu<A>,
    b: BrownFilter,
    x: Plain,
)
    requires
        fpu.rounds(),
        b.state.is_number() && num(MINUS_ONE).at_most(b.state) && b.state.at_most(num(ONE)),
        x.is_finite() && -plain::unit() <= x.scaled() <= plain::unit(),
    ensures
        ({
            let (next, out) = b.processed(fpu, x);
            &&& out == next.state
            &&& x.scaled() >= 0 ==> b.state.at_most(out)
            &&& x.scaled() <= 0 ==> out.at_most(b.state)
            &&& num(MINUS_ONE).at_most(out) && out.at_most(num(ONE))
        }),
{
    plain::lemma_small_values();
    let u = plain::unit();
    plain::lemma_equal_scaled(num(F0_02), num(ONE));
    plain::lemma_scaled_sign(num(F0_02));
    plain::lemma_equal_scaled(num(MINUS_ONE), b.state);
    plain::lemma_equal_scaled(b.state, num(ONE));
    let m = fpu.mul(x, num(F0_02));
    let (s, k) = (x.scaled(), num(F0_02).scaled());
    assert(0 * u == 0 && (s >= 0 ==> s * k >= 0) && (s <= 0 ==> s * k <= 0)) by (nonlinear_arith)
        requires
            k > 0,
    ;
    assert(u * u == u * u);
    fpu.lemma_mul_within(x, num(F0_02), u, u, num(ONE));
    fpu.lemma_mul_side(x, num(F0_02), num(ZERO));
    plain::lemma_equal_scaled(m, num(ZERO));
    fpu.lemma_add_within(b.state, m, u, u, num(TWO));
    fpu.lemma_add_side(b.state, m, b.state);
}

/// A shaper of pink noise at rest stays silent.
pub proof fn lemma_pink_rests<A: Fn(Op, Plain, Plain) -> Plain>(
    fpu: &Fpu<A>,
    p: PinkFilter,
    x: Plain,
)
    requires
        fpu.rounds(),
        x.is_zero(),
        p.b0.is_zero() && p.b1.is_zero() && p.b2.is_zero(),
    ensures
        ({
            let (next, out) = p.processed(fpu, x);
            &&& out.is_zero()
            &&& next.b0.is_zero() && next.b1.is_zero() && next.b2.is_zero()
        }),
{
    fpu.lemma_none_of(num(F0_99765), p.b0);
    fpu.lemma_none_of(num(F0_96300), p.b1);
    fpu.lemma_none_of(num(F0_57000), p.b2);
    fpu.lemma_none_of(num(F0_0990460), x);
    fpu.lemma_none_of(num(F0_2965164), x);
    fpu.lemma_none_of(num(F1_0526913), x);
    fpu.lemma_none_of(num(F0_1848), x);
    let (next, out) = p.processed(fpu, x);
    fpu.lemma_nothing_added(fpu.mul(num(F0_99765), p.b0), fpu.mul(x, num(F0_0990460)));
    fpu.lemma_nothing_added(fpu.mul(num(F0_96300), p.b1), fpu.mul(x, num(F0_2965164)));
    fpu.lemma_nothing_added(fpu.mul(num(F0_57000), p.b2), fpu.mul(x, num(F1_0526913)));
    fpu.lemma_nothing_added(next.b0, next.b1);
    let two = fpu.add(next.b0, next.b1);
    fpu.lemma_nothing_added(two, next.b2);
    let three = fpu.add(two, next.b2);
    fpu.lemma_nothing_added(three, fpu.mul(x, num(F0_1848)));
    fpu.lemma_none_of(num(F0_11), fpu.add(three, fpu.mul(x, num(F0_1848))));
}

} // verus!
