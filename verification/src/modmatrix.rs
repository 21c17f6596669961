//! A matrix of modulation amounts.
use crate::fpu::{Fpu, Op};
use crate::nums::ZERO;
use crate::plain::{self, num, Plain};
use vstd::prelude::*;

verus! {

broadcast use crate::plain::group_by_rank;

/// Modulation sources, in the order of the rows.
#[derive(Clone, Copy, Debug, PartialEq, Eq, Structural)]
pub enum ModSource {
    Env1,
    Env2,
    Lfo,
    Velocity,
    KeyFollow,
}

/// Modulation destinations, in the order of the columns.
#[derive(Clone, Copy, Debug, PartialEq, Eq, Structural)]
pub enum ModDest {
    Pitch,
    Cutoff,
    Amp,
    Pwm,
}

impl ModSource {
    pub const COUNT: usize = 5;

    pub open spec fn spec_index(self) -> usize {
        match self {
            ModSource::Env1 => 0,
            ModSource::Env2 => 1,
            ModSource::Lfo => 2,
            ModSource::Velocity => 3,
            ModSource::KeyFollow => 4,
        }
    }

    #[verifier::when_used_as_spec(spec_index)]
    pub fn index(self) -> (r: usize)
        ensures
            r == self.index(),
            r < ModSource::COUNT,
    {
        match self {
            ModSource::Env1 => 0,
            ModSource::Env2 => 1,
            ModSource::Lfo => 2,
            ModSource::Velocity => 3,
            ModSource::KeyFollow => 4,
        }
    }

    pub open spec fn spec_label(self) -> &'static str {
        match self {
            ModSource::Env1 => "Env 1",
            ModSource::Env2 => "Env 2",
            ModSource::Lfo => "LFO",
            ModSource::Velocity => "Velocity",
            ModSource::KeyFollow => "Key Follow",
        }
    }

    #[verifier::when_used_as_spec(spec_label)]
    pub fn label(self) -> (r: &'static str)
        ensures
            r == self.label(),
    {
        match self {
            ModSource::Env1 => "Env 1",
            ModSource::Env2 => "Env 2",
            ModSource::Lfo => "LFO",
            ModSource::Velocity => "Velocity",
            ModSource::KeyFollow => "Key Follow",
        }
    }

    pub fn all() -> (r: [ModSource; 5])
        ensures
            r@ == seq![
                ModSource::Env1,
                ModSource::Env2,
                ModSource::Lfo,
                ModSource::Velocity,
                ModSource::KeyFollow,
            ],
    {
        [
            ModSource::Env1,
            ModSource::Env2,
            ModSource::Lfo,
            ModSource::Velocity,
            ModSource::KeyFollow,
        ]
    }
}

impl ModDest {
    pub const COUNT: usize = 4;

    pub open spec fn spec_index(self) -> usize {
        match self {
            ModDest::Pitch => 0,
            ModDest::Cutoff => 1,
            ModDest::Amp => 2,
            ModDest::Pwm => 3,
        }
    }

    #[verifier::when_used_as_spec(spec_index)]
    pub fn index(self) -> (r: usize)
        ensures
            r == self.index(),
            r < ModDest::COUNT,
    {
        match self {
            ModDest::Pitch => 0,
            ModDest::Cutoff => 1,
            ModDest::Amp => 2,
            ModDest::Pwm => 3,
        }
    }

    pub open spec fn spec_label(self) -> &'static str {
        match self {
            ModDest::Pitch => "Pitch",
            ModDest::Cutoff => "Cutoff",
            ModDest::Amp => "Amp",
            ModDest::Pwm => "PWM",
        }
    }

    #[verifier::when_used_as_spec(spec_label)]
    pub fn label(self) -> (r: &'static str)
        ensures
            r == self.label(),
    {
        match self {
            ModDest::Pitch => "Pitch",
            ModDest::Cutoff => "Cutoff",
            ModDest::Amp => "Amp",
            ModDest::Pwm => "PWM",
        }
    }

    pub fn all() -> (r: [ModDest; 4])
        ensures
            r@ == seq![ModDest::Pitch, ModDest::Cutoff, ModDest::Amp, ModDest::Pwm],
    {
        [ModDest::Pitch, ModDest::Cutoff, ModDest::Amp, ModDest::Pwm]
    }
}

/// Modulation amounts, by source and destination.
#[derive(Clone, Copy)]
pub struct ModMatrix {
    pub depth: [[Plain; 4]; 5],
}

impl Default for ModMatrix {
    fn default() -> (r: Self)
        ensures
            forall|s: ModSource, d: ModDest| #[trigger] r.at(s, d) == num(ZERO),
    {
        ModMatrix::new()
    }
}

impl ModMatrix {
    /// The amount from a source to a destination.
    pub open spec fn at(&self, s: ModSource, d: ModDest) -> Plain {
        self.depth@[s.index() as int]@[d.index() as int]
    }

    pub fn new() -> (r: Self)
        ensures
            forall|s: ModSource, d: ModDest| #[trigger] r.at(s, d) == num(ZERO),
    {
        let row: [Plain; 4] = [num(ZERO), num(ZERO), num(ZERO), num(ZERO)];
        ModMatrix { depth: [row, row, row, row, row] }
    }

    /// Set one amount. The others stay.
    pub fn set(&mut self, src: ModSource, dest: ModDest, amount: Plain)
        ensures
            forall|s: ModSource, d: ModDest| #[trigger] final(self).at(s, d) == (if s == src && d
                == dest {
                amount
            } else {
                old(self).at(s, d)
            }),
    {
        let (i, j): (usize, usize) = (src.index(), dest.index());
        let mut row: [Plain; 4] = self.depth[i];
        row[j] = amount;
        self.depth[i] = row;
    }

    /// The modulation that reaches a destination: every source by its amount, summed
    /// in the order of the sources.
    pub open spec fn reaching<A: Fn(Op, Plain, Plain) -> Plain>(
        &self,
        fpu: &Fpu<A>,
        d: ModDest,
        srcs: Seq<Plain>,
    ) -> Plain {
        let a = fpu.add(num(ZERO), fpu.mul(srcs[0], self.at(ModSource::Env1, d)));
        let b = fpu.add(a, fpu.mul(srcs[1], self.at(ModSource::Env2, d)));
        let c = fpu.add(b, fpu.mul(srcs[2], self.at(ModSource::Lfo, d)));
        let e = fpu.add(c, fpu.mul(srcs[3], self.at(ModSource::Velocity, d)));
        fpu.add(e, fpu.mul(srcs[4], self.at(ModSource::KeyFollow, d)))
    }

    pub fn dest<A: Fn(Op, Plain, Plain) -> Plain>(
        &self,
        fpu: &Fpu<A>,
        dest: ModDest,
        srcs: &[Plain; 5],
    ) -> (r: Plain)
        requires
            fpu.valid(),
        ensures
            r == self.reaching(fpu, dest, srcs@),
    {
        let d: usize = dest.index();
        let a = fpu.add(num(ZERO), fpu.mul(srcs[0], self.depth[0][d]));
        let b = fpu.add(a, fpu.mul(srcs[1], self.depth[1][d]));
        let c = fpu.add(b, fpu.mul(srcs[2], self.depth[2][d]));
        let e = fpu.add(c, fpu.mul(srcs[3], self.depth[3][d]));
        fpu.add(e, fpu.mul(srcs[4], self.depth[4][d]))
    }
}

/// Each amount of a matrix carries its own source to its own destination: with every other
/// amount to a destination at nothing, what reaches it is the source times that amount, wherever
/// the product is a number.
pub proof fn lemma_amount_alone<A: Fn(Op, Plain, Plain) -> Plain>(
    fpu: &Fpu<A>,
    m: &ModMatrix,
    s: ModSource,
    d: ModDest,
    srcs: Seq<Plain>,
    r: Plain,
)
    requires
        fpu.rounds(),
        srcs.len() == 5,
        forall|i: int| 0 <= i < 5 ==> (#[trigger] srcs[i]).is_finite(),
        m.at(s, d).is_finite() && r.is_number(),
        forall|o: ModSource| o != s ==> (#[trigger] m.at(o, d)).is_zero(),
        r.scaled() * plain::unit() == srcs[s.index() as int].scaled() * m.at(s, d).scaled(),
    ensures
        m.reaching(fpu, d, srcs).equals(r),
{
    let z = num(ZERO);
    plain::lemma_zero_scaled(z);
    let x0 = fpu.mul(srcs[0], m.at(ModSource::Env1, d));
    let x1 = fpu.mul(srcs[1], m.at(ModSource::Env2, d));
    let x2 = fpu.mul(srcs[2], m.at(ModSource::Lfo, d));
    let x3 = fpu.mul(srcs[3], m.at(ModSource::Velocity, d));
    let x4 = fpu.mul(srcs[4], m.at(ModSource::KeyFollow, d));
    lemma_amount(fpu, srcs[0], m.at(ModSource::Env1, d), s == ModSource::Env1, r);
    lemma_amount(fpu, srcs[1], m.at(ModSource::Env2, d), s == ModSource::Env2, r);
    lemma_amount(fpu, srcs[2], m.at(ModSource::Lfo, d), s == ModSource::Lfo, r);
    lemma_amount(fpu, srcs[3], m.at(ModSource::Velocity, d), s == ModSource::Velocity, r);
    lemma_amount(fpu, srcs[4], m.at(ModSource::KeyFollow, d), s == ModSource::KeyFollow, r);
    let a = fpu.add(z, x0);
    lemma_one_more(fpu, z, x0, r);
    let b = fpu.add(a, x1);
    lemma_one_more(fpu, a, x1, r);
    let c = fpu.add(b, x2);
    lemma_one_more(fpu, b, x2, r);
    let e = fpu.add(c, x3);
    lemma_one_more(fpu, c, x3, r);
    lemma_one_more(fpu, e, x4, r);
}

proof fn lemma_amount<A: Fn(Op, Plain, Plain) -> Plain>(
    fpu: &Fpu<A>,
    x: Plain,
    amount: Plain,
    alone: bool,
    r: Plain,
)
    requires
        fpu.rounds(),
        x.is_finite() && amount.is_finite() && r.is_number(),
        alone ==> r.scaled() * plain::unit() == x.scaled() * amount.scaled(),
        !alone ==> amount.is_zero(),
    ensures
        alone ==> fpu.mul(x, amount).equals(r),
        !alone ==> fpu.mul(x, amount).is_zero(),
{
    if alone {
        fpu.lemma_mul_side(x, amount, r);
    } else {
        fpu.lemma_none_of(x, amount);
    }
}

/// A sum in which one part alone is more than nothing, with one more part.
proof fn lemma_one_more<A: Fn(Op, Plain, Plain) -> Plain>(
    fpu: &Fpu<A>,
    sum: Plain,
    x: Plain,
    r: Plain,
)
    requires
        fpu.rounds(),
        r.is_number(),
        sum.is_zero() || sum.equals(r),
        x.is_zero() || x.equals(r),
        sum.is_zero() || x.is_zero(),
    ensures
        sum.equals(r) || x.equals(r) ==> fpu.add(sum, x).equals(r),
        sum.is_zero() && x.is_zero() ==> fpu.add(sum, x).is_zero(),
{
    if sum.is_zero() {
        plain::lemma_zero_scaled(sum);
    }
    if x.is_zero() {
        plain::lemma_zero_scaled(x);
    }
    plain::lemma_equal_scaled(sum, r);
    plain::lemma_equal_scaled(x, r);
    fpu.lemma_add_side(sum, x, r);
    if sum.is_zero() && x.is_zero() {
        fpu.lemma_nothing_added(sum, x);
    }
}

} // verus!
