//! The reverb's type and depth, resolved to its underlying knobs.
use crate::fpu::{Fpu, Op};
use crate::nums::{
    F0_1, F0_12, F0_15, F0_2, F0_23, F0_25, F0_3, F0_37, F0_52, F0_55, F0_65, F0_7, F0_75, F0_78,
    F0_8, F0_85, F0_88, HALF, MINUS_ZERO, ONE, ZERO,
};
use crate::plain::{self, num, Plain};
use vstd::prelude::*;

verus! {

broadcast use crate::plain::group_by_rank;

/// Reverb voicing.
#[derive(Clone, Copy, Debug, PartialEq, Eq, Structural)]
pub enum ReverbType {
    Plate,
    Room,
    Hall,
    Large,
}

impl ReverbType {
    pub const COUNT: usize = 4;

    pub open spec fn spec_index(self) -> usize {
        match self {
            ReverbType::Plate => 0,
            ReverbType::Room => 1,
            ReverbType::Hall => 2,
            ReverbType::Large => 3,
        }
    }

    #[verifier::when_used_as_spec(spec_index)]
    pub fn index(self) -> (r: usize)
        ensures
            r == self.index(),
            r < ReverbType::COUNT,
    {
        match self {
            ReverbType::Plate => 0,
            ReverbType::Room => 1,
            ReverbType::Hall => 2,
            ReverbType::Large => 3,
        }
    }

    pub open spec fn spec_from_index(i: usize) -> Self {
        match i {
            0 => ReverbType::Plate,
            1 => ReverbType::Room,
            2 => ReverbType::Hall,
            _ => ReverbType::Large,
        }
    }

    /// The type at index `i`, the last one for indices past the end.
    #[verifier::when_used_as_spec(spec_from_index)]
    pub fn from_index(i: usize) -> (r: Self)
        ensures
            r == ReverbType::from_index(i),
    {
        match i {
            0 => ReverbType::Plate,
            1 => ReverbType::Room,
            2 => ReverbType::Hall,
            _ => ReverbType::Large,
        }
    }

    /// Every type, in the order of the indices.
    pub fn all() -> (r: [ReverbType; 4])
        ensures
            r@ == seq![ReverbType::Plate, ReverbType::Room, ReverbType::Hall, ReverbType::Large],
    {
        [ReverbType::Plate, ReverbType::Room, ReverbType::Hall, ReverbType::Large]
    }

    pub open spec fn spec_row(self) -> MacroRow {
        match self {
            ReverbType::Plate => MacroRow {
                size_min: num(F0_1),
                size_max: num(F0_3),
                decay: num(F0_55),
                damp: num(F0_3),
                mod_rate: num(F0_52),
                mod_depth: num(F0_1),
                diffusion: num(F0_3),
            },
            ReverbType::Room => MacroRow {
                size_min: num(F0_25),
                size_max: num(F0_55),
                decay: num(F0_65),
                damp: num(HALF),
                mod_rate: num(F0_37),
                mod_depth: num(F0_2),
                diffusion: num(F0_55),
            },
            ReverbType::Hall => MacroRow {
                size_min: num(HALF),
                size_max: num(F0_8),
                decay: num(F0_78),
                damp: num(F0_65),
                mod_rate: num(F0_23),
                mod_depth: num(F0_12),
                diffusion: num(F0_75),
            },
            ReverbType::Large => MacroRow {
                size_min: num(F0_7),
                size_max: num(ONE),
                decay: num(F0_88),
                damp: num(F0_75),
                mod_rate: num(F0_1),
                mod_depth: num(F0_15),
                diffusion: num(F0_85),
            },
        }
    }

    /// The voicing row of the type.
    #[verifier::when_used_as_spec(spec_row)]
    pub fn row(self) -> (r: MacroRow)
        ensures
            r == self.row(),
    {
        match self {
            ReverbType::Plate => MacroRow {
                size_min: num(F0_1),
                size_max: num(F0_3),
                decay: num(F0_55),
                damp: num(F0_3),
                mod_rate: num(F0_52),
                mod_depth: num(F0_1),
                diffusion: num(F0_3),
            },
            ReverbType::Room => MacroRow {
                size_min: num(F0_25),
                size_max: num(F0_55),
                decay: num(F0_65),
                damp: num(HALF),
                mod_rate: num(F0_37),
                mod_depth: num(F0_2),
                diffusion: num(F0_55),
            },
            ReverbType::Hall => MacroRow {
                size_min: num(HALF),
                size_max: num(F0_8),
                decay: num(F0_78),
                damp: num(F0_65),
                mod_rate: num(F0_23),
                mod_depth: num(F0_12),
                diffusion: num(F0_75),
            },
            ReverbType::Large => MacroRow {
                size_min: num(F0_7),
                size_max: num(ONE),
                decay: num(F0_88),
                damp: num(F0_75),
                mod_rate: num(F0_1),
                mod_depth: num(F0_15),
                diffusion: num(F0_85),
            },
        }
    }

    /// Indices and types correspond.
    pub proof fn lemma_index_roundtrips(self)
        ensures
            self.index() < ReverbType::COUNT,
            ReverbType::from_index(self.index()) == self,
    {
    }
}

/// One row of the voicing table.
#[derive(Clone, Copy, Debug, PartialEq, Eq, Structural)]
pub struct MacroRow {
    pub size_min: Plain,
    pub size_max: Plain,
    pub decay: Plain,
    pub damp: Plain,
    pub mod_rate: Plain,
    pub mod_depth: Plain,
    /// Allpass diffusion in `[0, 1]`: dry for the plate's ring, dense for the halls.
    pub diffusion: Plain,
}

/// The knobs of the reverb that a type and depth resolve to.
#[derive(Clone, Copy, Debug, PartialEq, Eq, Structural)]
pub struct ReverbVoicing {
    pub size: Plain,
    pub decay: Plain,
    pub damping: Plain,
    pub mod_rate: Plain,
    pub mod_depth: Plain,
    pub diffusion: Plain,
}

pub open spec fn spec_reverb_macro<A: Fn(Op, Plain, Plain) -> Plain>(
    fpu: &Fpu<A>,
    t: ReverbType,
    depth: Plain,
) -> ReverbVoicing {
    let row = t.row();
    let d = depth.clamp(num(ZERO), num(ONE));
    ReverbVoicing {
        size: fpu.add(row.size_min, fpu.mul(fpu.sub(row.size_max, row.size_min), d)),
        decay: row.decay,
        damping: row.damp,
        mod_rate: row.mod_rate,
        mod_depth: row.mod_depth,
        diffusion: row.diffusion,
    }
}

/// Resolve a type and a depth: the depth moves the size across the type's window, the
/// rest is fixed by the type.
#[verifier::when_used_as_spec(spec_reverb_macro)]
pub fn reverb_macro<A: Fn(Op, Plain, Plain) -> Plain>(
    fpu: &Fpu<A>,
    t: ReverbType,
    depth: Plain,
) -> (r: ReverbVoicing)
    requires
        fpu.valid(),
    ensures
        r == reverb_macro(fpu, t, depth),
{
    let row = t.row();
    let d = depth.clamp(num(ZERO), num(ONE));
    ReverbVoicing {
        size: fpu.add(row.size_min, fpu.mul(fpu.sub(row.size_max, row.size_min), d)),
        decay: row.decay,
        damping: row.damp,
        mod_rate: row.mod_rate,
        mod_depth: row.mod_depth,
        diffusion: row.diffusion,
    }
}

/// Beyond `[0, 1]` the depth makes no difference.
pub proof fn lemma_depth_saturates<A: Fn(Op, Plain, Plain) -> Plain>(
    fpu: &Fpu<A>,
    t: ReverbType,
    depth: Plain,
)
    ensures
        depth.at_most(num(ZERO)) && depth != num(MINUS_ZERO) ==> reverb_macro(fpu, t, depth)
            == reverb_macro(fpu, t, num(ZERO)),
        num(ONE).at_most(depth) ==> reverb_macro(fpu, t, depth) == reverb_macro(fpu, t, num(ONE)),
{
}

/// The types go from the smallest space to the largest: later ones are larger across their
/// whole window, decay longer, are darker, swing slower and diffuse more. No decay reaches one.
pub proof fn lemma_types_grow(a: ReverbType, b: ReverbType)
    requires
        a.index() < b.index(),
    ensures
        a.row().size_min.less(b.row().size_min),
        a.row().size_max.less(b.row().size_max),
        a.row().decay.less(b.row().decay),
        a.row().damp.less(b.row().damp),
        b.row().mod_rate.less(a.row().mod_rate),
        a.row().diffusion.less(b.row().diffusion),
        b.row().decay.less(num(ONE)),
        a.row().size_min.less(a.row().size_max),
        b.row().size_min.less(b.row().size_max),
{
}

/// The depth moves the size across the window of the type: from its small end, never back, and
/// nothing else with it.
pub proof fn lemma_depth_enlarges<A: Fn(Op, Plain, Plain) -> Plain>(
    fpu: &Fpu<A>,
    t: ReverbType,
    low: Plain,
    high: Plain,
)
    requires
        fpu.rounds(),
        low.at_most(high),
    ensures
        ({
            let (a, b) = (reverb_macro(fpu, t, low), reverb_macro(fpu, t, high));
            &&& a.size.at_most(b.size)
            &&& t.row().size_min.at_most(a.size)
            &&& low.at_most(num(ZERO)) ==> a.size == t.row().size_min
            &&& num(ONE).at_most(low) ==> a.size == b.size
            &&& a == (ReverbVoicing { size: a.size, ..b })
            &&& a.decay == t.row().decay && a.damping == t.row().damp
            &&& a.mod_rate == t.row().mod_rate && a.mod_depth == t.row().mod_depth
            &&& a.diffusion == t.row().diffusion
        }),
{
    plain::lemma_small_values();
    let row = t.row();
    let u = plain::unit();
    let (c, d) = (low.clamp(num(ZERO), num(ONE)), high.clamp(num(ZERO), num(ONE)));
    plain::lemma_equal_scaled(c, d);
    plain::lemma_equal_scaled(num(ZERO), c);
    plain::lemma_equal_scaled(d, num(ONE));
    plain::lemma_equal_scaled(row.size_min, row.size_max);
    plain::lemma_equal_scaled(row.size_max, num(ONE));
    plain::lemma_scaled_sign(row.size_min);
    let w = fpu.sub(row.size_max, row.size_min);
    fpu.lemma_sub_side(row.size_max, row.size_min, num(ZERO));
    fpu.lemma_sub_side(row.size_max, row.size_min, num(ONE));
    plain::lemma_between_finite(num(ZERO), w, num(ONE));
    let (p, q) = (fpu.mul(w, c), fpu.mul(w, d));
    let (k, s, r) = (w.scaled(), c.scaled(), d.scaled());
    assert(0 * u <= k * s && k * s <= k * r && k * r <= u * u) by (nonlinear_arith)
        requires
            0 <= k <= u,
            0 <= s <= r <= u,
    ;
    fpu.lemma_mul_side(w, c, num(ZERO));
    fpu.lemma_mul_side(w, d, num(ONE));
    fpu.lemma_mul_order(w, c, w, d);
    plain::lemma_between_finite(num(ZERO), p, num(ONE));
    plain::lemma_between_finite(num(ZERO), q, num(ONE));
    plain::lemma_equal_scaled(p, q);
    fpu.lemma_add_order(row.size_min, p, row.size_min, q);
    fpu.lemma_add_side(row.size_min, p, row.size_min);
    if low.at_most(num(ZERO)) {
        plain::lemma_equal_scaled(c, num(ZERO));
        plain::lemma_scaled_sign(c);
        fpu.lemma_none_of(w, c);
        fpu.lemma_nothing_added(row.size_min, p);
    }
}

} // verus!
