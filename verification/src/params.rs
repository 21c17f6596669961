//! Parameters: their ids, names, ranges and how they are shown.
//!
//! Ids are laid out as the upper patch, the lower patch and the global block.
use crate::domain::Layer;
use crate::fpu::{Fpu, Op};
use crate::nums::{
    F0_001, F0_005, F0_01, F0_05, F0_1, F0_2, F0_25, F0_3, F0_35, F0_4, F0_6, F0_7, F0_8, F0_95,
    F10, F1000, F12, F18000, F20, F3, F40, F48, F5, F50, F7, F8, F8000, F96, FOUR, HALF, MINUS_F0_5,
    MINUS_F12, MINUS_F4, MINUS_F48, MINUS_F50, MINUS_F7, MINUS_F96, MINUS_ONE, ONE, TWO, ZERO,
};
use crate::plain::{self, num, Plain};
use crate::text::{self, same_text, same_text_ignoring_case};
use vstd::prelude::*;
use vstd::string::StrSliceExecFns;

verus! {

broadcast use crate::plain::group_by_rank;

/// The sets of labels that a selector parameter shows.
#[derive(Clone, Copy, Debug, PartialEq, Eq, Structural)]
pub enum Labels {
    Wave,
    FilterMode,
    Slope,
    Noise,
    Shape,
    Lfo,
    Oversample,
    ReverbType,
    Assign,
    LfoSel,
    EnvSel,
    CrossMod,
}

impl Labels {
    pub open spec fn spec_len(self) -> usize {
        match self {
            Labels::Slope | Labels::Noise | Labels::Shape => 2,
            Labels::LfoSel | Labels::EnvSel => 3,
            Labels::Wave
            | Labels::FilterMode
            | Labels::Oversample
            | Labels::ReverbType
            | Labels::Assign
            | Labels::CrossMod => 4,
            Labels::Lfo => 6,
        }
    }

    /// How many labels there are.
    #[verifier::when_used_as_spec(spec_len)]
    pub fn len(self) -> (r: usize)
        ensures
            r == self.len(),
            r >= 2,
    {
        match self {
            Labels::Slope | Labels::Noise | Labels::Shape => 2,
            Labels::LfoSel | Labels::EnvSel => 3,
            Labels::Wave
            | Labels::FilterMode
            | Labels::Oversample
            | Labels::ReverbType
            | Labels::Assign
            | Labels::CrossMod => 4,
            Labels::Lfo => 6,
        }
    }

    pub open spec fn spec_top(self) -> Plain {
        match self {
            Labels::Slope | Labels::Noise | Labels::Shape => num(ONE),
            Labels::LfoSel | Labels::EnvSel => num(TWO),
            Labels::Wave
            | Labels::FilterMode
            | Labels::Oversample
            | Labels::ReverbType
            | Labels::Assign
            | Labels::CrossMod => num(F3),
            Labels::Lfo => num(F5),
        }
    }

    /// The index of the last label, as a value.
    #[verifier::when_used_as_spec(spec_top)]
    pub fn top(self) -> (r: Plain)
        ensures
            r == self.top(),
    {
        match self {
            Labels::Slope | Labels::Noise | Labels::Shape => num(ONE),
            Labels::LfoSel | Labels::EnvSel => num(TWO),
            Labels::Wave
            | Labels::FilterMode
            | Labels::Oversample
            | Labels::ReverbType
            | Labels::Assign
            | Labels::CrossMod => num(F3),
            Labels::Lfo => num(F5),
        }
    }

    pub open spec fn spec_label(self, i: usize) -> &'static str {
        match self {
            Labels::Wave => match i {
                0 => "Sine",
                1 => "Triangle",
                2 => "Saw",
                _ => "Pulse",
            },
            Labels::FilterMode => match i {
                0 => "LP",
                1 => "HP",
                2 => "BP",
                _ => "Notch",
            },
            Labels::Slope => match i {
                0 => "12",
                _ => "24",
            },
            Labels::Noise => match i {
                0 => "White",
                _ => "Pink",
            },
            Labels::Shape => match i {
                0 => "Lin",
                _ => "Exp",
            },
            Labels::Lfo => match i {
                0 => "Sine",
                1 => "Tri",
                2 => "Saw+",
                3 => "Saw-",
                4 => "Square",
                _ => "S&H",
            },
            Labels::Oversample => match i {
                0 => "O/S OFF",
                1 => "2x",
                2 => "4x",
                _ => "8x",
            },
            Labels::ReverbType => match i {
                0 => "Plate",
                1 => "Room",
                2 => "Hall",
                _ => "Large",
            },
            Labels::Assign => match i {
                0 => "Poly",
                1 => "Unison",
                2 => "Solo",
                _ => "Twin",
            },
            Labels::LfoSel => match i {
                0 => "Off",
                1 => "LFO 1",
                _ => "LFO 2",
            },
            Labels::EnvSel => match i {
                0 => "Off",
                1 => "Env 1",
                _ => "Env 2",
            },
            Labels::CrossMod => match i {
                0 => "Off",
                1 => "Sync",
                2 => "FM",
                _ => "Ring",
            },
        }
    }

    /// Label `i`, the last one for indices past the end.
    #[verifier::when_used_as_spec(spec_label)]
    pub fn label(self, i: usize) -> (r: &'static str)
        ensures
            r == self.label(i),
    {
        match self {
            Labels::Wave => match i {
                0 => "Sine",
                1 => "Triangle",
                2 => "Saw",
                _ => "Pulse",
            },
            Labels::FilterMode => match i {
                0 => "LP",
                1 => "HP",
                2 => "BP",
                _ => "Notch",
            },
            Labels::Slope => match i {
                0 => "12",
                _ => "24",
            },
            Labels::Noise => match i {
                0 => "White",
                _ => "Pink",
            },
            Labels::Shape => match i {
                0 => "Lin",
                _ => "Exp",
            },
            Labels::Lfo => match i {
                0 => "Sine",
                1 => "Tri",
                2 => "Saw+",
                3 => "Saw-",
                4 => "Square",
                _ => "S&H",
            },
            Labels::Oversample => match i {
                0 => "O/S OFF",
                1 => "2x",
                2 => "4x",
                _ => "8x",
            },
            Labels::ReverbType => match i {
                0 => "Plate",
                1 => "Room",
                2 => "Hall",
                _ => "Large",
            },
            Labels::Assign => match i {
                0 => "Poly",
                1 => "Unison",
                2 => "Solo",
                _ => "Twin",
            },
            Labels::LfoSel => match i {
                0 => "Off",
                1 => "LFO 1",
                _ => "LFO 2",
            },
            Labels::EnvSel => match i {
                0 => "Off",
                1 => "Env 1",
                _ => "Env 2",
            },
            Labels::CrossMod => match i {
                0 => "Off",
                1 => "Sync",
                2 => "FM",
                _ => "Ring",
            },
        }
    }
}

/// How a continuous parameter maps across a fader.
#[derive(Clone, Copy, Debug, PartialEq, Eq, Structural)]
pub enum Taper {
    Linear,
    /// The midpoint reads `mid` and the top reads the maximum.
    Exp { mid: Plain },
}

/// What a parameter's value means.
#[derive(Clone, Copy, Debug)]
pub enum ParamKind {
    Float { unit: &'static str, taper: Taper },
    Int { unit: &'static str },
    Bool,
    Enum { variants: Labels },
}

/// What a parameter is called and what it can be.
#[derive(Clone, Copy, Debug)]
pub struct ParamDesc {
    pub name: &'static str,
    pub label: &'static str,
    pub min: Plain,
    pub max: Plain,
    pub default: Plain,
    pub kind: ParamKind,
}

/// The text of a value: a word, a whole number with its unit, or a number with a
/// number of decimal places and its unit.
#[derive(Clone, Copy, Debug)]
pub enum DisplayText {
    Word(&'static str),
    Whole { count: i64, unit: &'static str },
    Decimal { value: Plain, places: usize, unit: &'static str },
}

impl ParamDesc {
    /// A usable description: an interval, and a default inside it.
    pub open spec fn wf(&self) -> bool {
        &&& self.min.is_finite() && self.max.is_finite()
        &&& self.min.less(self.max)
        &&& self.min.at_most(self.default) && self.default.at_most(self.max)
        &&& self.kind matches ParamKind::Enum { variants } ==> self.min == num(ZERO) && self.max
            == variants.top()
        &&& self.kind is Bool ==> self.min == num(ZERO) && self.max == num(ONE)
    }

    pub open spec fn spec_clamp(&self, v: Plain) -> Plain {
        v.clamp(self.min, self.max)
    }

    /// The nearest value in range; a NaN stays.
    #[verifier::when_used_as_spec(spec_clamp)]
    pub fn clamp(&self, v: Plain) -> (r: Plain)
        requires
            self.wf(),
        ensures
            r == self.clamp(v),
    {
        v.clamp(self.min, self.max)
    }

    pub open spec fn spec_to_normalized<A: Fn(Op, Plain, Plain) -> Plain>(
        &self,
        fpu: &Fpu<A>,
        v: Plain,
    ) -> Plain {
        if self.min.less(self.max) {
            fpu.div(fpu.sub(v, self.min), fpu.sub(self.max, self.min)).clamp(num(ZERO), num(ONE))
        } else {
            num(ZERO)
        }
    }

    /// The place of `v` in the range, linearly, in `[0, 1]`.
    #[verifier::when_used_as_spec(spec_to_normalized)]
    pub fn to_normalized<A: Fn(Op, Plain, Plain) -> Plain>(
        &self,
        fpu: &Fpu<A>,
        v: Plain,
    ) -> (r: Plain)
        requires
            fpu.valid(),
        ensures
            r == self.to_normalized(fpu, v),
    {
        if self.min.less(self.max) {
            fpu.div(fpu.sub(v, self.min), fpu.sub(self.max, self.min)).clamp(num(ZERO), num(ONE))
        } else {
            num(ZERO)
        }
    }

    pub open spec fn spec_from_normalized<A: Fn(Op, Plain, Plain) -> Plain>(
        &self,
        fpu: &Fpu<A>,
        n: Plain,
    ) -> Plain {
        fpu.add(self.min, fpu.mul(n.clamp(num(ZERO), num(ONE)), fpu.sub(self.max, self.min)))
    }

    /// The value at a place in the range.
    #[verifier::when_used_as_spec(spec_from_normalized)]
    pub fn from_normalized<A: Fn(Op, Plain, Plain) -> Plain>(
        &self,
        fpu: &Fpu<A>,
        n: Plain,
    ) -> (r: Plain)
        requires
            fpu.valid(),
        ensures
            r == self.from_normalized(fpu, n),
    {
        fpu.add(self.min, fpu.mul(n.clamp(num(ZERO), num(ONE)), fpu.sub(self.max, self.min)))
    }

    /// The index of the first variant with this label, whatever the case of its
    /// letters.
    pub fn variant_index(&self, label: &str) -> (r: Option<usize>)
        ensures
            match (self.kind, r) {
                (ParamKind::Enum { variants }, Some(i)) => {
                    &&& i < variants.len()
                    &&& text::same_but_case(variants.label(i)@, label@)
                    &&& forall|j: usize|
                        j < i ==> !text::same_but_case(#[trigger] variants.label(j)@, label@)
                },
                (ParamKind::Enum { variants }, None) => forall|j: usize|
                    j < variants.len() ==> !text::same_but_case(
                        #[trigger] variants.label(j)@,
                        label@,
                    ),
                (_, found) => found is None,
            },
    {
        match self.kind {
            ParamKind::Enum { variants } => {
                let n: usize = variants.len();
                let mut i: usize = 0;
                while i < n
                    invariant
                        n == variants.len(),
                        i <= n,
                        self.kind == (ParamKind::Enum { variants }),
                        forall|j: usize|
                            j < i ==> !text::same_but_case(
                                #[trigger] variants.label(j)@,
                                label@,
                            ),
                    decreases n - i,
                {
                    if same_text_ignoring_case(variants.label(i), label) {
                        return Some(i);
                    }
                    i = i + 1;
                }
                None
            },
            _ => None,
        }
    }

    pub open spec fn spec_taper(&self) -> Taper {
        match self.kind {
            ParamKind::Float { taper, .. } => taper,
            _ => Taper::Linear,
        }
    }

    /// How the parameter maps across a fader.
    #[verifier::when_used_as_spec(spec_taper)]
    pub fn taper(&self) -> (r: Taper)
        ensures
            r == self.taper(),
    {
        match self.kind {
            ParamKind::Float { taper, .. } => taper,
            _ => Taper::Linear,
        }
    }

    pub open spec fn spec_exp_coeffs<A: Fn(Op, Plain, Plain) -> Plain>(
        &self,
        fpu: &Fpu<A>,
    ) -> Option<(Plain, Plain)> {
        match self.taper() {
            Taper::Exp { mid } => {
                let r = fpu.sub(fpu.div(self.max, mid), num(ONE));
                Some((fpu.div(mid, fpu.sub(r, num(ONE))), fpu.mul(num(TWO), fpu.ln(r))))
            },
            Taper::Linear => None,
        }
    }

    /// The scale and the exponent of an exponential taper.
    #[verifier::when_used_as_spec(spec_exp_coeffs)]
    pub fn exp_coeffs<A: Fn(Op, Plain, Plain) -> Plain>(
        &self,
        fpu: &Fpu<A>,
    ) -> (r: Option<(Plain, Plain)>)
        requires
            fpu.valid(),
        ensures
            r == self.exp_coeffs(fpu),
    {
        match self.taper() {
            Taper::Exp { mid } => {
                let r = fpu.sub(fpu.div(self.max, mid), num(ONE));
                Some((fpu.div(mid, fpu.sub(r, num(ONE))), fpu.mul(num(TWO), fpu.ln(r))))
            },
            Taper::Linear => None,
        }
    }

    pub open spec fn spec_to_fader<A: Fn(Op, Plain, Plain) -> Plain>(
        &self,
        fpu: &Fpu<A>,
        value: Plain,
    ) -> Plain {
        match self.exp_coeffs(fpu) {
            Some((a, k)) => fpu.div(
                fpu.ln(fpu.add(fpu.div(value, a), num(ONE))),
                k,
            ).clamp(num(ZERO), num(ONE)),
            None => self.to_normalized(fpu, value),
        }
    }

    /// The place of a value on the fader, in `[0, 1]`.
    #[verifier::when_used_as_spec(spec_to_fader)]
    pub fn to_fader<A: Fn(Op, Plain, Plain) -> Plain>(
        &self,
        fpu: &Fpu<A>,
        value: Plain,
    ) -> (r: Plain)
        requires
            fpu.valid(),
        ensures
            r == self.to_fader(fpu, value),
    {
        match self.exp_coeffs(fpu) {
            Some((a, k)) => fpu.div(
                fpu.ln(fpu.add(fpu.div(value, a), num(ONE))),
                k,
            ).clamp(num(ZERO), num(ONE)),
            None => self.to_normalized(fpu, value),
        }
    }

    pub open spec fn spec_from_fader<A: Fn(Op, Plain, Plain) -> Plain>(
        &self,
        fpu: &Fpu<A>,
        n: Plain,
    ) -> Plain {
        match self.exp_coeffs(fpu) {
            Some((a, k)) => fpu.mul(
                a,
                fpu.sub(fpu.exp(fpu.mul(k, n.clamp(num(ZERO), num(ONE)))), num(ONE)),
            ),
            None => self.from_normalized(fpu, n),
        }
    }

    /// The value at a place on the fader.
    #[verifier::when_used_as_spec(spec_from_fader)]
    pub fn from_fader<A: Fn(Op, Plain, Plain) -> Plain>(&self, fpu: &Fpu<A>, n: Plain) -> (r: Plain)
        requires
            fpu.valid(),
        ensures
            r == self.from_fader(fpu, n),
    {
        match self.exp_coeffs(fpu) {
            Some((a, k)) => fpu.mul(
                a,
                fpu.sub(fpu.exp(fpu.mul(k, n.clamp(num(ZERO), num(ONE)))), num(ONE)),
            ),
            None => self.from_normalized(fpu, n),
        }
    }

    pub open spec fn spec_display(&self, value: Plain) -> DisplayText {
        match self.kind {
            ParamKind::Enum { variants } => DisplayText::Word(
                variants.label(value.round_index()),
            ),
            ParamKind::Bool => DisplayText::Word(
                if num(HALF).at_most(value) {
                    "On"
                } else {
                    "Off"
                },
            ),
            ParamKind::Int { unit } => DisplayText::Whole { count: value.to_int(true), unit },
            ParamKind::Float { unit, .. } => DisplayText::Decimal {
                value,
                places: if unit@.len() == 0 {
                    3
                } else {
                    2
                },
                unit,
            },
        }
    }

    /// How a value is shown: a selector by its label, a switch as on or off, a count
    /// as a whole number, and anything else to three places, or two before a unit.
    #[verifier::when_used_as_spec(spec_display)]
    pub fn display(&self, value: Plain) -> (r: DisplayText)
        ensures
            r == self.display(value),
    {
        match self.kind {
            ParamKind::Enum { variants } => DisplayText::Word(
                variants.label(value.round_index()),
            ),
            ParamKind::Bool => DisplayText::Word(
                if num(HALF).at_most(value) {
                    "On"
                } else {
                    "Off"
                },
            ),
            ParamKind::Int { unit } => DisplayText::Whole { count: value.to_int(true), unit },
            ParamKind::Float { unit, .. } => DisplayText::Decimal {
                value,
                places: if unit.unicode_len() == 0 {
                    3
                } else {
                    2
                },
                unit,
            },
        }
    }

    /// A clamped value is in range, unless it is a NaN, and clamping it again
    /// changes nothing. A value in range stays as it is.
    pub proof fn lemma_clamp_in_range(&self, v: Plain)
        requires
            self.wf(),
        ensures
            self.in_range(self.clamp(v)),
            self.clamp(self.clamp(v)) == self.clamp(v),
            self.in_range(v) ==> self.clamp(v) == v,
    {
    }

    /// A value that can be stored: in range, or a NaN.
    pub open spec fn in_range(&self, v: Plain) -> bool {
        v.is_nan() || (self.min.at_most(v) && v.at_most(self.max))
    }

    /// However it is normalized, a value that is a number lands in `[0, 1]`, unless
    /// the arithmetic makes a NaN of it.
    pub proof fn lemma_normalized_in_unit<A: Fn(Op, Plain, Plain) -> Plain>(
        &self,
        fpu: &Fpu<A>,
        v: Plain,
    )
        ensures
            ({
                let n = self.to_normalized(fpu, v);
                n.is_nan() || (num(ZERO).at_most(n) && n.at_most(num(ONE)))
            }),
    {
    }

    /// The places of a range run from its bottom to its top and back: its ends lie at nothing and
    /// at one, a higher place is a higher value and a higher value lies no lower, wherever the
    /// width of the range is a number.
    pub proof fn lemma_places_of_a_range<A: Fn(Op, Plain, Plain) -> Plain>(
        &self,
        fpu: &Fpu<A>,
        width: Plain,
        low: Plain,
        high: Plain,
    )
        requires
            fpu.rounds(),
            self.min.is_number() && self.max.is_number() && width.is_number(),
            width.scaled() == self.max.scaled() - self.min.scaled(),
            width.scaled() > 0,
            low.at_most(high),
        ensures
            self.from_normalized(fpu, num(ZERO)).equals(self.min),
            self.from_normalized(fpu, num(ONE)).equals(self.max),
            self.to_normalized(fpu, self.min).is_zero(),
            self.to_normalized(fpu, self.max).equals(num(ONE)),
            self.from_normalized(fpu, low).at_most(self.from_normalized(fpu, high)),
            self.min.at_most(low) && high.at_most(self.max) ==> self.to_normalized(
                fpu,
                low,
            ).at_most(self.to_normalized(fpu, high)),
    {
        plain::lemma_small_values();
        let u = plain::unit();
        let w = fpu.sub(self.max, self.min);
        fpu.lemma_sub_side(self.max, self.min, width);
        plain::lemma_equal_scaled(w, width);
        plain::lemma_equal_scaled(self.min, self.max);
        plain::lemma_scaled_sign(w);
        fpu.lemma_none_of(w, num(ZERO));
        fpu.lemma_nothing_added(self.min, fpu.mul(num(ZERO), w));
        let k = width.scaled();
        assert(u * k == k * u && 0 * k == 0 && 0 * u == 0) by (nonlinear_arith);
        fpu.lemma_mul_side(num(ONE), w, width);
        plain::lemma_equal_scaled(fpu.mul(num(ONE), w), width);
        fpu.lemma_add_side(self.min, fpu.mul(num(ONE), w), self.max);
        fpu.lemma_sub_side(self.min, self.min, num(ZERO));
        let none = fpu.sub(self.min, self.min);
        plain::lemma_zero_scaled(none);
        fpu.lemma_div_side(none, w, num(ZERO));
        fpu.lemma_div_side(w, w, num(ONE));
        let (a, b) = (low.clamp(num(ZERO), num(ONE)), high.clamp(num(ZERO), num(ONE)));
        plain::lemma_equal_scaled(num(ZERO), a);
        plain::lemma_equal_scaled(b, num(ONE));
        plain::lemma_equal_scaled(a, b);
        fpu.lemma_scaling_rises(a, b, w);
        let (x, y) = (fpu.mul(a, w), fpu.mul(b, w));
        assert(u * k <= k * u);
        fpu.lemma_mul_within(a, w, u, k, width);
        fpu.lemma_mul_within(b, w, u, k, width);
        plain::lemma_equal_scaled(x, y);
        fpu.lemma_add_order(self.min, x, self.min, y);
        if self.min.at_most(low) && high.at_most(self.max) {
            plain::lemma_between_finite(self.min, low, self.max);
            plain::lemma_between_finite(self.min, high, self.max);
            plain::lemma_equal_scaled(low, high);
            fpu.lemma_sub_order(low, self.min, high, self.min);
            let (c, d) = (fpu.sub(low, self.min), fpu.sub(high, self.min));
            fpu.lemma_sub_side(low, self.min, num(ZERO));
            fpu.lemma_sub_side(low, self.min, width);
            fpu.lemma_sub_side(high, self.min, num(ZERO));
            fpu.lemma_sub_side(high, self.min, width);
            plain::lemma_between_finite(num(ZERO), c, width);
            plain::lemma_between_finite(num(ZERO), d, width);
            plain::lemma_equal_scaled(c, d);
            let (e, f) = (c.scaled(), d.scaled());
            assert(e * k <= f * k && 0 <= e * u && 0 <= f * u && e * u <= u * k && f * u <= u * k)
                by (nonlinear_arith)
                requires
                    0 <= e <= f <= k,
                    u > 0,
            ;
            fpu.lemma_div_order(c, w, d, w);
            fpu.lemma_div_side(c, w, num(ZERO));
            fpu.lemma_div_side(d, w, num(ZERO));
            fpu.lemma_div_side(c, w, num(ONE));
            fpu.lemma_div_side(d, w, num(ONE));
        }
    }

    /// The fader has ends: a value lands on it between zero and one, unless the arithmetic
    /// makes a NaN of it, and a place beyond an end gives the value at that end.
    pub proof fn lemma_fader_has_ends<A: Fn(Op, Plain, Plain) -> Plain>(
        &self,
        fpu: &Fpu<A>,
        v: Plain,
        n: Plain,
    )
        ensures
            ({
                let place = self.to_fader(fpu, v);
                place.is_nan() || (num(ZERO).at_most(place) && place.at_most(num(ONE)))
            }),
            n.less(num(ZERO)) ==> self.from_fader(fpu, n) == self.from_fader(fpu, num(ZERO)),
            num(ONE).less(n) ==> self.from_fader(fpu, n) == self.from_fader(fpu, num(ONE)),
    {
    }

    /// The bottom of the fader is zero for an exponential taper and the bottom of the range for a
    /// linear one, and that value lies at the bottom of the fader, where the arithmetic unit is
    /// exact at zero and one.
    pub proof fn lemma_fader_bottom<A: Fn(Op, Plain, Plain) -> Plain>(&self, fpu: &Fpu<A>)
        requires
            match self.exp_coeffs(fpu) {
                Some((a, k)) => {
                    &&& fpu.mul(k, num(ZERO)) == num(ZERO)
                    &&& fpu.exp(num(ZERO)) == num(ONE)
                    &&& fpu.sub(num(ONE), num(ONE)) == num(ZERO)
                    &&& fpu.mul(a, num(ZERO)) == num(ZERO)
                    &&& fpu.div(num(ZERO), a) == num(ZERO)
                    &&& fpu.add(num(ZERO), num(ONE)) == num(ONE)
                    &&& fpu.ln(num(ONE)) == num(ZERO)
                    &&& fpu.div(num(ZERO), k) == num(ZERO)
                },
                None => {
                    let span = fpu.sub(self.max, self.min);
                    &&& fpu.mul(num(ZERO), span) == num(ZERO)
                    &&& fpu.add(self.min, num(ZERO)) == self.min
                    &&& fpu.sub(self.min, self.min) == num(ZERO)
                    &&& fpu.div(num(ZERO), span) == num(ZERO)
                },
            },
        ensures
            ({
                let bottom = if self.exp_coeffs(fpu) is Some {
                    num(ZERO)
                } else {
                    self.min
                };
                &&& self.from_fader(fpu, num(ZERO)) == bottom
                &&& self.to_fader(fpu, bottom) == num(ZERO)
            }),
    {
    }

    /// The middle of an exponential fader is its `mid`, and its top is the top of the range,
    /// where the arithmetic unit does not round on the way: exponential and logarithm undo each
    /// other, a quotient times its divisor is the dividend, and `(r - 1)(r + 1)` is `r * r - 1`.
    pub proof fn lemma_fader_middle_and_top<A: Fn(Op, Plain, Plain) -> Plain>(
        &self,
        fpu: &Fpu<A>,
        mid: Plain,
    )
        requires
            self.taper() == (Taper::Exp { mid }),
            ({
                let (one, two) = (num(ONE), num(TWO));
                let ratio = fpu.div(self.max, mid);
                let r = fpu.sub(ratio, one);
                let less = fpu.sub(r, one);
                let k = fpu.mul(two, fpu.ln(r));
                let square = fpu.mul(r, r);
                &&& fpu.mul(k, num(HALF)) == fpu.ln(r) && fpu.mul(k, one) == k
                &&& fpu.exp(fpu.ln(r)) == r && fpu.exp(k) == square
                &&& fpu.sub(square, one) == fpu.mul(less, ratio)
                &&& fpu.mul(fpu.div(mid, less), less) == mid
                &&& fpu.mul(fpu.div(mid, less), fpu.mul(less, ratio)) == fpu.mul(mid, ratio)
                &&& fpu.mul(mid, ratio) == self.max
            }),
        ensures
            self.from_fader(fpu, num(HALF)) == mid,
            self.from_fader(fpu, num(ONE)) == self.max,
    {
    }

    /// The place of the value at a place on an exponential fader is that place, where the
    /// arithmetic unit does not round on the way.
    pub proof fn lemma_fader_inverts<A: Fn(Op, Plain, Plain) -> Plain>(
        &self,
        fpu: &Fpu<A>,
        n: Plain,
    )
        requires
            num(ZERO).at_most(n) && n.at_most(num(ONE)),
            match self.exp_coeffs(fpu) {
                Some((a, k)) => {
                    let e = fpu.exp(fpu.mul(k, n));
                    let less = fpu.sub(e, num(ONE));
                    &&& fpu.div(fpu.mul(a, less), a) == less
                    &&& fpu.add(less, num(ONE)) == e
                    &&& fpu.ln(e) == fpu.mul(k, n)
                    &&& fpu.div(fpu.mul(k, n), k) == n
                },
                None => {
                    let span = fpu.sub(self.max, self.min);
                    let up = fpu.mul(n, span);
                    &&& self.min.less(self.max)
                    &&& fpu.sub(fpu.add(self.min, up), self.min) == up
                    &&& fpu.div(up, span) == n
                },
            },
        ensures
            self.to_fader(fpu, self.from_fader(fpu, n)) == n,
    {
    }

    /// The value rises with the place on the fader, where the arithmetic unit keeps the order of
    /// what it works on.
    pub proof fn lemma_fader_rises<A: Fn(Op, Plain, Plain) -> Plain>(
        &self,
        fpu: &Fpu<A>,
        m: Plain,
        n: Plain,
    )
        requires
            m.at_most(n),
            ({
                let (low, high) = (
                    m.clamp(num(ZERO), num(ONE)),
                    n.clamp(num(ZERO), num(ONE)),
                );
                match self.exp_coeffs(fpu) {
                    Some((a, k)) => {
                        let (x, y) = (fpu.mul(k, low), fpu.mul(k, high));
                        let (e, f) = (fpu.exp(x), fpu.exp(y));
                        let (u, v) = (fpu.sub(e, num(ONE)), fpu.sub(f, num(ONE)));
                        &&& low.at_most(high) ==> x.at_most(y)
                        &&& x.at_most(y) ==> e.at_most(f)
                        &&& e.at_most(f) ==> u.at_most(v)
                        &&& u.at_most(v) ==> fpu.mul(a, u).at_most(fpu.mul(a, v))
                    },
                    None => {
                        let span = fpu.sub(self.max, self.min);
                        let (x, y) = (fpu.mul(low, span), fpu.mul(high, span));
                        &&& low.at_most(high) ==> x.at_most(y)
                        &&& x.at_most(y) ==> fpu.add(self.min, x).at_most(fpu.add(self.min, y))
                    },
                }
            }),
        ensures
            self.from_fader(fpu, m).at_most(self.from_fader(fpu, n)),
    {
    }
}

pub open spec fn spec_float_param(
    name: &'static str,
    label: &'static str,
    min: Plain,
    max: Plain,
    default: Plain,
    unit: &'static str,
    taper: Taper,
) -> ParamDesc {
    ParamDesc { name, label, min, max, default, kind: ParamKind::Float { unit, taper } }
}

/// A continuous parameter.
#[verifier::when_used_as_spec(spec_float_param)]
pub fn float_param(
    name: &'static str,
    label: &'static str,
    min: Plain,
    max: Plain,
    default: Plain,
    unit: &'static str,
    taper: Taper,
) -> (r: ParamDesc)
    ensures
        r == float_param(name, label, min, max, default, unit, taper),
{
    ParamDesc { name, label, min, max, default, kind: ParamKind::Float { unit, taper } }
}

pub open spec fn spec_enum_param(
    name: &'static str,
    label: &'static str,
    variants: Labels,
    default: Plain,
) -> ParamDesc {
    ParamDesc {
        name,
        label,
        min: num(ZERO),
        max: variants.top(),
        default,
        kind: ParamKind::Enum { variants },
    }
}

/// A selector.
#[verifier::when_used_as_spec(spec_enum_param)]
pub fn enum_param(
    name: &'static str,
    label: &'static str,
    variants: Labels,
    default: Plain,
) -> (r: ParamDesc)
    ensures
        r == enum_param(name, label, variants, default),
{
    ParamDesc {
        name,
        label,
        min: num(ZERO),
        max: variants.top(),
        default,
        kind: ParamKind::Enum { variants },
    }
}

pub open spec fn spec_bool_param(
    name: &'static str,
    label: &'static str,
    default: Plain,
) -> ParamDesc {
    ParamDesc { name, label, min: num(ZERO), max: num(ONE), default, kind: ParamKind::Bool }
}

/// A switch.
#[verifier::when_used_as_spec(spec_bool_param)]
pub fn bool_param(name: &'static str, label: &'static str, default: Plain) -> (r: ParamDesc)
    ensures
        r == bool_param(name, label, default),
{
    ParamDesc { name, label, min: num(ZERO), max: num(ONE), default, kind: ParamKind::Bool }
}

pub open spec fn spec_int_param(
    name: &'static str,
    label: &'static str,
    min: Plain,
    max: Plain,
    default: Plain,
    unit: &'static str,
) -> ParamDesc {
    ParamDesc { name, label, min, max, default, kind: ParamKind::Int { unit } }
}

/// A whole number.
#[verifier::when_used_as_spec(spec_int_param)]
pub fn int_param(
    name: &'static str,
    label: &'static str,
    min: Plain,
    max: Plain,
    default: Plain,
    unit: &'static str,
) -> (r: ParamDesc)
    ensures
        r == int_param(name, label, min, max, default, unit),
{
    ParamDesc { name, label, min, max, default, kind: ParamKind::Int { unit } }
}

/// A number that tells the names of the parameters apart: their length and a few of
/// their characters.
spec fn name_code(s: Seq<char>) -> int {
    s.len() + 64 * (code_at(s, 0) + 128 * (code_at(s, 3) + 128 * (code_at(s, 6) + 128 * code_at(
        s,
        10,
    ))))
}

spec fn code_at(s: Seq<char>, i: int) -> int {
    if i < s.len() {
        s[i] as int
    } else {
        0
    }
}

/// Per-patch parameters.
#[derive(Clone, Copy, Debug, PartialEq, Eq, Structural)]
pub enum PatchParam {
    Osc1Wave,
    Osc1Coarse,
    Osc1Fine,
    Osc1Octave,
    Osc1Level,
    Osc1PulseWidth,
    Osc2Wave,
    Osc2Coarse,
    Osc2Fine,
    Osc2Octave,
    Osc2Level,
    Osc2PulseWidth,
    SubLevel,
    CrossModType,
    CrossModAmount,
    NoiseLevel,
    NoiseColor,
    Cutoff,
    Resonance,
    Drive,
    FilterMode,
    FilterSlope,
    HpfCutoff,
    FilterKeyTrack,
    Env1Attack,
    Env1Decay,
    Env1Sustain,
    Env1Release,
    Env1Shape,
    Env2Attack,
    Env2Decay,
    Env2Sustain,
    Env2Release,
    Env2Shape,
    AmpLfoSrc,
    AmpLfoDepth,
    AmpEnvBypass,
    LfoShape,
    LfoRate,
    LfoSync,
    Lfo1DelayTime,
    Lfo1Fade,
    Lfo1FreeRun,
    PitchLfoSrc,
    PitchLfoDepth,
    PitchLfoModOnly,
    PitchEnvSrc,
    PitchEnvDepth,
    PitchEnvModOnly,
    PitchWheelDepth,
    PwmLfoSrc,
    PwmLfoDepth,
    PwmEnvSrc,
    PwmEnvDepth,
    CutoffLfo1Depth,
    CutoffLfo2Depth,
    CutoffEnvDepth,
    VelCutoffDepth,
    ModWheelPwm,
    ModWheelCutoff,
    ModWheelReso,
    ModWheelCrossModSweep,
    AssignMode,
    Legato,
    UnisonDetune,
    PortamentoTime,
}

impl PatchParam {
    pub const COUNT: usize = 66;

    pub open spec fn spec_index(self) -> usize {
        match self {
            PatchParam::Osc1Wave => 0,
            PatchParam::Osc1Coarse => 1,
            PatchParam::Osc1Fine => 2,
            PatchParam::Osc1Octave => 3,
            PatchParam::Osc1Level => 4,
            PatchParam::Osc1PulseWidth => 5,
            PatchParam::Osc2Wave => 6,
            PatchParam::Osc2Coarse => 7,
            PatchParam::Osc2Fine => 8,
            PatchParam::Osc2Octave => 9,
            PatchParam::Osc2Level => 10,
            PatchParam::Osc2PulseWidth => 11,
            PatchParam::SubLevel => 12,
            PatchParam::CrossModType => 13,
            PatchParam::CrossModAmount => 14,
            PatchParam::NoiseLevel => 15,
            PatchParam::NoiseColor => 16,
            PatchParam::Cutoff => 17,
            PatchParam::Resonance => 18,
            PatchParam::Drive => 19,
            PatchParam::FilterMode => 20,
            PatchParam::FilterSlope => 21,
            PatchParam::HpfCutoff => 22,
            PatchParam::FilterKeyTrack => 23,
            PatchParam::Env1Attack => 24,
            PatchParam::Env1Decay => 25,
            PatchParam::Env1Sustain => 26,
            PatchParam::Env1Release => 27,
            PatchParam::Env1Shape => 28,
            PatchParam::Env2Attack => 29,
            PatchParam::Env2Decay => 30,
            PatchParam::Env2Sustain => 31,
            PatchParam::Env2Release => 32,
            PatchParam::Env2Shape => 33,
            PatchParam::AmpLfoSrc => 34,
            PatchParam::AmpLfoDepth => 35,
            PatchParam::AmpEnvBypass => 36,
            PatchParam::LfoShape => 37,
            PatchParam::LfoRate => 38,
            PatchParam::LfoSync => 39,
            PatchParam::Lfo1DelayTime => 40,
            PatchParam::Lfo1Fade => 41,
            PatchParam::Lfo1FreeRun => 42,
            PatchParam::PitchLfoSrc => 43,
            PatchParam::PitchLfoDepth => 44,
            PatchParam::PitchLfoModOnly => 45,
            PatchParam::PitchEnvSrc => 46,
            PatchParam::PitchEnvDepth => 47,
            PatchParam::PitchEnvModOnly => 48,
            PatchParam::PitchWheelDepth => 49,
            PatchParam::PwmLfoSrc => 50,
            PatchParam::PwmLfoDepth => 51,
            PatchParam::PwmEnvSrc => 52,
            PatchParam::PwmEnvDepth => 53,
            PatchParam::CutoffLfo1Depth => 54,
            PatchParam::CutoffLfo2Depth => 55,
            PatchParam::CutoffEnvDepth => 56,
            PatchParam::VelCutoffDepth => 57,
            PatchParam::ModWheelPwm => 58,
            PatchParam::ModWheelCutoff => 59,
            PatchParam::ModWheelReso => 60,
            PatchParam::ModWheelCrossModSweep => 61,
            PatchParam::AssignMode => 62,
            PatchParam::Legato => 63,
            PatchParam::UnisonDetune => 64,
            PatchParam::PortamentoTime => 65,
        }
    }

    /// The place of the parameter in its block.
    #[verifier::when_used_as_spec(spec_index)]
    pub fn index(self) -> (r: usize)
        ensures
            r == self.index(),
            r < PatchParam::COUNT,
    {
        match self {
            PatchParam::Osc1Wave => 0,
            PatchParam::Osc1Coarse => 1,
            PatchParam::Osc1Fine => 2,
            PatchParam::Osc1Octave => 3,
            PatchParam::Osc1Level => 4,
            PatchParam::Osc1PulseWidth => 5,
            PatchParam::Osc2Wave => 6,
            PatchParam::Osc2Coarse => 7,
            PatchParam::Osc2Fine => 8,
            PatchParam::Osc2Octave => 9,
            PatchParam::Osc2Level => 10,
            PatchParam::Osc2PulseWidth => 11,
            PatchParam::SubLevel => 12,
            PatchParam::CrossModType => 13,
            PatchParam::CrossModAmount => 14,
            PatchParam::NoiseLevel => 15,
            PatchParam::NoiseColor => 16,
            PatchParam::Cutoff => 17,
            PatchParam::Resonance => 18,
            PatchParam::Drive => 19,
            PatchParam::FilterMode => 20,
            PatchParam::FilterSlope => 21,
            PatchParam::HpfCutoff => 22,
            PatchParam::FilterKeyTrack => 23,
            PatchParam::Env1Attack => 24,
            PatchParam::Env1Decay => 25,
            PatchParam::Env1Sustain => 26,
            PatchParam::Env1Release => 27,
            PatchParam::Env1Shape => 28,
            PatchParam::Env2Attack => 29,
            PatchParam::Env2Decay => 30,
            PatchParam::Env2Sustain => 31,
            PatchParam::Env2Release => 32,
            PatchParam::Env2Shape => 33,
            PatchParam::AmpLfoSrc => 34,
            PatchParam::AmpLfoDepth => 35,
            PatchParam::AmpEnvBypass => 36,
            PatchParam::LfoShape => 37,
            PatchParam::LfoRate => 38,
            PatchParam::LfoSync => 39,
            PatchParam::Lfo1DelayTime => 40,
            PatchParam::Lfo1Fade => 41,
            PatchParam::Lfo1FreeRun => 42,
            PatchParam::PitchLfoSrc => 43,
            PatchParam::PitchLfoDepth => 44,
            PatchParam::PitchLfoModOnly => 45,
            PatchParam::PitchEnvSrc => 46,
            PatchParam::PitchEnvDepth => 47,
            PatchParam::PitchEnvModOnly => 48,
            PatchParam::PitchWheelDepth => 49,
            PatchParam::PwmLfoSrc => 50,
            PatchParam::PwmLfoDepth => 51,
            PatchParam::PwmEnvSrc => 52,
            PatchParam::PwmEnvDepth => 53,
            PatchParam::CutoffLfo1Depth => 54,
            PatchParam::CutoffLfo2Depth => 55,
            PatchParam::CutoffEnvDepth => 56,
            PatchParam::VelCutoffDepth => 57,
            PatchParam::ModWheelPwm => 58,
            PatchParam::ModWheelCutoff => 59,
            PatchParam::ModWheelReso => 60,
            PatchParam::ModWheelCrossModSweep => 61,
            PatchParam::AssignMode => 62,
            PatchParam::Legato => 63,
            PatchParam::UnisonDetune => 64,
            PatchParam::PortamentoTime => 65,
        }
    }

    pub open spec fn spec_from_index(i: usize) -> Option<PatchParam> {
        match i {
            0 => Some(PatchParam::Osc1Wave),
            1 => Some(PatchParam::Osc1Coarse),
            2 => Some(PatchParam::Osc1Fine),
            3 => Some(PatchParam::Osc1Octave),
            4 => Some(PatchParam::Osc1Level),
            5 => Some(PatchParam::Osc1PulseWidth),
            6 => Some(PatchParam::Osc2Wave),
            7 => Some(PatchParam::Osc2Coarse),
            8 => Some(PatchParam::Osc2Fine),
            9 => Some(PatchParam::Osc2Octave),
            10 => Some(PatchParam::Osc2Level),
            11 => Some(PatchParam::Osc2PulseWidth),
            12 => Some(PatchParam::SubLevel),
            13 => Some(PatchParam::CrossModType),
            14 => Some(PatchParam::CrossModAmount),
            15 => Some(PatchParam::NoiseLevel),
            16 => Some(PatchParam::NoiseColor),
            17 => Some(PatchParam::Cutoff),
            18 => Some(PatchParam::Resonance),
            19 => Some(PatchParam::Drive),
            20 => Some(PatchParam::FilterMode),
            21 => Some(PatchParam::FilterSlope),
            22 => Some(PatchParam::HpfCutoff),
            23 => Some(PatchParam::FilterKeyTrack),
            24 => Some(PatchParam::Env1Attack),
            25 => Some(PatchParam::Env1Decay),
            26 => Some(PatchParam::Env1Sustain),
            27 => Some(PatchParam::Env1Release),
            28 => Some(PatchParam::Env1Shape),
            29 => Some(PatchParam::Env2Attack),
            30 => Some(PatchParam::Env2Decay),
            31 => Some(PatchParam::Env2Sustain),
            32 => Some(PatchParam::Env2Release),
            33 => Some(PatchParam::Env2Shape),
            34 => Some(PatchParam::AmpLfoSrc),
            35 => Some(PatchParam::AmpLfoDepth),
            36 => Some(PatchParam::AmpEnvBypass),
            37 => Some(PatchParam::LfoShape),
            38 => Some(PatchParam::LfoRate),
            39 => Some(PatchParam::LfoSync),
            40 => Some(PatchParam::Lfo1DelayTime),
            41 => Some(PatchParam::Lfo1Fade),
            42 => Some(PatchParam::Lfo1FreeRun),
            43 => Some(PatchParam::PitchLfoSrc),
            44 => Some(PatchParam::PitchLfoDepth),
            45 => Some(PatchParam::PitchLfoModOnly),
            46 => Some(PatchParam::PitchEnvSrc),
            47 => Some(PatchParam::PitchEnvDepth),
            48 => Some(PatchParam::PitchEnvModOnly),
            49 => Some(PatchParam::PitchWheelDepth),
            50 => Some(PatchParam::PwmLfoSrc),
            51 => Some(PatchParam::PwmLfoDepth),
            52 => Some(PatchParam::PwmEnvSrc),
            53 => Some(PatchParam::PwmEnvDepth),
            54 => Some(PatchParam::CutoffLfo1Depth),
            55 => Some(PatchParam::CutoffLfo2Depth),
            56 => Some(PatchParam::CutoffEnvDepth),
            57 => Some(PatchParam::VelCutoffDepth),
            58 => Some(PatchParam::ModWheelPwm),
            59 => Some(PatchParam::ModWheelCutoff),
            60 => Some(PatchParam::ModWheelReso),
            61 => Some(PatchParam::ModWheelCrossModSweep),
            62 => Some(PatchParam::AssignMode),
            63 => Some(PatchParam::Legato),
            64 => Some(PatchParam::UnisonDetune),
            65 => Some(PatchParam::PortamentoTime),
            _ => None,
        }
    }

    /// The parameter at a place in the block.
    #[verifier::when_used_as_spec(spec_from_index)]
    pub fn from_index(i: usize) -> (r: Option<PatchParam>)
        ensures
            r == PatchParam::from_index(i),
    {
        match i {
            0 => Some(PatchParam::Osc1Wave),
            1 => Some(PatchParam::Osc1Coarse),
            2 => Some(PatchParam::Osc1Fine),
            3 => Some(PatchParam::Osc1Octave),
            4 => Some(PatchParam::Osc1Level),
            5 => Some(PatchParam::Osc1PulseWidth),
            6 => Some(PatchParam::Osc2Wave),
            7 => Some(PatchParam::Osc2Coarse),
            8 => Some(PatchParam::Osc2Fine),
            9 => Some(PatchParam::Osc2Octave),
            10 => Some(PatchParam::Osc2Level),
            11 => Some(PatchParam::Osc2PulseWidth),
            12 => Some(PatchParam::SubLevel),
            13 => Some(PatchParam::CrossModType),
            14 => Some(PatchParam::CrossModAmount),
            15 => Some(PatchParam::NoiseLevel),
            16 => Some(PatchParam::NoiseColor),
            17 => Some(PatchParam::Cutoff),
            18 => Some(PatchParam::Resonance),
            19 => Some(PatchParam::Drive),
            20 => Some(PatchParam::FilterMode),
            21 => Some(PatchParam::FilterSlope),
            22 => Some(PatchParam::HpfCutoff),
            23 => Some(PatchParam::FilterKeyTrack),
            24 => Some(PatchParam::Env1Attack),
            25 => Some(PatchParam::Env1Decay),
            26 => Some(PatchParam::Env1Sustain),
            27 => Some(PatchParam::Env1Release),
            28 => Some(PatchParam::Env1Shape),
            29 => Some(PatchParam::Env2Attack),
            30 => Some(PatchParam::Env2Decay),
            31 => Some(PatchParam::Env2Sustain),
            32 => Some(PatchParam::Env2Release),
            33 => Some(PatchParam::Env2Shape),
            34 => Some(PatchParam::AmpLfoSrc),
            35 => Some(PatchParam::AmpLfoDepth),
            36 => Some(PatchParam::AmpEnvBypass),
            37 => Some(PatchParam::LfoShape),
            38 => Some(PatchParam::LfoRate),
            39 => Some(PatchParam::LfoSync),
            40 => Some(PatchParam::Lfo1DelayTime),
            41 => Some(PatchParam::Lfo1Fade),
            42 => Some(PatchParam::Lfo1FreeRun),
            43 => Some(PatchParam::PitchLfoSrc),
            44 => Some(PatchParam::PitchLfoDepth),
            45 => Some(PatchParam::PitchLfoModOnly),
            46 => Some(PatchParam::PitchEnvSrc),
            47 => Some(PatchParam::PitchEnvDepth),
            48 => Some(PatchParam::PitchEnvModOnly),
            49 => Some(PatchParam::PitchWheelDepth),
            50 => Some(PatchParam::PwmLfoSrc),
            51 => Some(PatchParam::PwmLfoDepth),
            52 => Some(PatchParam::PwmEnvSrc),
            53 => Some(PatchParam::PwmEnvDepth),
            54 => Some(PatchParam::CutoffLfo1Depth),
            55 => Some(PatchParam::CutoffLfo2Depth),
            56 => Some(PatchParam::CutoffEnvDepth),
            57 => Some(PatchParam::VelCutoffDepth),
            58 => Some(PatchParam::ModWheelPwm),
            59 => Some(PatchParam::ModWheelCutoff),
            60 => Some(PatchParam::ModWheelReso),
            61 => Some(PatchParam::ModWheelCrossModSweep),
            62 => Some(PatchParam::AssignMode),
            63 => Some(PatchParam::Legato),
            64 => Some(PatchParam::UnisonDetune),
            65 => Some(PatchParam::PortamentoTime),
            _ => None,
        }
    }

    #[verifier::opaque]
    pub open spec fn spec_desc(self) -> ParamDesc {
        match self {
            PatchParam::Osc1Wave => enum_param("osc1_wave", "Osc 1 Wave", Labels::Wave, num(TWO)),
            PatchParam::Osc1Coarse => int_param(
                "osc1_coarse",
                "Osc 1 Coarse",
                num(MINUS_F7),
                num(F7),
                num(ZERO),
                "st",
            ),
            PatchParam::Osc1Fine => float_param(
                "osc1_fine",
                "Osc 1 Fine",
                num(MINUS_F50),
                num(F50),
                num(ZERO),
                "ct",
                Taper::Linear,
            ),
            PatchParam::Osc1Octave => int_param(
                "osc1_octave",
                "Osc 1 Octave",
                num(MINUS_F4),
                num(FOUR),
                num(ZERO),
                "oct",
            ),
            PatchParam::Osc1Level => float_param(
                "osc1_level",
                "Osc 1 Level",
                num(ZERO),
                num(ONE),
                num(F0_8),
                "",
                Taper::Linear,
            ),
            PatchParam::Osc1PulseWidth => float_param(
                "osc1_pw",
                "Osc 1 PW",
                num(F0_05),
                num(F0_95),
                num(HALF),
                "",
                Taper::Linear,
            ),
            PatchParam::Osc2Wave => enum_param("osc2_wave", "Osc 2 Wave", Labels::Wave, num(TWO)),
            PatchParam::Osc2Coarse => int_param(
                "osc2_coarse",
                "Osc 2 Coarse",
                num(MINUS_F7),
                num(F7),
                num(ZERO),
                "st",
            ),
            PatchParam::Osc2Fine => float_param(
                "osc2_fine",
                "Osc 2 Fine",
                num(MINUS_F50),
                num(F50),
                num(ZERO),
                "ct",
                Taper::Linear,
            ),
            PatchParam::Osc2Octave => int_param(
                "osc2_octave",
                "Osc 2 Octave",
                num(MINUS_F4),
                num(FOUR),
                num(MINUS_ONE),
                "oct",
            ),
            PatchParam::Osc2Level => float_param(
                "osc2_level",
                "Osc 2 Level",
                num(ZERO),
                num(ONE),
                num(F0_6),
                "",
                Taper::Linear,
            ),
            PatchParam::Osc2PulseWidth => float_param(
                "osc2_pw",
                "Osc 2 PW",
                num(F0_05),
                num(F0_95),
                num(HALF),
                "",
                Taper::Linear,
            ),
            PatchParam::SubLevel => float_param(
                "sub_level",
                "Sub Level",
                num(ZERO),
                num(ONE),
                num(ZERO),
                "",
                Taper::Linear,
            ),
            PatchParam::CrossModType => enum_param(
                "cross_mod_type",
                "Cross Mod",
                Labels::CrossMod,
                num(ZERO),
            ),
            PatchParam::CrossModAmount => float_param(
                "cross_mod_amount",
                "Cross Mod Amt",
                num(ZERO),
                num(FOUR),
                num(ZERO),
                "",
                Taper::Linear,
            ),
            PatchParam::NoiseLevel => float_param(
                "noise_level",
                "Noise Level",
                num(ZERO),
                num(ONE),
                num(ZERO),
                "",
                Taper::Linear,
            ),
            PatchParam::NoiseColor => enum_param(
                "noise_color",
                "Noise Colour",
                Labels::Noise,
                num(ZERO),
            ),
            PatchParam::Cutoff => float_param(
                "cutoff",
                "Cutoff",
                num(F20),
                num(F18000),
                num(F8000),
                "Hz",
                Taper::Exp { mid: num(F1000) },
            ),
            PatchParam::Resonance => float_param(
                "resonance",
                "Resonance",
                num(ZERO),
                num(ONE),
                num(F0_2),
                "",
                Taper::Linear,
            ),
            PatchParam::Drive => float_param(
                "drive",
                "Drive",
                num(F0_1),
                num(FOUR),
                num(ONE),
                "",
                Taper::Linear,
            ),
            PatchParam::FilterMode => enum_param(
                "filter_mode",
                "Filter Mode",
                Labels::FilterMode,
                num(ZERO),
            ),
            PatchParam::FilterSlope => enum_param(
                "filter_slope",
                "Filter Slope",
                Labels::Slope,
                num(ONE),
            ),
            PatchParam::HpfCutoff => float_param(
                "hpf_cutoff",
                "HPF Cutoff",
                num(F20),
                num(F18000),
                num(F20),
                "Hz",
                Taper::Exp { mid: num(F1000) },
            ),
            PatchParam::FilterKeyTrack => bool_param("filter_key_track", "Key Track", num(ZERO)),
            PatchParam::Env1Attack => float_param(
                "env1_attack",
                "Env 1 Attack",
                num(F0_001),
                num(F10),
                num(F0_005),
                "s",
                Taper::Exp { mid: num(ONE) },
            ),
            PatchParam::Env1Decay => float_param(
                "env1_decay",
                "Env 1 Decay",
                num(F0_001),
                num(F10),
                num(F0_3),
                "s",
                Taper::Exp { mid: num(ONE) },
            ),
            PatchParam::Env1Sustain => float_param(
                "env1_sustain",
                "Env 1 Sustain",
                num(ZERO),
                num(ONE),
                num(ZERO),
                "",
                Taper::Linear,
            ),
            PatchParam::Env1Release => float_param(
                "env1_release",
                "Env 1 Release",
                num(F0_001),
                num(F10),
                num(F0_3),
                "s",
                Taper::Exp { mid: num(ONE) },
            ),
            PatchParam::Env1Shape => enum_param(
                "env1_shape",
                "Env 1 Shape",
                Labels::Shape,
                num(ZERO),
            ),
            PatchParam::Env2Attack => float_param(
                "env2_attack",
                "Env 2 Attack",
                num(F0_001),
                num(F10),
                num(F0_005),
                "s",
                Taper::Exp { mid: num(ONE) },
            ),
            PatchParam::Env2Decay => float_param(
                "env2_decay",
                "Env 2 Decay",
                num(F0_001),
                num(F10),
                num(F0_2),
                "s",
                Taper::Exp { mid: num(ONE) },
            ),
            PatchParam::Env2Sustain => float_param(
                "env2_sustain",
                "Env 2 Sustain",
                num(ZERO),
                num(ONE),
                num(F0_8),
                "",
                Taper::Linear,
            ),
            PatchParam::Env2Release => float_param(
                "env2_release",
                "Env 2 Release",
                num(F0_001),
                num(F10),
                num(F0_3),
                "s",
                Taper::Exp { mid: num(ONE) },
            ),
            PatchParam::Env2Shape => enum_param(
                "env2_shape",
                "Env 2 Shape",
                Labels::Shape,
                num(ONE),
            ),
            PatchParam::AmpLfoSrc => enum_param(
                "amp_lfo_src",
                "Amp LFO",
                Labels::LfoSel,
                num(ZERO),
            ),
            PatchParam::AmpLfoDepth => float_param(
                "amp_lfo_depth",
                "Amp LFO Dep",
                num(ZERO),
                num(ONE),
                num(ZERO),
                "",
                Taper::Linear,
            ),
            PatchParam::AmpEnvBypass => bool_param("amp_env_bypass", "Amp Gate", num(ZERO)),
            PatchParam::LfoShape => enum_param("lfo_shape", "LFO 1 Shape", Labels::Lfo, num(ZERO)),
            PatchParam::LfoRate => float_param(
                "lfo_rate",
                "LFO 1 Rate",
                num(F0_01),
                num(F40),
                num(F5),
                "Hz",
                Taper::Exp { mid: num(F5) },
            ),
            PatchParam::LfoSync => bool_param("lfo_sync", "LFO 1 Sync", num(ZERO)),
            PatchParam::Lfo1DelayTime => float_param(
                "lfo1_delay_time",
                "LFO 1 Delay",
                num(ZERO),
                num(FOUR),
                num(ZERO),
                "s",
                Taper::Linear,
            ),
            PatchParam::Lfo1Fade => float_param(
                "lfo1_fade",
                "LFO 1 Fade",
                num(ZERO),
                num(FOUR),
                num(ZERO),
                "s",
                Taper::Linear,
            ),
            PatchParam::Lfo1FreeRun => bool_param("lfo1_free_run", "LFO 1 Free", num(ZERO)),
            PatchParam::PitchLfoSrc => enum_param(
                "pitch_lfo_src",
                "Pitch LFO",
                Labels::LfoSel,
                num(ONE),
            ),
            PatchParam::PitchLfoDepth => float_param(
                "pitch_lfo_depth",
                "Pitch LFO Dep",
                num(ZERO),
                num(F12),
                num(F0_05),
                "st",
                Taper::Exp { mid: num(ONE) },
            ),
            PatchParam::PitchLfoModOnly => bool_param(
                "pitch_lfo_mod_only",
                "Pitch LFO Mod",
                num(ZERO),
            ),
            PatchParam::PitchEnvSrc => enum_param(
                "pitch_env_src",
                "Pitch Env",
                Labels::EnvSel,
                num(ZERO),
            ),
            PatchParam::PitchEnvDepth => float_param(
                "pitch_env_depth",
                "Pitch Env Dep",
                num(MINUS_F12),
                num(F12),
                num(ZERO),
                "st",
                Taper::Linear,
            ),
            PatchParam::PitchEnvModOnly => bool_param(
                "pitch_env_mod_only",
                "Pitch Env Mod",
                num(ZERO),
            ),
            PatchParam::PitchWheelDepth => float_param(
                "pitch_wheel_depth",
                "Pitch Wheel",
                num(ZERO),
                num(F12),
                num(TWO),
                "st",
                Taper::Linear,
            ),
            PatchParam::PwmLfoSrc => enum_param(
                "pwm_lfo_src",
                "PWM LFO",
                Labels::LfoSel,
                num(ZERO),
            ),
            PatchParam::PwmLfoDepth => float_param(
                "pwm_lfo_depth",
                "PWM LFO Dep",
                num(ZERO),
                num(HALF),
                num(ZERO),
                "",
                Taper::Linear,
            ),
            PatchParam::PwmEnvSrc => enum_param(
                "pwm_env_src",
                "PWM Env",
                Labels::EnvSel,
                num(ZERO),
            ),
            PatchParam::PwmEnvDepth => float_param(
                "pwm_env_depth",
                "PWM Env Dep",
                num(MINUS_F0_5),
                num(HALF),
                num(ZERO),
                "",
                Taper::Linear,
            ),
            PatchParam::CutoffLfo1Depth => float_param(
                "cutoff_lfo1_depth",
                "Cutoff LFO1 Dep",
                num(ZERO),
                num(F96),
                num(ZERO),
                "st",
                Taper::Linear,
            ),
            PatchParam::CutoffLfo2Depth => float_param(
                "cutoff_lfo2_depth",
                "Cutoff LFO2 Dep",
                num(ZERO),
                num(F96),
                num(ZERO),
                "st",
                Taper::Linear,
            ),
            PatchParam::CutoffEnvDepth => float_param(
                "cutoff_env_depth",
                "Cutoff Env Dep",
                num(MINUS_F96),
                num(F96),
                num(ZERO),
                "st",
                Taper::Linear,
            ),
            PatchParam::VelCutoffDepth => float_param(
                "vel_cutoff_depth",
                "Vel→Cutoff",
                num(MINUS_F96),
                num(F96),
                num(ZERO),
                "st",
                Taper::Linear,
            ),
            PatchParam::ModWheelPwm => float_param(
                "mod_wheel_pwm",
                "Wheel→PWM",
                num(MINUS_F0_5),
                num(HALF),
                num(ZERO),
                "",
                Taper::Linear,
            ),
            PatchParam::ModWheelCutoff => float_param(
                "mod_wheel_cutoff",
                "Wheel→Cutoff",
                num(MINUS_F96),
                num(F96),
                num(ZERO),
                "st",
                Taper::Linear,
            ),
            PatchParam::ModWheelReso => float_param(
                "mod_wheel_reso",
                "Wheel→Reso",
                num(ZERO),
                num(ONE),
                num(ZERO),
                "",
                Taper::Linear,
            ),
            PatchParam::ModWheelCrossModSweep => float_param(
                "mod_wheel_cross_mod_sweep",
                "Wheel→X-Mod",
                num(MINUS_F48),
                num(F48),
                num(ZERO),
                "st",
                Taper::Linear,
            ),
            PatchParam::AssignMode => enum_param(
                "assign_mode",
                "Assign",
                Labels::Assign,
                num(ZERO),
            ),
            PatchParam::Legato => bool_param("legato", "Legato", num(ZERO)),
            PatchParam::UnisonDetune => float_param(
                "unison_detune",
                "Detune",
                num(ZERO),
                num(F50),
                num(F12),
                "ct",
                Taper::Linear,
            ),
            PatchParam::PortamentoTime => float_param(
                "portamento_time",
                "Glide Time",
                num(ZERO),
                num(HALF),
                num(ZERO),
                "s",
                Taper::Exp { mid: num(F0_1) },
            ),
        }
    }

    /// What the parameter is.
    #[verifier::when_used_as_spec(spec_desc)]
    pub fn desc(self) -> (r: ParamDesc)
        ensures
            r == self.desc(),
    {
        reveal(PatchParam::spec_desc);
        match self {
            PatchParam::Osc1Wave => enum_param("osc1_wave", "Osc 1 Wave", Labels::Wave, num(TWO)),
            PatchParam::Osc1Coarse => int_param(
                "osc1_coarse",
                "Osc 1 Coarse",
                num(MINUS_F7),
                num(F7),
                num(ZERO),
                "st",
            ),
            PatchParam::Osc1Fine => float_param(
                "osc1_fine",
                "Osc 1 Fine",
                num(MINUS_F50),
                num(F50),
                num(ZERO),
                "ct",
                Taper::Linear,
            ),
            PatchParam::Osc1Octave => int_param(
                "osc1_octave",
                "Osc 1 Octave",
                num(MINUS_F4),
                num(FOUR),
                num(ZERO),
                "oct",
            ),
            PatchParam::Osc1Level => float_param(
                "osc1_level",
                "Osc 1 Level",
                num(ZERO),
                num(ONE),
                num(F0_8),
                "",
                Taper::Linear,
            ),
            PatchParam::Osc1PulseWidth => float_param(
                "osc1_pw",
                "Osc 1 PW",
                num(F0_05),
                num(F0_95),
                num(HALF),
                "",
                Taper::Linear,
            ),
            PatchParam::Osc2Wave => enum_param("osc2_wave", "Osc 2 Wave", Labels::Wave, num(TWO)),
            PatchParam::Osc2Coarse => int_param(
                "osc2_coarse",
                "Osc 2 Coarse",
                num(MINUS_F7),
                num(F7),
                num(ZERO),
                "st",
            ),
            PatchParam::Osc2Fine => float_param(
                "osc2_fine",
                "Osc 2 Fine",
                num(MINUS_F50),
                num(F50),
                num(ZERO),
                "ct",
                Taper::Linear,
            ),
            PatchParam::Osc2Octave => int_param(
                "osc2_octave",
                "Osc 2 Octave",
                num(MINUS_F4),
                num(FOUR),
                num(MINUS_ONE),
                "oct",
            ),
            PatchParam::Osc2Level => float_param(
                "osc2_level",
                "Osc 2 Level",
                num(ZERO),
                num(ONE),
                num(F0_6),
                "",
                Taper::Linear,
            ),
            PatchParam::Osc2PulseWidth => float_param(
                "osc2_pw",
                "Osc 2 PW",
                num(F0_05),
                num(F0_95),
                num(HALF),
                "",
                Taper::Linear,
            ),
            PatchParam::SubLevel => float_param(
                "sub_level",
                "Sub Level",
                num(ZERO),
                num(ONE),
                num(ZERO),
                "",
                Taper::Linear,
            ),
            PatchParam::CrossModType => enum_param(
                "cross_mod_type",
                "Cross Mod",
                Labels::CrossMod,
                num(ZERO),
            ),
            PatchParam::CrossModAmount => float_param(
                "cross_mod_amount",
                "Cross Mod Amt",
                num(ZERO),
                num(FOUR),
                num(ZERO),
                "",
                Taper::Linear,
            ),
            PatchParam::NoiseLevel => float_param(
                "noise_level",
                "Noise Level",
                num(ZERO),
                num(ONE),
                num(ZERO),
                "",
                Taper::Linear,
            ),
            PatchParam::NoiseColor => enum_param(
                "noise_color",
                "Noise Colour",
                Labels::Noise,
                num(ZERO),
            ),
            PatchParam::Cutoff => float_param(
                "cutoff",
                "Cutoff",
                num(F20),
                num(F18000),
                num(F8000),
                "Hz",
                Taper::Exp { mid: num(F1000) },
            ),
            PatchParam::Resonance => float_param(
                "resonance",
                "Resonance",
                num(ZERO),
                num(ONE),
                num(F0_2),
                "",
                Taper::Linear,
            ),
            PatchParam::Drive => float_param(
                "drive",
                "Drive",
                num(F0_1),
                num(FOUR),
                num(ONE),
                "",
                Taper::Linear,
            ),
            PatchParam::FilterMode => enum_param(
                "filter_mode",
                "Filter Mode",
                Labels::FilterMode,
                num(ZERO),
            ),
            PatchParam::FilterSlope => enum_param(
                "filter_slope",
                "Filter Slope",
                Labels::Slope,
                num(ONE),
            ),
            PatchParam::HpfCutoff => float_param(
                "hpf_cutoff",
                "HPF Cutoff",
                num(F20),
                num(F18000),
                num(F20),
                "Hz",
                Taper::Exp { mid: num(F1000) },
            ),
            PatchParam::FilterKeyTrack => bool_param("filter_key_track", "Key Track", num(ZERO)),
            PatchParam::Env1Attack => float_param(
                "env1_attack",
                "Env 1 Attack",
                num(F0_001),
                num(F10),
                num(F0_005),
                "s",
                Taper::Exp { mid: num(ONE) },
            ),
            PatchParam::Env1Decay => float_param(
                "env1_decay",
                "Env 1 Decay",
                num(F0_001),
                num(F10),
                num(F0_3),
                "s",
                Taper::Exp { mid: num(ONE) },
            ),
            PatchParam::Env1Sustain => float_param(
                "env1_sustain",
                "Env 1 Sustain",
                num(ZERO),
                num(ONE),
                num(ZERO),
                "",
                Taper::Linear,
            ),
            PatchParam::Env1Release => float_param(
                "env1_release",
                "Env 1 Release",
                num(F0_001),
                num(F10),
                num(F0_3),
                "s",
                Taper::Exp { mid: num(ONE) },
            ),
            PatchParam::Env1Shape => enum_param(
                "env1_shape",
                "Env 1 Shape",
                Labels::Shape,
                num(ZERO),
            ),
            PatchParam::Env2Attack => float_param(
                "env2_attack",
                "Env 2 Attack",
                num(F0_001),
                num(F10),
                num(F0_005),
                "s",
                Taper::Exp { mid: num(ONE) },
            ),
            PatchParam::Env2Decay => float_param(
                "env2_decay",
                "Env 2 Decay",
                num(F0_001),
                num(F10),
                num(F0_2),
                "s",
                Taper::Exp { mid: num(ONE) },
            ),
            PatchParam::Env2Sustain => float_param(
                "env2_sustain",
                "Env 2 Sustain",
                num(ZERO),
                num(ONE),
                num(F0_8),
                "",
                Taper::Linear,
            ),
            PatchParam::Env2Release => float_param(
                "env2_release",
                "Env 2 Release",
                num(F0_001),
                num(F10),
                num(F0_3),
                "s",
                Taper::Exp { mid: num(ONE) },
            ),
            PatchParam::Env2Shape => enum_param(
                "env2_shape",
                "Env 2 Shape",
                Labels::Shape,
                num(ONE),
            ),
            PatchParam::AmpLfoSrc => enum_param(
                "amp_lfo_src",
                "Amp LFO",
                Labels::LfoSel,
                num(ZERO),
            ),
            PatchParam::AmpLfoDepth => float_param(
                "amp_lfo_depth",
                "Amp LFO Dep",
                num(ZERO),
                num(ONE),
                num(ZERO),
                "",
                Taper::Linear,
            ),
            PatchParam::AmpEnvBypass => bool_param("amp_env_bypass", "Amp Gate", num(ZERO)),
            PatchParam::LfoShape => enum_param("lfo_shape", "LFO 1 Shape", Labels::Lfo, num(ZERO)),
            PatchParam::LfoRate => float_param(
                "lfo_rate",
                "LFO 1 Rate",
                num(F0_01),
                num(F40),
                num(F5),
                "Hz",
                Taper::Exp { mid: num(F5) },
            ),
            PatchParam::LfoSync => bool_param("lfo_sync", "LFO 1 Sync", num(ZERO)),
            PatchParam::Lfo1DelayTime => float_param(
                "lfo1_delay_time",
                "LFO 1 Delay",
                num(ZERO),
                num(FOUR),
                num(ZERO),
                "s",
                Taper::Linear,
            ),
            PatchParam::Lfo1Fade => float_param(
                "lfo1_fade",
                "LFO 1 Fade",
                num(ZERO),
                num(FOUR),
                num(ZERO),
                "s",
                Taper::Linear,
            ),
            PatchParam::Lfo1FreeRun => bool_param("lfo1_free_run", "LFO 1 Free", num(ZERO)),
            PatchParam::PitchLfoSrc => enum_param(
                "pitch_lfo_src",
                "Pitch LFO",
                Labels::LfoSel,
                num(ONE),
            ),
            PatchParam::PitchLfoDepth => float_param(
                "pitch_lfo_depth",
                "Pitch LFO Dep",
                num(ZERO),
                num(F12),
                num(F0_05),
                "st",
                Taper::Exp { mid: num(ONE) },
            ),
            PatchParam::PitchLfoModOnly => bool_param(
                "pitch_lfo_mod_only",
                "Pitch LFO Mod",
                num(ZERO),
            ),
            PatchParam::PitchEnvSrc => enum_param(
                "pitch_env_src",
                "Pitch Env",
                Labels::EnvSel,
                num(ZERO),
            ),
            PatchParam::PitchEnvDepth => float_param(
                "pitch_env_depth",
                "Pitch Env Dep",
                num(MINUS_F12),
                num(F12),
                num(ZERO),
                "st",
                Taper::Linear,
            ),
            PatchParam::PitchEnvModOnly => bool_param(
                "pitch_env_mod_only",
                "Pitch Env Mod",
                num(ZERO),
            ),
            PatchParam::PitchWheelDepth => float_param(
                "pitch_wheel_depth",
                "Pitch Wheel",
                num(ZERO),
                num(F12),
                num(TWO),
                "st",
                Taper::Linear,
            ),
            PatchParam::PwmLfoSrc => enum_param(
                "pwm_lfo_src",
                "PWM LFO",
                Labels::LfoSel,
                num(ZERO),
            ),
            PatchParam::PwmLfoDepth => float_param(
                "pwm_lfo_depth",
                "PWM LFO Dep",
                num(ZERO),
                num(HALF),
                num(ZERO),
                "",
                Taper::Linear,
            ),
            PatchParam::PwmEnvSrc => enum_param(
                "pwm_env_src",
                "PWM Env",
                Labels::EnvSel,
                num(ZERO),
            ),
            PatchParam::PwmEnvDepth => float_param(
                "pwm_env_depth",
                "PWM Env Dep",
                num(MINUS_F0_5),
                num(HALF),
                num(ZERO),
                "",
                Taper::Linear,
            ),
            PatchParam::CutoffLfo1Depth => float_param(
                "cutoff_lfo1_depth",
                "Cutoff LFO1 Dep",
                num(ZERO),
                num(F96),
                num(ZERO),
                "st",
                Taper::Linear,
            ),
            PatchParam::CutoffLfo2Depth => float_param(
                "cutoff_lfo2_depth",
                "Cutoff LFO2 Dep",
                num(ZERO),
                num(F96),
                num(ZERO),
                "st",
                Taper::Linear,
            ),
            PatchParam::CutoffEnvDepth => float_param(
                "cutoff_env_depth",
                "Cutoff Env Dep",
                num(MINUS_F96),
                num(F96),
                num(ZERO),
                "st",
                Taper::Linear,
            ),
            PatchParam::VelCutoffDepth => float_param(
                "vel_cutoff_depth",
                "Vel→Cutoff",
                num(MINUS_F96),
                num(F96),
                num(ZERO),
                "st",
                Taper::Linear,
            ),
            PatchParam::ModWheelPwm => float_param(
                "mod_wheel_pwm",
                "Wheel→PWM",
                num(MINUS_F0_5),
                num(HALF),
                num(ZERO),
                "",
                Taper::Linear,
            ),
            PatchParam::ModWheelCutoff => float_param(
                "mod_wheel_cutoff",
                "Wheel→Cutoff",
                num(MINUS_F96),
                num(F96),
                num(ZERO),
                "st",
                Taper::Linear,
            ),
            PatchParam::ModWheelReso => float_param(
                "mod_wheel_reso",
                "Wheel→Reso",
                num(ZERO),
                num(ONE),
                num(ZERO),
                "",
                Taper::Linear,
            ),
            PatchParam::ModWheelCrossModSweep => float_param(
                "mod_wheel_cross_mod_sweep",
                "Wheel→X-Mod",
                num(MINUS_F48),
                num(F48),
                num(ZERO),
                "st",
                Taper::Linear,
            ),
            PatchParam::AssignMode => enum_param(
                "assign_mode",
                "Assign",
                Labels::Assign,
                num(ZERO),
            ),
            PatchParam::Legato => bool_param("legato", "Legato", num(ZERO)),
            PatchParam::UnisonDetune => float_param(
                "unison_detune",
                "Detune",
                num(ZERO),
                num(F50),
                num(F12),
                "ct",
                Taper::Linear,
            ),
            PatchParam::PortamentoTime => float_param(
                "portamento_time",
                "Glide Time",
                num(ZERO),
                num(HALF),
                num(ZERO),
                "s",
                Taper::Exp { mid: num(F0_1) },
            ),
        }
    }

    /// Every parameter, in the order of the block.
    pub fn all() -> (r: Vec<PatchParam>)
        ensures
            r@.len() == PatchParam::COUNT,
            forall|i: int| 0 <= i < PatchParam::COUNT ==> (#[trigger] r@[i]).index() == i,
    {
        let mut r: Vec<PatchParam> = Vec::new();
        for i in 0..PatchParam::COUNT
            invariant
                r@.len() == i,
                forall|j: int| 0 <= j < i ==> (#[trigger] r@[j]).index() == j,
        {
            proof {
                PatchParam::lemma_from_index_inverts(i);
            }
            if let Some(p) = PatchParam::from_index(i) {
                r.push(p);
            }
        }
        r
    }

    /// The parameter with the given name.
    pub fn from_name(name: &str) -> (r: Option<PatchParam>)
        ensures
            match r {
                Some(p) => p.desc().name@ == name@,
                None => forall|p: PatchParam| (#[trigger] p.desc()).name@ != name@,
            },
            forall|p: PatchParam| (#[trigger] p.desc()).name@ == name@ ==> r == Some(p),
    {
        for i in 0..PatchParam::COUNT
            invariant
                forall|p: PatchParam| p.index() < i ==> (#[trigger] p.desc()).name@ != name@,
        {
            proof {
                PatchParam::lemma_from_index_inverts(i);
            }
            if let Some(p) = PatchParam::from_index(i) {
                if same_text(p.desc().name, name) {
                    proof {
                        assert forall|q: PatchParam| (#[trigger] q.desc()).name@
                            == name@ implies q == p by {
                            if q != p {
                                PatchParam::lemma_names_differ(p, q);
                            }
                        }
                    }
                    return Some(p);
                }
                proof {
                    assert forall|q: PatchParam| q.index() < i + 1 implies (#[trigger] q.desc()).name@
                        != name@ by {
                        q.lemma_index_roundtrips();
                    }
                }
            }
        }
        proof {
            assert forall|q: PatchParam| (#[trigger] q.desc()).name@ != name@ by {
                q.lemma_index_roundtrips();
            }
        }
        None
    }

    /// Every parameter is found at its own index.
    pub proof fn lemma_index_roundtrips(self)
        ensures
            self.index() < PatchParam::COUNT,
            PatchParam::from_index(self.index()) == Some(self),
    {
    }

    /// Every index of the block has its parameter, and no other index has one.
    pub proof fn lemma_from_index_inverts(i: usize)
        ensures
            PatchParam::from_index(i) is Some <==> i < PatchParam::COUNT,
            i < PatchParam::COUNT ==> PatchParam::from_index(i)->0.index() == i,
    {
    }

    /// Every parameter has a usable range with its default inside.
    pub proof fn lemma_desc_wf(self)
        ensures
            self.desc().wf(),
    {
        reveal(PatchParam::spec_desc);
    }

    /// No two parameters share a name, so a name finds its parameter.
    pub proof fn lemma_names_differ(p: PatchParam, q: PatchParam)
        requires
            p != q,
        ensures
            p.desc().name@ != q.desc().name@,
    {
        p.lemma_name_code();
        q.lemma_name_code();
    }

    spec fn code(self) -> int {
        match self {
            PatchParam::Osc1Wave => 102120393,
            PatchParam::Osc1Coarse => 13672790987,
            PatchParam::Osc1Fine => 110509001,
            PatchParam::Osc1Octave => 13660208075,
            PatchParam::Osc1Level => 106314698,
            PatchParam::Osc1PulseWidth => 125189063,
            PatchParam::Osc2Wave => 102128585,
            PatchParam::Osc2Coarse => 13672799179,
            PatchParam::Osc2Fine => 110517193,
            PatchParam::Osc2Octave => 13660216267,
            PatchParam::Osc2Level => 106322890,
            PatchParam::Osc2PulseWidth => 125197255,
            PatchParam::SubLevel => 124517577,
            PatchParam::CrossModType => 15684499662,
            PatchParam::CrossModAmount => 13134362832,
            PatchParam::NoiseLevel => 14609709963,
            PatchParam::NoiseColor => 15405579147,
            PatchParam::Cutoff => 915654,
            PatchParam::Resonance => 116259977,
            PatchParam::Drive => 973061,
            PatchParam::FilterMode => 13656562059,
            PatchParam::FilterSlope => 15132957068,
            PatchParam::HpfCutoff => 122419722,
            PatchParam::FilterKeyTrack => 12851255696,
            PatchParam::Env1Attack => 14483339595,
            PatchParam::Env1Decay => 106314058,
            PatchParam::Env1Sustain => 14215952716,
            PatchParam::Env1Release => 15541352780,
            PatchParam::Env1Shape => 109459786,
            PatchParam::Env2Attack => 14483347787,
            PatchParam::Env2Decay => 106322250,
            PatchParam::Env2Sustain => 14215960908,
            PatchParam::Env2Release => 15541360972,
            PatchParam::Env2Shape => 109467978,
            PatchParam::AmpLfoSrc => 13404731467,
            PatchParam::AmpLfoDepth => 15149561933,
            PatchParam::AmpEnvBypass => 15156901966,
            PatchParam::LfoShape => 102497033,
            PatchParam::LfoRate => 122419976,
            PatchParam::LfoSync => 116128520,
            PatchParam::Lfo1DelayTime => 12856998671,
            PatchParam::Lfo1Fade => 102120201,
            PatchParam::Lfo1FreeRun => 15420766989,
            PatchParam::PitchLfoSrc => 15549103117,
            PatchParam::PitchLfoDepth => 13535837199,
            PatchParam::PitchLfoModOnly => 14743796754,
            PatchParam::PitchEnvSrc => 15541763085,
            PatchParam::PitchEnvDepth => 13528497167,
            PatchParam::PitchEnvModOnly => 14736456722,
            PatchParam::PitchWheelDepth => 14621113361,
            PatchParam::PwmLfoSrc => 13404732427,
            PatchParam::PwmLfoDepth => 15149562893,
            PatchParam::PwmEnvSrc => 13412072459,
            PatchParam::PwmEnvDepth => 15156902925,
            PatchParam::CutoffLfo1Depth => 6677199057,
            PatchParam::CutoffLfo2Depth => 6811416785,
            PatchParam::CutoffEnvDepth => 12851214544,
            PatchParam::VelCutoffDepth => 12873104784,
            PatchParam::ModWheelPwm => 15139076941,
            PatchParam::ModWheelCutoff => 13394246480,
            PatchParam::ModWheelReso => 15407512398,
            PatchParam::ModWheelCrossModSweep => 13394246489,
            PatchParam::AssignMode => 13656471627,
            PatchParam::Legato => 801542,
            PatchParam::UnisonDetune => 15804038477,
            PatchParam::PortamentoTime => 12857547791,
        }
    }

    #[verifier::rlimit(40)]
    proof fn lemma_name_code(self)
        ensures
            name_code(self.desc().name@) == self.code(),
    {
        reveal(PatchParam::spec_desc);
        match self {
            PatchParam::Osc1Wave => {
                reveal_strlit("osc1_wave");
            },
            PatchParam::Osc1Coarse => {
                reveal_strlit("osc1_coarse");
            },
            PatchParam::Osc1Fine => {
                reveal_strlit("osc1_fine");
            },
            PatchParam::Osc1Octave => {
                reveal_strlit("osc1_octave");
            },
            PatchParam::Osc1Level => {
                reveal_strlit("osc1_level");
            },
            PatchParam::Osc1PulseWidth => {
                reveal_strlit("osc1_pw");
            },
            PatchParam::Osc2Wave => {
                reveal_strlit("osc2_wave");
            },
            PatchParam::Osc2Coarse => {
                reveal_strlit("osc2_coarse");
            },
            PatchParam::Osc2Fine => {
                reveal_strlit("osc2_fine");
            },
            PatchParam::Osc2Octave => {
                reveal_strlit("osc2_octave");
            },
            PatchParam::Osc2Level => {
                reveal_strlit("osc2_level");
            },
            PatchParam::Osc2PulseWidth => {
                reveal_strlit("osc2_pw");
            },
            PatchParam::SubLevel => {
                reveal_strlit("sub_level");
            },
            PatchParam::CrossModType => {
                reveal_strlit("cross_mod_type");
            },
            PatchParam::CrossModAmount => {
                reveal_strlit("cross_mod_amount");
            },
            PatchParam::NoiseLevel => {
                reveal_strlit("noise_level");
            },
            PatchParam::NoiseColor => {
                reveal_strlit("noise_color");
            },
            PatchParam::Cutoff => {
                reveal_strlit("cutoff");
            },
            PatchParam::Resonance => {
                reveal_strlit("resonance");
            },
            PatchParam::Drive => {
                reveal_strlit("drive");
            },
            PatchParam::FilterMode => {
                reveal_strlit("filter_mode");
            },
            PatchParam::FilterSlope => {
                reveal_strlit("filter_slope");
            },
            PatchParam::HpfCutoff => {
                reveal_strlit("hpf_cutoff");
            },
            PatchParam::FilterKeyTrack => {
                reveal_strlit("filter_key_track");
            },
            PatchParam::Env1Attack => {
                reveal_strlit("env1_attack");
            },
            PatchParam::Env1Decay => {
                reveal_strlit("env1_decay");
            },
            PatchParam::Env1Sustain => {
                reveal_strlit("env1_sustain");
            },
            PatchParam::Env1Release => {
                reveal_strlit("env1_release");
            },
            PatchParam::Env1Shape => {
                reveal_strlit("env1_shape");
            },
            PatchParam::Env2Attack => {
                reveal_strlit("env2_attack");
            },
            PatchParam::Env2Decay => {
                reveal_strlit("env2_decay");
            },
            PatchParam::Env2Sustain => {
                reveal_strlit("env2_sustain");
            },
            PatchParam::Env2Release => {
                reveal_strlit("env2_release");
            },
            PatchParam::Env2Shape => {
                reveal_strlit("env2_shape");
            },
            PatchParam::AmpLfoSrc => {
                reveal_strlit("amp_lfo_src");
            },
            PatchParam::AmpLfoDepth => {
                reveal_strlit("amp_lfo_depth");
            },
            PatchParam::AmpEnvBypass => {
                reveal_strlit("amp_env_bypass");
            },
            PatchParam::LfoShape => {
                reveal_strlit("lfo_shape");
            },
            PatchParam::LfoRate => {
                reveal_strlit("lfo_rate");
            },
            PatchParam::LfoSync => {
                reveal_strlit("lfo_sync");
            },
            PatchParam::Lfo1DelayTime => {
                reveal_strlit("lfo1_delay_time");
            },
            PatchParam::Lfo1Fade => {
                reveal_strlit("lfo1_fade");
            },
            PatchParam::Lfo1FreeRun => {
                reveal_strlit("lfo1_free_run");
            },
            PatchParam::PitchLfoSrc => {
                reveal_strlit("pitch_lfo_src");
            },
            PatchParam::PitchLfoDepth => {
                reveal_strlit("pitch_lfo_depth");
            },
            PatchParam::PitchLfoModOnly => {
                reveal_strlit("pitch_lfo_mod_only");
            },
            PatchParam::PitchEnvSrc => {
                reveal_strlit("pitch_env_src");
            },
            PatchParam::PitchEnvDepth => {
                reveal_strlit("pitch_env_depth");
            },
            PatchParam::PitchEnvModOnly => {
                reveal_strlit("pitch_env_mod_only");
            },
            PatchParam::PitchWheelDepth => {
                reveal_strlit("pitch_wheel_depth");
            },
            PatchParam::PwmLfoSrc => {
                reveal_strlit("pwm_lfo_src");
            },
            PatchParam::PwmLfoDepth => {
                reveal_strlit("pwm_lfo_depth");
            },
            PatchParam::PwmEnvSrc => {
                reveal_strlit("pwm_env_src");
            },
            PatchParam::PwmEnvDepth => {
                reveal_strlit("pwm_env_depth");
            },
            PatchParam::CutoffLfo1Depth => {
                reveal_strlit("cutoff_lfo1_depth");
            },
            PatchParam::CutoffLfo2Depth => {
                reveal_strlit("cutoff_lfo2_depth");
            },
            PatchParam::CutoffEnvDepth => {
                reveal_strlit("cutoff_env_depth");
            },
            PatchParam::VelCutoffDepth => {
                reveal_strlit("vel_cutoff_depth");
            },
            PatchParam::ModWheelPwm => {
                reveal_strlit("mod_wheel_pwm");
            },
            PatchParam::ModWheelCutoff => {
                reveal_strlit("mod_wheel_cutoff");
            },
            PatchParam::ModWheelReso => {
                reveal_strlit("mod_wheel_reso");
            },
            PatchParam::ModWheelCrossModSweep => {
                reveal_strlit("mod_wheel_cross_mod_sweep");
            },
            PatchParam::AssignMode => {
                reveal_strlit("assign_mode");
            },
            PatchParam::Legato => {
                reveal_strlit("legato");
            },
            PatchParam::UnisonDetune => {
                reveal_strlit("unison_detune");
            },
            PatchParam::PortamentoTime => {
                reveal_strlit("portamento_time");
            },
        }
    }
}

/// Global parameters.
#[derive(Clone, Copy, Debug, PartialEq, Eq, Structural)]
pub enum GlobalParam {
    MasterTune,
    MasterVolume,
    ChorusOn,
    ChorusRate,
    ChorusDepth,
    ChorusMix,
    DelayOn,
    DelayTime,
    DelayFeedback,
    DelayMix,
    DelayPingPong,
    DelaySync,
    ReverbOn,
    ReverbType,
    ReverbDepth,
    ReverbMix,
    LimiterOn,
    Oversample,
    Lfo2Shape,
    Lfo2Rate,
    Lfo2Sync,
}

impl GlobalParam {
    pub const COUNT: usize = 21;

    pub open spec fn spec_index(self) -> usize {
        match self {
            GlobalParam::MasterTune => 0,
            GlobalParam::MasterVolume => 1,
            GlobalParam::ChorusOn => 2,
            GlobalParam::ChorusRate => 3,
            GlobalParam::ChorusDepth => 4,
            GlobalParam::ChorusMix => 5,
            GlobalParam::DelayOn => 6,
            GlobalParam::DelayTime => 7,
            GlobalParam::DelayFeedback => 8,
            GlobalParam::DelayMix => 9,
            GlobalParam::DelayPingPong => 10,
            GlobalParam::DelaySync => 11,
            GlobalParam::ReverbOn => 12,
            GlobalParam::ReverbType => 13,
            GlobalParam::ReverbDepth => 14,
            GlobalParam::ReverbMix => 15,
            GlobalParam::LimiterOn => 16,
            GlobalParam::Oversample => 17,
            GlobalParam::Lfo2Shape => 18,
            GlobalParam::Lfo2Rate => 19,
            GlobalParam::Lfo2Sync => 20,
        }
    }

    /// The place of the parameter in its block.
    #[verifier::when_used_as_spec(spec_index)]
    pub fn index(self) -> (r: usize)
        ensures
            r == self.index(),
            r < GlobalParam::COUNT,
    {
        match self {
            GlobalParam::MasterTune => 0,
            GlobalParam::MasterVolume => 1,
            GlobalParam::ChorusOn => 2,
            GlobalParam::ChorusRate => 3,
            GlobalParam::ChorusDepth => 4,
            GlobalParam::ChorusMix => 5,
            GlobalParam::DelayOn => 6,
            GlobalParam::DelayTime => 7,
            GlobalParam::DelayFeedback => 8,
            GlobalParam::DelayMix => 9,
            GlobalParam::DelayPingPong => 10,
            GlobalParam::DelaySync => 11,
            GlobalParam::ReverbOn => 12,
            GlobalParam::ReverbType => 13,
            GlobalParam::ReverbDepth => 14,
            GlobalParam::ReverbMix => 15,
            GlobalParam::LimiterOn => 16,
            GlobalParam::Oversample => 17,
            GlobalParam::Lfo2Shape => 18,
            GlobalParam::Lfo2Rate => 19,
            GlobalParam::Lfo2Sync => 20,
        }
    }

    pub open spec fn spec_from_index(i: usize) -> Option<GlobalParam> {
        match i {
            0 => Some(GlobalParam::MasterTune),
            1 => Some(GlobalParam::MasterVolume),
            2 => Some(GlobalParam::ChorusOn),
            3 => Some(GlobalParam::ChorusRate),
            4 => Some(GlobalParam::ChorusDepth),
            5 => Some(GlobalParam::ChorusMix),
            6 => Some(GlobalParam::DelayOn),
            7 => Some(GlobalParam::DelayTime),
            8 => Some(GlobalParam::DelayFeedback),
            9 => Some(GlobalParam::DelayMix),
            10 => Some(GlobalParam::DelayPingPong),
            11 => Some(GlobalParam::DelaySync),
            12 => Some(GlobalParam::ReverbOn),
            13 => Some(GlobalParam::ReverbType),
            14 => Some(GlobalParam::ReverbDepth),
            15 => Some(GlobalParam::ReverbMix),
            16 => Some(GlobalParam::LimiterOn),
            17 => Some(GlobalParam::Oversample),
            18 => Some(GlobalParam::Lfo2Shape),
            19 => Some(GlobalParam::Lfo2Rate),
            20 => Some(GlobalParam::Lfo2Sync),
            _ => None,
        }
    }

    /// The parameter at a place in the block.
    #[verifier::when_used_as_spec(spec_from_index)]
    pub fn from_index(i: usize) -> (r: Option<GlobalParam>)
        ensures
            r == GlobalParam::from_index(i),
    {
        match i {
            0 => Some(GlobalParam::MasterTune),
            1 => Some(GlobalParam::MasterVolume),
            2 => Some(GlobalParam::ChorusOn),
            3 => Some(GlobalParam::ChorusRate),
            4 => Some(GlobalParam::ChorusDepth),
            5 => Some(GlobalParam::ChorusMix),
            6 => Some(GlobalParam::DelayOn),
            7 => Some(GlobalParam::DelayTime),
            8 => Some(GlobalParam::DelayFeedback),
            9 => Some(GlobalParam::DelayMix),
            10 => Some(GlobalParam::DelayPingPong),
            11 => Some(GlobalParam::DelaySync),
            12 => Some(GlobalParam::ReverbOn),
            13 => Some(GlobalParam::ReverbType),
            14 => Some(GlobalParam::ReverbDepth),
            15 => Some(GlobalParam::ReverbMix),
            16 => Some(GlobalParam::LimiterOn),
            17 => Some(GlobalParam::Oversample),
            18 => Some(GlobalParam::Lfo2Shape),
            19 => Some(GlobalParam::Lfo2Rate),
            20 => Some(GlobalParam::Lfo2Sync),
            _ => None,
        }
    }

    #[verifier::opaque]
    pub open spec fn spec_desc(self) -> ParamDesc {
        match self {
            GlobalParam::MasterTune => float_param(
                "master_tune",
                "Master Tune",
                num(MINUS_F12),
                num(F12),
                num(ZERO),
                "st",
                Taper::Linear,
            ),
            GlobalParam::MasterVolume => float_param(
                "master_volume",
                "Volume",
                num(ZERO),
                num(ONE),
                num(F0_7),
                "",
                Taper::Linear,
            ),
            GlobalParam::ChorusOn => bool_param("chorus_on", "Chorus", num(ONE)),
            GlobalParam::ChorusRate => float_param(
                "chorus_rate",
                "Chorus Rate",
                num(F0_05),
                num(F8),
                num(F0_6),
                "Hz",
                Taper::Linear,
            ),
            GlobalParam::ChorusDepth => float_param(
                "chorus_depth",
                "Chorus Depth",
                num(ZERO),
                num(ONE),
                num(HALF),
                "",
                Taper::Linear,
            ),
            GlobalParam::ChorusMix => float_param(
                "chorus_mix",
                "Chorus Mix",
                num(ZERO),
                num(ONE),
                num(F0_4),
                "",
                Taper::Linear,
            ),
            GlobalParam::DelayOn => bool_param("delay_on", "Delay", num(ZERO)),
            GlobalParam::DelayTime => float_param(
                "delay_time",
                "Delay Time",
                num(F0_01),
                num(TWO),
                num(F0_35),
                "s",
                Taper::Linear,
            ),
            GlobalParam::DelayFeedback => float_param(
                "delay_feedback",
                "Delay FB",
                num(ZERO),
                num(F0_95),
                num(F0_4),
                "",
                Taper::Linear,
            ),
            GlobalParam::DelayMix => float_param(
                "delay_mix",
                "Delay Mix",
                num(ZERO),
                num(ONE),
                num(F0_25),
                "",
                Taper::Linear,
            ),
            GlobalParam::DelayPingPong => bool_param("delay_pingpong", "Ping-Pong", num(ONE)),
            GlobalParam::DelaySync => bool_param("delay_sync", "Delay Sync", num(ZERO)),
            GlobalParam::ReverbOn => bool_param("reverb_on", "Reverb", num(ZERO)),
            GlobalParam::ReverbType => enum_param(
                "reverb_type",
                "Reverb Type",
                Labels::ReverbType,
                num(ZERO),
            ),
            GlobalParam::ReverbDepth => float_param(
                "reverb_depth",
                "Reverb Depth",
                num(ZERO),
                num(ONE),
                num(HALF),
                "",
                Taper::Linear,
            ),
            GlobalParam::ReverbMix => float_param(
                "reverb_mix",
                "Reverb Mix",
                num(ZERO),
                num(ONE),
                num(F0_3),
                "",
                Taper::Linear,
            ),
            GlobalParam::LimiterOn => bool_param("limiter_on", "Limiter", num(ZERO)),
            GlobalParam::Oversample => enum_param(
                "oversample",
                "Oversample",
                Labels::Oversample,
                num(ONE),
            ),
            GlobalParam::Lfo2Shape => enum_param(
                "lfo2_shape",
                "LFO 2 Shape",
                Labels::Lfo,
                num(ZERO),
            ),
            GlobalParam::Lfo2Rate => float_param(
                "lfo2_rate",
                "LFO 2 Rate",
                num(F0_01),
                num(F40),
                num(F5),
                "Hz",
                Taper::Exp { mid: num(F5) },
            ),
            GlobalParam::Lfo2Sync => bool_param("lfo2_sync", "LFO 2 Sync", num(ZERO)),
        }
    }

    /// What the parameter is.
    #[verifier::when_used_as_spec(spec_desc)]
    pub fn desc(self) -> (r: ParamDesc)
        ensures
            r == self.desc(),
    {
        reveal(GlobalParam::spec_desc);
        match self {
            GlobalParam::MasterTune => float_param(
                "master_tune",
                "Master Tune",
                num(MINUS_F12),
                num(F12),
                num(ZERO),
                "st",
                Taper::Linear,
            ),
            GlobalParam::MasterVolume => float_param(
                "master_volume",
                "Volume",
                num(ZERO),
                num(ONE),
                num(F0_7),
                "",
                Taper::Linear,
            ),
            GlobalParam::ChorusOn => bool_param("chorus_on", "Chorus", num(ONE)),
            GlobalParam::ChorusRate => float_param(
                "chorus_rate",
                "Chorus Rate",
                num(F0_05),
                num(F8),
                num(F0_6),
                "Hz",
                Taper::Linear,
            ),
            GlobalParam::ChorusDepth => float_param(
                "chorus_depth",
                "Chorus Depth",
                num(ZERO),
                num(ONE),
                num(HALF),
                "",
                Taper::Linear,
            ),
            GlobalParam::ChorusMix => float_param(
                "chorus_mix",
                "Chorus Mix",
                num(ZERO),
                num(ONE),
                num(F0_4),
                "",
                Taper::Linear,
            ),
            GlobalParam::DelayOn => bool_param("delay_on", "Delay", num(ZERO)),
            GlobalParam::DelayTime => float_param(
                "delay_time",
                "Delay Time",
                num(F0_01),
                num(TWO),
                num(F0_35),
                "s",
                Taper::Linear,
            ),
            GlobalParam::DelayFeedback => float_param(
                "delay_feedback",
                "Delay FB",
                num(ZERO),
                num(F0_95),
                num(F0_4),
                "",
                Taper::Linear,
            ),
            GlobalParam::DelayMix => float_param(
                "delay_mix",
                "Delay Mix",
                num(ZERO),
                num(ONE),
                num(F0_25),
                "",
                Taper::Linear,
            ),
            GlobalParam::DelayPingPong => bool_param("delay_pingpong", "Ping-Pong", num(ONE)),
            GlobalParam::DelaySync => bool_param("delay_sync", "Delay Sync", num(ZERO)),
            GlobalParam::ReverbOn => bool_param("reverb_on", "Reverb", num(ZERO)),
            GlobalParam::ReverbType => enum_param(
                "reverb_type",
                "Reverb Type",
                Labels::ReverbType,
                num(ZERO),
            ),
            GlobalParam::ReverbDepth => float_param(
                "reverb_depth",
                "Reverb Depth",
                num(ZERO),
                num(ONE),
                num(HALF),
                "",
                Taper::Linear,
            ),
            GlobalParam::ReverbMix => float_param(
                "reverb_mix",
                "Reverb Mix",
                num(ZERO),
                num(ONE),
                num(F0_3),
                "",
                Taper::Linear,
            ),
            GlobalParam::LimiterOn => bool_param("limiter_on", "Limiter", num(ZERO)),
            GlobalParam::Oversample => enum_param(
                "oversample",
                "Oversample",
                Labels::Oversample,
                num(ONE),
            ),
            GlobalParam::Lfo2Shape => enum_param(
                "lfo2_shape",
                "LFO 2 Shape",
                Labels::Lfo,
                num(ZERO),
            ),
            GlobalParam::Lfo2Rate => float_param(
                "lfo2_rate",
                "LFO 2 Rate",
                num(F0_01),
                num(F40),
                num(F5),
                "Hz",
                Taper::Exp { mid: num(F5) },
            ),
            GlobalParam::Lfo2Sync => bool_param("lfo2_sync", "LFO 2 Sync", num(ZERO)),
        }
    }

    /// Every parameter, in the order of the block.
    pub fn all() -> (r: Vec<GlobalParam>)
        ensures
            r@.len() == GlobalParam::COUNT,
            forall|i: int| 0 <= i < GlobalParam::COUNT ==> (#[trigger] r@[i]).index() == i,
    {
        let mut r: Vec<GlobalParam> = Vec::new();
        for i in 0..GlobalParam::COUNT
            invariant
                r@.len() == i,
                forall|j: int| 0 <= j < i ==> (#[trigger] r@[j]).index() == j,
        {
            proof {
                GlobalParam::lemma_from_index_inverts(i);
            }
            if let Some(p) = GlobalParam::from_index(i) {
                r.push(p);
            }
        }
        r
    }

    /// The parameter with the given name.
    pub fn from_name(name: &str) -> (r: Option<GlobalParam>)
        ensures
            match r {
                Some(p) => p.desc().name@ == name@,
                None => forall|p: GlobalParam| (#[trigger] p.desc()).name@ != name@,
            },
            forall|p: GlobalParam| (#[trigger] p.desc()).name@ == name@ ==> r == Some(p),
    {
        for i in 0..GlobalParam::COUNT
            invariant
                forall|p: GlobalParam| p.index() < i ==> (#[trigger] p.desc()).name@ != name@,
        {
            proof {
                GlobalParam::lemma_from_index_inverts(i);
            }
            if let Some(p) = GlobalParam::from_index(i) {
                if same_text(p.desc().name, name) {
                    proof {
                        assert forall|q: GlobalParam| (#[trigger] q.desc()).name@
                            == name@ implies q == p by {
                            if q != p {
                                GlobalParam::lemma_names_differ(p, q);
                            }
                        }
                    }
                    return Some(p);
                }
                proof {
                    assert forall|q: GlobalParam| q.index() < i + 1 implies (#[trigger] q.desc()).name@
                        != name@ by {
                        q.lemma_index_roundtrips();
                    }
                }
            }
        }
        proof {
            assert forall|q: GlobalParam| (#[trigger] q.desc()).name@ != name@ by {
                q.lemma_index_roundtrips();
            }
        }
        None
    }

    /// Every parameter is found at its own index.
    pub proof fn lemma_index_roundtrips(self)
        ensures
            self.index() < GlobalParam::COUNT,
            GlobalParam::from_index(self.index()) == Some(self),
    {
    }

    /// Every index of the block has its parameter, and no other index has one.
    pub proof fn lemma_from_index_inverts(i: usize)
        ensures
            GlobalParam::from_index(i) is Some <==> i < GlobalParam::COUNT,
            i < GlobalParam::COUNT ==> GlobalParam::from_index(i)->0.index() == i,
    {
    }

    /// Every parameter has a usable range with its default inside.
    pub proof fn lemma_desc_wf(self)
        ensures
            self.desc().wf(),
    {
        reveal(GlobalParam::spec_desc);
    }

    /// No two parameters share a name, so a name finds its parameter.
    pub proof fn lemma_names_differ(p: GlobalParam, q: GlobalParam)
        requires
            p != q,
        ensures
            p.desc().name@ != q.desc().name@,
    {
        p.lemma_name_code();
        q.lemma_name_code();
    }

    spec fn code(self) -> int {
        match self {
            GlobalParam::MasterTune => 13656562507,
            GlobalParam::MasterVolume => 15804046157,
            GlobalParam::ChorusOn => 100554953,
            GlobalParam::ChorusRate => 13656545483,
            GlobalParam::ChorusDepth => 15669811404,
            GlobalParam::ChorusMix => 100554954,
            GlobalParam::DelayOn => 117192968,
            GlobalParam::DelayTime => 122435850,
            GlobalParam::DelayFeedback => 13261093134,
            GlobalParam::DelayMix => 115095817,
            GlobalParam::DelayPingPong => 15150627086,
            GlobalParam::DelaySync => 121387274,
            GlobalParam::ReverbOn => 100449417,
            GlobalParam::ReverbType => 13656439947,
            GlobalParam::ReverbDepth => 15669705868,
            GlobalParam::ReverbMix => 100449418,
            GlobalParam::LimiterOn => 120404746,
            GlobalParam::Oversample => 115235786,
            GlobalParam::Lfo2Shape => 109468426,
            GlobalParam::Lfo2Rate => 102128393,
            GlobalParam::Lfo2Sync => 127294217,
        }
    }

    #[verifier::rlimit(40)]
    proof fn lemma_name_code(self)
        ensures
            name_code(self.desc().name@) == self.code(),
    {
        reveal(GlobalParam::spec_desc);
        match self {
            GlobalParam::MasterTune => {
                reveal_strlit("master_tune");
            },
            GlobalParam::MasterVolume => {
                reveal_strlit("master_volume");
            },
            GlobalParam::ChorusOn => {
                reveal_strlit("chorus_on");
            },
            GlobalParam::ChorusRate => {
                reveal_strlit("chorus_rate");
            },
            GlobalParam::ChorusDepth => {
                reveal_strlit("chorus_depth");
            },
            GlobalParam::ChorusMix => {
                reveal_strlit("chorus_mix");
            },
            GlobalParam::DelayOn => {
                reveal_strlit("delay_on");
            },
            GlobalParam::DelayTime => {
                reveal_strlit("delay_time");
            },
            GlobalParam::DelayFeedback => {
                reveal_strlit("delay_feedback");
            },
            GlobalParam::DelayMix => {
                reveal_strlit("delay_mix");
            },
            GlobalParam::DelayPingPong => {
                reveal_strlit("delay_pingpong");
            },
            GlobalParam::DelaySync => {
                reveal_strlit("delay_sync");
            },
            GlobalParam::ReverbOn => {
                reveal_strlit("reverb_on");
            },
            GlobalParam::ReverbType => {
                reveal_strlit("reverb_type");
            },
            GlobalParam::ReverbDepth => {
                reveal_strlit("reverb_depth");
            },
            GlobalParam::ReverbMix => {
                reveal_strlit("reverb_mix");
            },
            GlobalParam::LimiterOn => {
                reveal_strlit("limiter_on");
            },
            GlobalParam::Oversample => {
                reveal_strlit("oversample");
            },
            GlobalParam::Lfo2Shape => {
                reveal_strlit("lfo2_shape");
            },
            GlobalParam::Lfo2Rate => {
                reveal_strlit("lfo2_rate");
            },
            GlobalParam::Lfo2Sync => {
                reveal_strlit("lfo2_sync");
            },
        }
    }
}

/// Parameters of one patch.
pub const PATCH_COUNT: usize = 66;

/// Global parameters.
pub const GLOBAL_COUNT: usize = 21;

/// All parameters: both layers' patches, then the global block.
pub const TOTAL_PARAMS: usize = 153;

/// A parameter of a layer's patch, or a global one.
#[derive(Clone, Copy, Debug, PartialEq, Eq, Structural)]
pub enum ParamRef {
    Patch(Layer, PatchParam),
    Global(GlobalParam),
}

pub open spec fn spec_patch_clap_id(layer: Layer, p: PatchParam) -> usize {
    (layer.index() * PATCH_COUNT + p.index()) as usize
}

/// The id of a patch parameter of a layer.
#[verifier::when_used_as_spec(spec_patch_clap_id)]
pub fn patch_clap_id(layer: Layer, p: PatchParam) -> (r: usize)
    ensures
        r == patch_clap_id(layer, p),
{
    layer.index() * PATCH_COUNT + p.index()
}

pub open spec fn spec_global_clap_id(g: GlobalParam) -> usize {
    (Layer::COUNT * PATCH_COUNT + g.index()) as usize
}

/// The id of a global parameter.
#[verifier::when_used_as_spec(spec_global_clap_id)]
pub fn global_clap_id(g: GlobalParam) -> (r: usize)
    ensures
        r == global_clap_id(g),
{
    Layer::COUNT * PATCH_COUNT + g.index()
}

pub open spec fn spec_param_ref(clap_id: usize) -> Option<ParamRef> {
    if clap_id < PATCH_COUNT {
        match PatchParam::from_index(clap_id) {
            Some(p) => Some(ParamRef::Patch(Layer::Upper, p)),
            None => None,
        }
    } else if clap_id < Layer::COUNT * PATCH_COUNT {
        match PatchParam::from_index((clap_id - PATCH_COUNT) as usize) {
            Some(p) => Some(ParamRef::Patch(Layer::Lower, p)),
            None => None,
        }
    } else if clap_id < TOTAL_PARAMS {
        match GlobalParam::from_index((clap_id - Layer::COUNT * PATCH_COUNT) as usize) {
            Some(g) => Some(ParamRef::Global(g)),
            None => None,
        }
    } else {
        None
    }
}

/// The parameter that an id stands for.
#[verifier::when_used_as_spec(spec_param_ref)]
pub fn param_ref(clap_id: usize) -> (r: Option<ParamRef>)
    ensures
        r == param_ref(clap_id),
{
    if clap_id < PATCH_COUNT {
        match PatchParam::from_index(clap_id) {
            Some(p) => Some(ParamRef::Patch(Layer::Upper, p)),
            None => None,
        }
    } else if clap_id < Layer::COUNT * PATCH_COUNT {
        match PatchParam::from_index(clap_id - PATCH_COUNT) {
            Some(p) => Some(ParamRef::Patch(Layer::Lower, p)),
            None => None,
        }
    } else if clap_id < TOTAL_PARAMS {
        match GlobalParam::from_index(clap_id - Layer::COUNT * PATCH_COUNT) {
            Some(g) => Some(ParamRef::Global(g)),
            None => None,
        }
    } else {
        None
    }
}

impl ParamRef {
    pub open spec fn spec_clap_id(self) -> usize {
        match self {
            ParamRef::Patch(layer, p) => patch_clap_id(layer, p),
            ParamRef::Global(g) => global_clap_id(g),
        }
    }

    /// The id that stands for the parameter.
    #[verifier::when_used_as_spec(spec_clap_id)]
    pub fn clap_id(self) -> (r: usize)
        ensures
            r == self.clap_id(),
    {
        match self {
            ParamRef::Patch(layer, p) => patch_clap_id(layer, p),
            ParamRef::Global(g) => global_clap_id(g),
        }
    }

    pub open spec fn spec_desc(self) -> ParamDesc {
        match self {
            ParamRef::Patch(_, p) => p.desc(),
            ParamRef::Global(g) => g.desc(),
        }
    }

    /// What the parameter is.
    #[verifier::when_used_as_spec(spec_desc)]
    pub fn desc(self) -> (r: ParamDesc)
        ensures
            r == self.desc(),
    {
        match self {
            ParamRef::Patch(_, p) => p.desc(),
            ParamRef::Global(g) => g.desc(),
        }
    }

    /// Every parameter has an id, and its id stands for it.
    pub proof fn lemma_clap_id_inverts(self)
        ensures
            self.clap_id() < TOTAL_PARAMS,
            param_ref(self.clap_id()) == Some(self),
    {
        match self {
            ParamRef::Patch(_, p) => p.lemma_index_roundtrips(),
            ParamRef::Global(g) => g.lemma_index_roundtrips(),
        }
    }

    /// Every parameter has a usable range with its default inside.
    pub proof fn lemma_desc_wf(self)
        ensures
            self.desc().wf(),
    {
        match self {
            ParamRef::Patch(_, p) => p.lemma_desc_wf(),
            ParamRef::Global(g) => g.lemma_desc_wf(),
        }
    }
}

/// The ids are exactly the numbers below [`TOTAL_PARAMS`]: each of them stands for
/// one parameter, whose id it is.
pub proof fn lemma_clap_ids_are_contiguous(id: usize)
    ensures
        param_ref(id) is Some <==> id < TOTAL_PARAMS,
        id < TOTAL_PARAMS ==> param_ref(id)->0.clap_id() == id,
{
    PatchParam::lemma_from_index_inverts(id);
    if id >= PATCH_COUNT {
        PatchParam::lemma_from_index_inverts((id - PATCH_COUNT) as usize);
    }
    if id >= 2 * PATCH_COUNT {
        GlobalParam::lemma_from_index_inverts((id - 2 * PATCH_COUNT) as usize);
    }
}

pub open spec fn spec_desc_for_clap_id(clap_id: usize) -> Option<ParamDesc> {
    match param_ref(clap_id) {
        Some(r) => Some(r.desc()),
        None => None,
    }
}

/// What the parameter with an id is.
#[verifier::when_used_as_spec(spec_desc_for_clap_id)]
pub fn desc_for_clap_id(clap_id: usize) -> (r: Option<ParamDesc>)
    ensures
        r == desc_for_clap_id(clap_id),
        r is Some <==> clap_id < TOTAL_PARAMS,
        r matches Some(d) ==> d.wf(),
{
    proof {
        lemma_clap_ids_are_contiguous(clap_id);
    }
    match param_ref(clap_id) {
        Some(r) => {
            proof {
                r.lemma_desc_wf();
            }
            Some(r.desc())
        },
        None => None,
    }
}

pub open spec fn spec_module_for_clap_id(clap_id: usize) -> &'static str {
    match param_ref(clap_id) {
        Some(ParamRef::Patch(Layer::Upper, _)) => "Upper",
        Some(ParamRef::Patch(Layer::Lower, _)) => "Lower",
        Some(ParamRef::Global(_)) => "Global",
        None => "",
    }
}

/// The module that a parameter is shown under.
#[verifier::when_used_as_spec(spec_module_for_clap_id)]
pub fn module_for_clap_id(clap_id: usize) -> (r: &'static str)
    ensures
        r == module_for_clap_id(clap_id),
{
    match param_ref(clap_id) {
        Some(ParamRef::Patch(Layer::Upper, _)) => "Upper",
        Some(ParamRef::Patch(Layer::Lower, _)) => "Lower",
        Some(ParamRef::Global(_)) => "Global",
        None => "",
    }
}

} // verus!
