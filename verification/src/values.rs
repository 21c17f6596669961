//! Parameter values, in plain units, with typed readers.
use crate::adsr::AdsrShape;
use crate::choices::{AssignMode, CrossModType, EnvSel, LfoSel};
use crate::domain::Layer;
use crate::lfo::LfoShape;
use crate::noise::NoiseColor;
use crate::nums::{HALF, ONE, ZERO};
use crate::oscillator::Waveform;
use crate::params::{
    self, param_ref, GlobalParam, Labels, ParamRef, PatchParam, GLOBAL_COUNT, PATCH_COUNT, TOTAL_PARAMS,
};
use crate::plain::{num, Plain};
use crate::poly::{FilterMode, FilterSlope};
use crate::reverb_macro::ReverbType;
use vstd::prelude::*;

verus! {

broadcast use crate::plain::group_by_rank;

pub open spec fn spec_enum_index(value: Plain, max: usize) -> usize {
    let i: usize = value.round_index();
    if i < max {
        i
    } else {
        max
    }
}

/// The nearest index to a value, at most `max`.
#[verifier::when_used_as_spec(spec_enum_index)]
pub fn enum_index(value: Plain, max: usize) -> (r: usize)
    ensures
        r == enum_index(value, max),
{
    let i: usize = value.round_index();
    if i < max {
        i
    } else {
        max
    }
}

/// The values of one patch, in plain units.
#[derive(Clone, Copy)]
pub struct PatchValues {
    pub v: [Plain; PATCH_COUNT],
}

impl Default for PatchValues {
    fn default() -> (r: Self)
        ensures
            r.wf(),
            forall|p: PatchParam| #[trigger] r.get(p) == p.desc().default,
    {
        let mut r = PatchValues { v: [Plain { bits: ZERO };PATCH_COUNT] };
        for i in 0..PATCH_COUNT
            invariant
                forall|p: PatchParam| p.index() < i ==> #[trigger] r.get(p) == p.desc().default,
        {
            proof {
                PatchParam::lemma_from_index_inverts(i);
            }
            if let Some(q) = PatchParam::from_index(i) {
                let ghost before = r;
                r.v[i] = q.desc().default;
                proof {
                    assert forall|p: PatchParam| p.index() < i + 1 implies #[trigger] r.get(p)
                        == p.desc().default by {
                        p.lemma_index_roundtrips();
                        if p.index() < i {
                            assert(before.get(p) == p.desc().default);
                        }
                    }
                }
            }
        }
        proof {
            assert forall|p: PatchParam| #[trigger] r.get(p) == p.desc().default by {
                p.lemma_index_roundtrips();
            }
            assert forall|p: PatchParam| p.desc().in_range(#[trigger] r.get(p)) by {
                p.lemma_desc_wf();
            }
        }
        r
    }
}

impl PatchValues {
    /// Every value is in its parameter's range, or a NaN.
    pub open spec fn wf(&self) -> bool {
        forall|p: PatchParam| p.desc().in_range(#[trigger] self.get(p))
    }

    pub open spec fn spec_get(&self, p: PatchParam) -> Plain {
        self.v@[p.index() as int]
    }

    #[verifier::when_used_as_spec(spec_get)]
    pub fn get(&self, p: PatchParam) -> (r: Plain)
        ensures
            r == self.get(p),
    {
        self.v[p.index()]
    }

    pub fn get_index(&self, index: usize) -> (r: Plain)
        requires
            index < PATCH_COUNT,
        ensures
            r == self.v@[index as int],
    {
        self.v[index]
    }

    /// Store a value, clamped to the parameter's range. The others stay.
    pub fn set(&mut self, p: PatchParam, value: Plain)
        ensures
            forall|q: PatchParam| #[trigger] final(self).get(q) == (if q == p {
                p.desc().clamp(value)
            } else {
                old(self).get(q)
            }),
            old(self).wf() ==> final(self).wf(),
    {
        proof {
            p.lemma_desc_wf();
            p.desc().lemma_clamp_in_range(value);
        }
        let i: usize = p.index();
        self.v[i] = p.desc().clamp(value);
        proof {
            assert forall|q: PatchParam| #[trigger] self.get(q) == (if q == p {
                p.desc().clamp(value)
            } else {
                old(self).get(q)
            }) by {
                q.lemma_index_roundtrips();
                p.lemma_index_roundtrips();
            }
        }
    }

    /// Store a value by index. An index past the end is ignored.
    pub fn set_index(&mut self, index: usize, value: Plain)
        ensures
            match PatchParam::from_index(index) {
                Some(p) => forall|q: PatchParam| #[trigger] final(self).get(q) == (if q == p {
                    p.desc().clamp(value)
                } else {
                    old(self).get(q)
                }),
                None => *final(self) == *old(self),
            },
            old(self).wf() ==> final(self).wf(),
    {
        if let Some(p) = PatchParam::from_index(index) {
            self.set(p, value);
        }
    }

    pub open spec fn spec_bool(&self, p: PatchParam) -> bool {
        num(HALF).at_most(self.get(p))
    }

    /// Whether a switch is on.
    #[verifier::when_used_as_spec(spec_bool)]
    pub fn bool(&self, p: PatchParam) -> (r: bool)
        ensures
            r == self.bool(p),
    {
        num(HALF).at_most(self.get(p))
    }

    pub open spec fn spec_osc_wave(&self, p: PatchParam) -> Waveform {
        match enum_index(self.get(p), 3) {
            0 => Waveform::Sine,
            1 => Waveform::Triangle,
            2 => Waveform::Saw,
            _ => Waveform::Pulse,
        }
    }

    /// The waveform that a parameter selects.
    #[verifier::when_used_as_spec(spec_osc_wave)]
    pub fn osc_wave(&self, p: PatchParam) -> (r: Waveform)
        ensures
            r == self.osc_wave(p),
    {
        match enum_index(self.get(p), 3) {
            0 => Waveform::Sine,
            1 => Waveform::Triangle,
            2 => Waveform::Saw,
            _ => Waveform::Pulse,
        }
    }

    pub open spec fn spec_filter_mode(&self) -> FilterMode {
        match enum_index(self.get(PatchParam::FilterMode), 3) {
            0 => FilterMode::Lp,
            1 => FilterMode::Hp,
            2 => FilterMode::Bp,
            _ => FilterMode::Notch,
        }
    }

    /// The filter response.
    #[verifier::when_used_as_spec(spec_filter_mode)]
    pub fn filter_mode(&self) -> (r: FilterMode)
        ensures
            r == self.filter_mode(),
    {
        match enum_index(self.get(PatchParam::FilterMode), 3) {
            0 => FilterMode::Lp,
            1 => FilterMode::Hp,
            2 => FilterMode::Bp,
            _ => FilterMode::Notch,
        }
    }

    pub open spec fn spec_filter_slope(&self) -> FilterSlope {
        if enum_index(self.get(PatchParam::FilterSlope), 1) == 0 {
            FilterSlope::Pole2
        } else {
            FilterSlope::Pole4
        }
    }

    /// The filter slope.
    #[verifier::when_used_as_spec(spec_filter_slope)]
    pub fn filter_slope(&self) -> (r: FilterSlope)
        ensures
            r == self.filter_slope(),
    {
        if enum_index(self.get(PatchParam::FilterSlope), 1) == 0 {
            FilterSlope::Pole2
        } else {
            FilterSlope::Pole4
        }
    }

    pub open spec fn spec_noise_color(&self) -> NoiseColor {
        match enum_index(self.get(PatchParam::NoiseColor), 2) {
            0 => NoiseColor::White,
            1 => NoiseColor::Pink,
            _ => NoiseColor::Brown,
        }
    }

    /// The noise colour.
    #[verifier::when_used_as_spec(spec_noise_color)]
    pub fn noise_color(&self) -> (r: NoiseColor)
        ensures
            r == self.noise_color(),
    {
        match enum_index(self.get(PatchParam::NoiseColor), 2) {
            0 => NoiseColor::White,
            1 => NoiseColor::Pink,
            _ => NoiseColor::Brown,
        }
    }

    pub open spec fn spec_lfo_shape(&self) -> LfoShape {
        match enum_index(self.get(PatchParam::LfoShape), 5) {
            0 => LfoShape::Sine,
            1 => LfoShape::Triangle,
            2 => LfoShape::SawUp,
            3 => LfoShape::SawDown,
            4 => LfoShape::Square,
            _ => LfoShape::Random,
        }
    }

    /// The shape of LFO 1.
    #[verifier::when_used_as_spec(spec_lfo_shape)]
    pub fn lfo_shape(&self) -> (r: LfoShape)
        ensures
            r == self.lfo_shape(),
    {
        match enum_index(self.get(PatchParam::LfoShape), 5) {
            0 => LfoShape::Sine,
            1 => LfoShape::Triangle,
            2 => LfoShape::SawUp,
            3 => LfoShape::SawDown,
            4 => LfoShape::Square,
            _ => LfoShape::Random,
        }
    }

    pub open spec fn spec_assign_mode(&self) -> AssignMode {
        AssignMode::from_index(enum_index(self.get(PatchParam::AssignMode), 3))
    }

    /// The voice assignment.
    #[verifier::when_used_as_spec(spec_assign_mode)]
    pub fn assign_mode(&self) -> (r: AssignMode)
        ensures
            r == self.assign_mode(),
    {
        AssignMode::from_index(enum_index(self.get(PatchParam::AssignMode), 3))
    }

    pub open spec fn spec_legato(&self) -> bool {
        self.bool(PatchParam::Legato)
    }

    /// Whether overlapping notes are slurred.
    #[verifier::when_used_as_spec(spec_legato)]
    pub fn legato(&self) -> (r: bool)
        ensures
            r == self.legato(),
    {
        self.bool(PatchParam::Legato)
    }

    pub open spec fn spec_lfo_sel(&self, p: PatchParam) -> LfoSel {
        LfoSel::from_index(enum_index(self.get(p), 2))
    }

    /// The LFO that a route reads.
    #[verifier::when_used_as_spec(spec_lfo_sel)]
    pub fn lfo_sel(&self, p: PatchParam) -> (r: LfoSel)
        ensures
            r == self.lfo_sel(p),
    {
        LfoSel::from_index(enum_index(self.get(p), 2))
    }

    pub open spec fn spec_env_sel(&self, p: PatchParam) -> EnvSel {
        EnvSel::from_index(enum_index(self.get(p), 2))
    }

    /// The envelope that a route reads.
    #[verifier::when_used_as_spec(spec_env_sel)]
    pub fn env_sel(&self, p: PatchParam) -> (r: EnvSel)
        ensures
            r == self.env_sel(p),
    {
        EnvSel::from_index(enum_index(self.get(p), 2))
    }

    pub open spec fn spec_cross_mod_type(&self) -> CrossModType {
        CrossModType::from_index(enum_index(self.get(PatchParam::CrossModType), 3))
    }

    /// The oscillator interaction.
    #[verifier::when_used_as_spec(spec_cross_mod_type)]
    pub fn cross_mod_type(&self) -> (r: CrossModType)
        ensures
            r == self.cross_mod_type(),
    {
        CrossModType::from_index(enum_index(self.get(PatchParam::CrossModType), 3))
    }

    pub open spec fn spec_adsr_shape(&self, p: PatchParam) -> AdsrShape {
        if enum_index(self.get(p), 1) == 0 {
            AdsrShape::Linear
        } else {
            AdsrShape::Exponential
        }
    }

    /// The envelope shape that a parameter selects.
    #[verifier::when_used_as_spec(spec_adsr_shape)]
    pub fn adsr_shape(&self, p: PatchParam) -> (r: AdsrShape)
        ensures
            r == self.adsr_shape(p),
    {
        if enum_index(self.get(p), 1) == 0 {
            AdsrShape::Linear
        } else {
            AdsrShape::Exponential
        }
    }

    pub open spec fn spec_env1_shape(&self) -> AdsrShape {
        self.adsr_shape(PatchParam::Env1Shape)
    }

    /// The shape of envelope 1.
    #[verifier::when_used_as_spec(spec_env1_shape)]
    pub fn env1_shape(&self) -> (r: AdsrShape)
        ensures
            r == self.env1_shape(),
    {
        self.adsr_shape(PatchParam::Env1Shape)
    }

    pub open spec fn spec_env2_shape(&self) -> AdsrShape {
        self.adsr_shape(PatchParam::Env2Shape)
    }

    /// The shape of envelope 2.
    #[verifier::when_used_as_spec(spec_env2_shape)]
    pub fn env2_shape(&self) -> (r: AdsrShape)
        ensures
            r == self.env2_shape(),
    {
        self.adsr_shape(PatchParam::Env2Shape)
    }
}

/// The global values: master, effects and oversampling.
#[derive(Clone, Copy)]
pub struct GlobalValues {
    pub v: [Plain; GLOBAL_COUNT],
}

impl Default for GlobalValues {
    fn default() -> (r: Self)
        ensures
            r.wf(),
            forall|p: GlobalParam| #[trigger] r.get(p) == p.desc().default,
    {
        let mut r = GlobalValues { v: [Plain { bits: ZERO };GLOBAL_COUNT] };
        for i in 0..GLOBAL_COUNT
            invariant
                forall|p: GlobalParam| p.index() < i ==> #[trigger] r.get(p) == p.desc().default,
        {
            proof {
                GlobalParam::lemma_from_index_inverts(i);
            }
            if let Some(q) = GlobalParam::from_index(i) {
                let ghost before = r;
                r.v[i] = q.desc().default;
                proof {
                    assert forall|p: GlobalParam| p.index() < i + 1 implies #[trigger] r.get(p)
                        == p.desc().default by {
                        p.lemma_index_roundtrips();
                        if p.index() < i {
                            assert(before.get(p) == p.desc().default);
                        }
                    }
                }
            }
        }
        proof {
            assert forall|p: GlobalParam| #[trigger] r.get(p) == p.desc().default by {
                p.lemma_index_roundtrips();
            }
            assert forall|p: GlobalParam| p.desc().in_range(#[trigger] r.get(p)) by {
                p.lemma_desc_wf();
            }
        }
        r
    }
}

impl GlobalValues {
    /// Every value is in its parameter's range, or a NaN.
    pub open spec fn wf(&self) -> bool {
        forall|p: GlobalParam| p.desc().in_range(#[trigger] self.get(p))
    }

    pub open spec fn spec_get(&self, p: GlobalParam) -> Plain {
        self.v@[p.index() as int]
    }

    #[verifier::when_used_as_spec(spec_get)]
    pub fn get(&self, p: GlobalParam) -> (r: Plain)
        ensures
            r == self.get(p),
    {
        self.v[p.index()]
    }

    pub fn get_index(&self, index: usize) -> (r: Plain)
        requires
            index < GLOBAL_COUNT,
        ensures
            r == self.v@[index as int],
    {
        self.v[index]
    }

    /// Store a value, clamped to the parameter's range. The others stay.
    pub fn set(&mut self, p: GlobalParam, value: Plain)
        ensures
            forall|q: GlobalParam| #[trigger] final(self).get(q) == (if q == p {
                p.desc().clamp(value)
            } else {
                old(self).get(q)
            }),
            old(self).wf() ==> final(self).wf(),
    {
        proof {
            p.lemma_desc_wf();
            p.desc().lemma_clamp_in_range(value);
        }
        let i: usize = p.index();
        self.v[i] = p.desc().clamp(value);
        proof {
            assert forall|q: GlobalParam| #[trigger] self.get(q) == (if q == p {
                p.desc().clamp(value)
            } else {
                old(self).get(q)
            }) by {
                q.lemma_index_roundtrips();
                p.lemma_index_roundtrips();
            }
        }
    }

    /// Store a value by index. An index past the end is ignored.
    pub fn set_index(&mut self, index: usize, value: Plain)
        ensures
            match GlobalParam::from_index(index) {
                Some(p) => forall|q: GlobalParam| #[trigger] final(self).get(q) == (if q == p {
                    p.desc().clamp(value)
                } else {
                    old(self).get(q)
                }),
                None => *final(self) == *old(self),
            },
            old(self).wf() ==> final(self).wf(),
    {
        if let Some(p) = GlobalParam::from_index(index) {
            self.set(p, value);
        }
    }

    pub open spec fn spec_bool(&self, p: GlobalParam) -> bool {
        num(HALF).at_most(self.get(p))
    }

    /// Whether a switch is on.
    #[verifier::when_used_as_spec(spec_bool)]
    pub fn bool(&self, p: GlobalParam) -> (r: bool)
        ensures
            r == self.bool(p),
    {
        num(HALF).at_most(self.get(p))
    }

    pub open spec fn spec_oversample_factor(&self) -> usize {
        match enum_index(self.get(GlobalParam::Oversample), 3) {
            0 => 1,
            1 => 2,
            2 => 4,
            _ => 8,
        }
    }

    /// The oversampling factor: 1, 2, 4 or 8.
    #[verifier::when_used_as_spec(spec_oversample_factor)]
    pub fn oversample_factor(&self) -> (r: usize)
        ensures
            r == self.oversample_factor(),
    {
        match enum_index(self.get(GlobalParam::Oversample), 3) {
            0 => 1,
            1 => 2,
            2 => 4,
            _ => 8,
        }
    }

    pub open spec fn spec_lfo2_shape(&self) -> LfoShape {
        match enum_index(self.get(GlobalParam::Lfo2Shape), 5) {
            0 => LfoShape::Sine,
            1 => LfoShape::Triangle,
            2 => LfoShape::SawUp,
            3 => LfoShape::SawDown,
            4 => LfoShape::Square,
            _ => LfoShape::Random,
        }
    }

    /// The shape of LFO 2.
    #[verifier::when_used_as_spec(spec_lfo2_shape)]
    pub fn lfo2_shape(&self) -> (r: LfoShape)
        ensures
            r == self.lfo2_shape(),
    {
        match enum_index(self.get(GlobalParam::Lfo2Shape), 5) {
            0 => LfoShape::Sine,
            1 => LfoShape::Triangle,
            2 => LfoShape::SawUp,
            3 => LfoShape::SawDown,
            4 => LfoShape::Square,
            _ => LfoShape::Random,
        }
    }

    pub open spec fn spec_reverb_type(&self) -> ReverbType {
        ReverbType::from_index(enum_index(self.get(GlobalParam::ReverbType), 3))
    }

    /// The reverb type.
    #[verifier::when_used_as_spec(spec_reverb_type)]
    pub fn reverb_type(&self) -> (r: ReverbType)
        ensures
            r == self.reverb_type(),
    {
        ReverbType::from_index(enum_index(self.get(GlobalParam::ReverbType), 3))
    }
}

/// The complete value set: two patches and the global block.
#[derive(Clone, Copy)]
pub struct ParamValues {
    pub upper: PatchValues,
    pub lower: PatchValues,
    pub global: GlobalValues,
}

impl Default for ParamValues {
    fn default() -> (r: Self)
        ensures
            r.wf(),
            forall|p: ParamRef| #[trigger] r.at(p) == p.desc().default,
    {
        ParamValues {
            upper: PatchValues::default(),
            lower: PatchValues::default(),
            global: GlobalValues::default(),
        }
    }
}

impl ParamValues {
    pub open spec fn wf(&self) -> bool {
        self.upper.wf() && self.lower.wf() && self.global.wf()
    }

    /// The value of a parameter.
    pub open spec fn at(&self, p: ParamRef) -> Plain {
        match p {
            ParamRef::Patch(layer, q) => self.layer(layer).get(q),
            ParamRef::Global(g) => self.global.get(g),
        }
    }

    pub open spec fn spec_layer(&self, layer: Layer) -> &PatchValues {
        match layer {
            Layer::Upper => &self.upper,
            Layer::Lower => &self.lower,
        }
    }

    #[verifier::when_used_as_spec(spec_layer)]
    pub fn layer(&self, layer: Layer) -> (r: &PatchValues)
        ensures
            r == self.layer(layer),
    {
        match layer {
            Layer::Upper => &self.upper,
            Layer::Lower => &self.lower,
        }
    }

    pub fn layer_mut(&mut self, layer: Layer) -> (r: &mut PatchValues)
        ensures
            *r == *old(self).layer(layer),
            *final(self).layer(layer) == *final(r),
            forall|other: Layer| other != layer ==> *(#[trigger] final(self).layer(other)) == *old(
                self,
            ).layer(other),
            final(self).global == old(self).global,
    {
        match layer {
            Layer::Upper => &mut self.upper,
            Layer::Lower => &mut self.lower,
        }
    }

    pub fn global(&self) -> (r: &GlobalValues)
        ensures
            *r == self.global,
    {
        &self.global
    }

    pub fn global_mut(&mut self) -> (r: &mut GlobalValues)
        ensures
            *r == old(self).global,
            final(self).global == *final(r),
            final(self).upper == old(self).upper,
            final(self).lower == old(self).lower,
    {
        &mut self.global
    }

    pub open spec fn spec_get_by_clap_id(&self, clap_id: usize) -> Plain {
        match param_ref(clap_id) {
            Some(p) => self.at(p),
            None => num(ZERO),
        }
    }

    /// The value with an id; zero for an id that stands for nothing.
    #[verifier::when_used_as_spec(spec_get_by_clap_id)]
    pub fn get_by_clap_id(&self, clap_id: usize) -> (r: Plain)
        ensures
            r == self.get_by_clap_id(clap_id),
    {
        match param_ref(clap_id) {
            Some(ParamRef::Patch(layer, p)) => self.layer(layer).get(p),
            Some(ParamRef::Global(g)) => self.global.get(g),
            None => num(ZERO),
        }
    }

    /// One value stored, clamped to its range; nothing for an id that stands for nothing.
    pub open spec fn is_set(
        pre: &ParamValues,
        post: &ParamValues,
        clap_id: usize,
        value: Plain,
    ) -> bool {
        match param_ref(clap_id) {
            Some(p) => forall|q: ParamRef| #[trigger] post.at(q) == (if q == p {
                p.desc().clamp(value)
            } else {
                pre.at(q)
            }),
            None => *post == *pre,
        }
    }

    /// Store a value by id, clamped to its range. An id that stands for nothing is
    /// ignored.
    pub fn set_by_clap_id(&mut self, clap_id: usize, value: Plain)
        ensures
            ParamValues::is_set(old(self), final(self), clap_id, value),
            old(self).wf() ==> final(self).wf(),
    {
        match param_ref(clap_id) {
            Some(ParamRef::Patch(Layer::Upper, p)) => self.upper.set(p, value),
            Some(ParamRef::Patch(Layer::Lower, p)) => self.lower.set(p, value),
            Some(ParamRef::Global(g)) => self.global.set(g, value),
            None => {},
        }
    }
}

/// A value that is stored by id reads back by that id, clamped to its range. No other value
/// moves.
pub proof fn lemma_write_reads_back(
    pre: &ParamValues,
    post: &ParamValues,
    id: usize,
    value: Plain,
    other: usize,
)
    requires
        id < TOTAL_PARAMS,
        ParamValues::is_set(pre, post, id, value),
    ensures
        post.get_by_clap_id(id) == param_ref(id)->0.desc().clamp(value),
        other != id ==> post.get_by_clap_id(other) == pre.get_by_clap_id(other),
{
    params::lemma_clap_ids_are_contiguous(id);
    if other < TOTAL_PARAMS {
        params::lemma_clap_ids_are_contiguous(other);
    }
}

/// Two value sets that agree on every parameter read the same under every id.
pub proof fn lemma_ids_cover_values(a: &ParamValues, b: &ParamValues)
    requires
        forall|id: usize|
            id < TOTAL_PARAMS ==> #[trigger] a.get_by_clap_id(id) == b.get_by_clap_id(id),
    ensures
        forall|p: ParamRef| #[trigger] a.at(p) == b.at(p),
{
    assert forall|p: ParamRef| #[trigger] a.at(p) == b.at(p) by {
        p.lemma_clap_id_inverts();
        assert(a.get_by_clap_id(p.clap_id()) == b.get_by_clap_id(p.clap_id()));
    }
}

/// What the list of an oscillator, an LFO or the noise shows at the nearest index is the name of
/// what is then heard.
pub proof fn lemma_names_shown_are_heard(v: &PatchValues, g: &GlobalValues, p: PatchParam)
    ensures
        v.get(p).round_index() < Labels::Wave.len() ==> v.osc_wave(p).label() == Labels::Wave.label(
            v.get(p).round_index(),
        ),
        v.get(PatchParam::LfoShape).round_index() < Labels::Lfo.len() ==> v.lfo_shape().label()
            == Labels::Lfo.label(v.get(PatchParam::LfoShape).round_index()),
        g.get(GlobalParam::Lfo2Shape).round_index() < Labels::Lfo.len() ==> g.lfo2_shape().label()
            == Labels::Lfo.label(g.get(GlobalParam::Lfo2Shape).round_index()),
        v.get(PatchParam::NoiseColor).round_index() < Labels::Noise.len()
            ==> v.noise_color().label() == Labels::Noise.label(
            v.get(PatchParam::NoiseColor).round_index(),
        ),
{
}

/// The filter does what its lists show: the response and the slope that stand at the nearest
/// index.
pub proof fn lemma_filter_lists(v: &PatchValues)
    ensures
        ({
            let shown = Labels::FilterMode.label(v.get(PatchParam::FilterMode).round_index())@;
            &&& shown == "LP"@ ==> v.filter_mode() == FilterMode::Lp
            &&& shown == "HP"@ ==> v.filter_mode() == FilterMode::Hp
            &&& shown == "BP"@ ==> v.filter_mode() == FilterMode::Bp
            &&& shown == "Notch"@ ==> v.filter_mode() == FilterMode::Notch
        }),
        ({
            let shown = Labels::Slope.label(v.get(PatchParam::FilterSlope).round_index())@;
            &&& shown == "12"@ ==> v.filter_slope() == FilterSlope::Pole2
            &&& shown == "24"@ ==> v.filter_slope() == FilterSlope::Pole4
        }),
{
    reveal_strlit("LP");
    reveal_strlit("HP");
    reveal_strlit("BP");
    reveal_strlit("Notch");
    reveal_strlit("12");
    reveal_strlit("24");
    lemma_apart("LP"@, "HP"@, 0);
    lemma_apart("LP"@, "BP"@, 0);
    lemma_apart("HP"@, "BP"@, 0);
    lemma_apart("LP"@, "Notch"@, 0);
    lemma_apart("HP"@, "Notch"@, 0);
    lemma_apart("BP"@, "Notch"@, 0);
    lemma_apart("12"@, "24"@, 0);
}

/// The envelopes, the routes, the oscillators and the voices do what their lists show at the
/// nearest index.
pub proof fn lemma_patch_lists(v: &PatchValues, p: PatchParam)
    ensures
        ({
            let shown = Labels::Shape.label(v.get(p).round_index())@;
            &&& shown == "Lin"@ ==> v.adsr_shape(p) == AdsrShape::Linear
            &&& shown == "Exp"@ ==> v.adsr_shape(p) == AdsrShape::Exponential
        }),
        ({
            let shown = Labels::LfoSel.label(v.get(p).round_index())@;
            &&& shown == "Off"@ ==> v.lfo_sel(p) == LfoSel::Off
            &&& shown == "LFO 1"@ ==> v.lfo_sel(p) == LfoSel::Lfo1
            &&& shown == "LFO 2"@ ==> v.lfo_sel(p) == LfoSel::Lfo2
        }),
        ({
            let shown = Labels::EnvSel.label(v.get(p).round_index())@;
            &&& shown == "Off"@ ==> v.env_sel(p) == EnvSel::Off
            &&& shown == "Env 1"@ ==> v.env_sel(p) == EnvSel::Env1
            &&& shown == "Env 2"@ ==> v.env_sel(p) == EnvSel::Env2
        }),
        ({
            let shown = Labels::CrossMod.label(v.get(PatchParam::CrossModType).round_index())@;
            &&& shown == "Off"@ ==> v.cross_mod_type() == CrossModType::Off
            &&& shown == "Sync"@ ==> v.cross_mod_type() == CrossModType::Sync
            &&& shown == "FM"@ ==> v.cross_mod_type() == CrossModType::Pm
            &&& shown == "Ring"@ ==> v.cross_mod_type() == CrossModType::Ring
        }),
        ({
            let shown = Labels::Assign.label(v.get(PatchParam::AssignMode).round_index())@;
            &&& shown == "Poly"@ ==> v.assign_mode() == AssignMode::Poly
            &&& shown == "Unison"@ ==> v.assign_mode() == AssignMode::Unison
            &&& shown == "Solo"@ ==> v.assign_mode() == AssignMode::Solo
            &&& shown == "Twin"@ ==> v.assign_mode() == AssignMode::Twin
        }),
{
    reveal_strlit("Lin");
    reveal_strlit("Exp");
    reveal_strlit("Off");
    reveal_strlit("LFO 1");
    reveal_strlit("LFO 2");
    reveal_strlit("Env 1");
    reveal_strlit("Env 2");
    reveal_strlit("Sync");
    reveal_strlit("FM");
    reveal_strlit("Ring");
    reveal_strlit("Poly");
    reveal_strlit("Unison");
    reveal_strlit("Solo");
    reveal_strlit("Twin");
    lemma_apart("Lin"@, "Exp"@, 0);
    lemma_apart("Off"@, "LFO 1"@, 0);
    lemma_apart("Off"@, "LFO 2"@, 0);
    lemma_apart("LFO 1"@, "LFO 2"@, 4);
    lemma_apart("Off"@, "Env 1"@, 0);
    lemma_apart("Off"@, "Env 2"@, 0);
    lemma_apart("Env 1"@, "Env 2"@, 4);
    lemma_apart("Off"@, "Sync"@, 0);
    lemma_apart("Off"@, "FM"@, 0);
    lemma_apart("Off"@, "Ring"@, 0);
    lemma_apart("Sync"@, "FM"@, 0);
    lemma_apart("Sync"@, "Ring"@, 0);
    lemma_apart("FM"@, "Ring"@, 0);
    lemma_apart("Poly"@, "Unison"@, 0);
    lemma_apart("Poly"@, "Solo"@, 0);
    lemma_apart("Poly"@, "Twin"@, 0);
    lemma_apart("Unison"@, "Solo"@, 0);
    lemma_apart("Unison"@, "Twin"@, 0);
    lemma_apart("Solo"@, "Twin"@, 0);
}

/// The oversampling and the reverb do what their lists show at the nearest index.
pub proof fn lemma_global_lists(g: &GlobalValues)
    ensures
        ({
            let shown = Labels::Oversample.label(g.get(GlobalParam::Oversample).round_index())@;
            &&& shown == "O/S OFF"@ ==> g.oversample_factor() == 1
            &&& shown == "2x"@ ==> g.oversample_factor() == 2
            &&& shown == "4x"@ ==> g.oversample_factor() == 4
            &&& shown == "8x"@ ==> g.oversample_factor() == 8
        }),
        ({
            let shown = Labels::ReverbType.label(g.get(GlobalParam::ReverbType).round_index())@;
            &&& shown == "Plate"@ ==> g.reverb_type() == ReverbType::Plate
            &&& shown == "Room"@ ==> g.reverb_type() == ReverbType::Room
            &&& shown == "Hall"@ ==> g.reverb_type() == ReverbType::Hall
            &&& shown == "Large"@ ==> g.reverb_type() == ReverbType::Large
        }),
{
    reveal_strlit("O/S OFF");
    reveal_strlit("2x");
    reveal_strlit("4x");
    reveal_strlit("8x");
    reveal_strlit("Plate");
    reveal_strlit("Room");
    reveal_strlit("Hall");
    reveal_strlit("Large");
    lemma_apart("O/S OFF"@, "2x"@, 0);
    lemma_apart("O/S OFF"@, "4x"@, 0);
    lemma_apart("O/S OFF"@, "8x"@, 0);
    lemma_apart("2x"@, "4x"@, 0);
    lemma_apart("2x"@, "8x"@, 0);
    lemma_apart("4x"@, "8x"@, 0);
    lemma_apart("Plate"@, "Room"@, 0);
    lemma_apart("Plate"@, "Hall"@, 0);
    lemma_apart("Plate"@, "Large"@, 0);
    lemma_apart("Room"@, "Hall"@, 0);
    lemma_apart("Room"@, "Large"@, 0);
    lemma_apart("Hall"@, "Large"@, 0);
}

/// Two texts that differ in one place are not the same.
proof fn lemma_apart(a: Seq<char>, b: Seq<char>, i: int)
    requires
        0 <= i < a.len() && i < b.len(),
        a[i] != b[i],
    ensures
        a != b,
{
}

/// A switch is off at nothing and on at one, and a higher value never turns it off.
pub proof fn lemma_switches(v: &PatchValues, g: &GlobalValues, p: PatchParam, q: GlobalParam)
    ensures
        v.get(p).is_zero() ==> !v.bool(p),
        num(ONE).at_most(v.get(p)) ==> v.bool(p),
        g.get(q).is_zero() ==> !g.bool(q),
        num(ONE).at_most(g.get(q)) ==> g.bool(q),
{
}

} // verus!
