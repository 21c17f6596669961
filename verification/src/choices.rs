//! Values that a parameter selects among.
use vstd::prelude::*;

verus! {

/// Per-layer voice assignment.
#[derive(Clone, Copy, Debug, PartialEq, Eq, Structural)]
pub enum AssignMode {
    Poly,
    Unison,
    Solo,
    Twin,
}

impl Default for AssignMode {
    fn default() -> (r: Self)
        ensures
            r == AssignMode::Poly,
    {
        AssignMode::Poly
    }
}

impl AssignMode {
    pub const COUNT: usize = 4;

    pub open spec fn spec_from_index(i: usize) -> Self {
        match i {
            1 => AssignMode::Unison,
            2 => AssignMode::Solo,
            3 => AssignMode::Twin,
            _ => AssignMode::Poly,
        }
    }

    /// The variant at index `i`, the first one for indices past the end.
    #[verifier::when_used_as_spec(spec_from_index)]
    pub fn from_index(i: usize) -> (r: Self)
        ensures
            r == AssignMode::from_index(i),
    {
        match i {
            1 => AssignMode::Unison,
            2 => AssignMode::Solo,
            3 => AssignMode::Twin,
            _ => AssignMode::Poly,
        }
    }

    pub open spec fn spec_index(self) -> usize {
        match self {
            AssignMode::Poly => 0,
            AssignMode::Unison => 1,
            AssignMode::Solo => 2,
            AssignMode::Twin => 3,
        }
    }

    /// The index of the variant.
    #[verifier::when_used_as_spec(spec_index)]
    pub fn index(self) -> (r: usize)
        ensures
            r == self.index(),
            r < AssignMode::COUNT,
    {
        match self {
            AssignMode::Poly => 0,
            AssignMode::Unison => 1,
            AssignMode::Solo => 2,
            AssignMode::Twin => 3,
        }
    }

    /// Every variant, in the order of the indices.
    pub fn all() -> (r: [AssignMode; 4])
        ensures
            r@ == seq![AssignMode::Poly, AssignMode::Unison, AssignMode::Solo, AssignMode::Twin],
    {
        [AssignMode::Poly, AssignMode::Unison, AssignMode::Solo, AssignMode::Twin]
    }

    /// Indices and variants correspond.
    pub proof fn lemma_index_roundtrips(self)
        ensures
            self.index() < AssignMode::COUNT,
            AssignMode::from_index(self.index()) == self,
    {
    }
}

/// LFO source of a modulation route.
#[derive(Clone, Copy, Debug, PartialEq, Eq, Structural)]
pub enum LfoSel {
    Off,
    Lfo1,
    Lfo2,
}

impl Default for LfoSel {
    fn default() -> (r: Self)
        ensures
            r == LfoSel::Off,
    {
        LfoSel::Off
    }
}

impl LfoSel {
    pub const COUNT: usize = 3;

    pub open spec fn spec_from_index(i: usize) -> Self {
        match i {
            1 => LfoSel::Lfo1,
            2 => LfoSel::Lfo2,
            _ => LfoSel::Off,
        }
    }

    /// The variant at index `i`, the first one for indices past the end.
    #[verifier::when_used_as_spec(spec_from_index)]
    pub fn from_index(i: usize) -> (r: Self)
        ensures
            r == LfoSel::from_index(i),
    {
        match i {
            1 => LfoSel::Lfo1,
            2 => LfoSel::Lfo2,
            _ => LfoSel::Off,
        }
    }

    pub open spec fn spec_index(self) -> usize {
        match self {
            LfoSel::Off => 0,
            LfoSel::Lfo1 => 1,
            LfoSel::Lfo2 => 2,
        }
    }

    /// The index of the variant.
    #[verifier::when_used_as_spec(spec_index)]
    pub fn index(self) -> (r: usize)
        ensures
            r == self.index(),
            r < LfoSel::COUNT,
    {
        match self {
            LfoSel::Off => 0,
            LfoSel::Lfo1 => 1,
            LfoSel::Lfo2 => 2,
        }
    }

    /// Every variant, in the order of the indices.
    pub fn all() -> (r: [LfoSel; 3])
        ensures
            r@ == seq![LfoSel::Off, LfoSel::Lfo1, LfoSel::Lfo2],
    {
        [LfoSel::Off, LfoSel::Lfo1, LfoSel::Lfo2]
    }

    /// Indices and variants correspond.
    pub proof fn lemma_index_roundtrips(self)
        ensures
            self.index() < LfoSel::COUNT,
            LfoSel::from_index(self.index()) == self,
    {
    }
}

/// Envelope source of a modulation route.
#[derive(Clone, Copy, Debug, PartialEq, Eq, Structural)]
pub enum EnvSel {
    Off,
    Env1,
    Env2,
}

impl Default for EnvSel {
    fn default() -> (r: Self)
        ensures
            r == EnvSel::Off,
    {
        EnvSel::Off
    }
}

impl EnvSel {
    pub const COUNT: usize = 3;

    pub open spec fn spec_from_index(i: usize) -> Self {
        match i {
            1 => EnvSel::Env1,
            2 => EnvSel::Env2,
            _ => EnvSel::Off,
        }
    }

    /// The variant at index `i`, the first one for indices past the end.
    #[verifier::when_used_as_spec(spec_from_index)]
    pub fn from_index(i: usize) -> (r: Self)
        ensures
            r == EnvSel::from_index(i),
    {
        match i {
            1 => EnvSel::Env1,
            2 => EnvSel::Env2,
            _ => EnvSel::Off,
        }
    }

    pub open spec fn spec_index(self) -> usize {
        match self {
            EnvSel::Off => 0,
            EnvSel::Env1 => 1,
            EnvSel::Env2 => 2,
        }
    }

    /// The index of the variant.
    #[verifier::when_used_as_spec(spec_index)]
    pub fn index(self) -> (r: usize)
        ensures
            r == self.index(),
            r < EnvSel::COUNT,
    {
        match self {
            EnvSel::Off => 0,
            EnvSel::Env1 => 1,
            EnvSel::Env2 => 2,
        }
    }

    /// Every variant, in the order of the indices.
    pub fn all() -> (r: [EnvSel; 3])
        ensures
            r@ == seq![EnvSel::Off, EnvSel::Env1, EnvSel::Env2],
    {
        [EnvSel::Off, EnvSel::Env1, EnvSel::Env2]
    }

    /// Indices and variants correspond.
    pub proof fn lemma_index_roundtrips(self)
        ensures
            self.index() < EnvSel::COUNT,
            EnvSel::from_index(self.index()) == self,
    {
    }
}

/// Oscillator interaction.
#[derive(Clone, Copy, Debug, PartialEq, Eq, Structural)]
pub enum CrossModType {
    Off,
    Sync,
    Pm,
    Ring,
}

impl Default for CrossModType {
    fn default() -> (r: Self)
        ensures
            r == CrossModType::Off,
    {
        CrossModType::Off
    }
}

impl CrossModType {
    pub const COUNT: usize = 4;

    pub open spec fn spec_from_index(i: usize) -> Self {
        match i {
            1 => CrossModType::Sync,
            2 => CrossModType::Pm,
            3 => CrossModType::Ring,
            _ => CrossModType::Off,
        }
    }

    /// The variant at index `i`, the first one for indices past the end.
    #[verifier::when_used_as_spec(spec_from_index)]
    pub fn from_index(i: usize) -> (r: Self)
        ensures
            r == CrossModType::from_index(i),
    {
        match i {
            1 => CrossModType::Sync,
            2 => CrossModType::Pm,
            3 => CrossModType::Ring,
            _ => CrossModType::Off,
        }
    }

    pub open spec fn spec_index(self) -> usize {
        match self {
            CrossModType::Off => 0,
            CrossModType::Sync => 1,
            CrossModType::Pm => 2,
            CrossModType::Ring => 3,
        }
    }

    /// The index of the variant.
    #[verifier::when_used_as_spec(spec_index)]
    pub fn index(self) -> (r: usize)
        ensures
            r == self.index(),
            r < CrossModType::COUNT,
    {
        match self {
            CrossModType::Off => 0,
            CrossModType::Sync => 1,
            CrossModType::Pm => 2,
            CrossModType::Ring => 3,
        }
    }

    /// Every variant, in the order of the indices.
    pub fn all() -> (r: [CrossModType; 4])
        ensures
            r@ == seq![CrossModType::Off, CrossModType::Sync, CrossModType::Pm, CrossModType::Ring],
    {
        [CrossModType::Off, CrossModType::Sync, CrossModType::Pm, CrossModType::Ring]
    }

    /// Indices and variants correspond.
    pub proof fn lemma_index_roundtrips(self)
        ensures
            self.index() < CrossModType::COUNT,
            CrossModType::from_index(self.index()) == self,
    {
    }
}

} // verus!
