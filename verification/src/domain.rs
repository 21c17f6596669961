//! Layers and key modes.
use vstd::prelude::*;

verus! {

/// One of the two patches that sound together or apart.
#[derive(Clone, Copy, Debug, PartialEq, Eq, Structural)]
pub enum Layer {
    Upper,
    Lower,
}

impl Layer {
    pub const COUNT: usize = 2;

    pub open spec fn spec_index(self) -> usize {
        match self {
            Layer::Upper => 0,
            Layer::Lower => 1,
        }
    }

    /// The place of the layer's block.
    #[verifier::when_used_as_spec(spec_index)]
    pub fn index(self) -> (r: usize)
        ensures
            r == self.index(),
            r < Layer::COUNT,
    {
        match self {
            Layer::Upper => 0,
            Layer::Lower => 1,
        }
    }

    /// Both layers, in the order of their blocks.
    pub fn all() -> (r: [Layer; 2])
        ensures
            r@ == seq![Layer::Upper, Layer::Lower],
    {
        [Layer::Upper, Layer::Lower]
    }
}

/// How the keyboard drives the two layers.
#[derive(Clone, Copy, Debug, PartialEq, Eq, Structural)]
pub enum KeyMode {
    /// Both layers take turns over the whole keyboard.
    Whole,
    /// Both layers sound on every key.
    Dual,
    /// Keys below the split point play the lower layer, the others the upper.
    Split,
}

impl Default for KeyMode {
    fn default() -> (r: Self)
        ensures
            r == KeyMode::Whole,
    {
        KeyMode::Whole
    }
}

impl KeyMode {
    /// All modes, in the order of their numbers.
    pub fn all() -> (r: [KeyMode; 3])
        ensures
            r@ == seq![KeyMode::Whole, KeyMode::Dual, KeyMode::Split],
    {
        [KeyMode::Whole, KeyMode::Dual, KeyMode::Split]
    }

    pub open spec fn spec_from_u8(v: u8) -> Self {
        match v {
            1 => KeyMode::Dual,
            2 => KeyMode::Split,
            _ => KeyMode::Whole,
        }
    }

    /// The mode that `v` stands for; the default for an unknown value.
    #[verifier::when_used_as_spec(spec_from_u8)]
    pub fn from_u8(v: u8) -> (r: Self)
        ensures
            r == KeyMode::from_u8(v),
    {
        match v {
            1 => KeyMode::Dual,
            2 => KeyMode::Split,
            _ => KeyMode::Whole,
        }
    }

    pub open spec fn spec_to_u8(self) -> u8 {
        match self {
            KeyMode::Whole => 0,
            KeyMode::Dual => 1,
            KeyMode::Split => 2,
        }
    }

    /// The value that stands for the mode.
    #[verifier::when_used_as_spec(spec_to_u8)]
    pub fn to_u8(self) -> (r: u8)
        ensures
            r == self.to_u8(),
    {
        match self {
            KeyMode::Whole => 0,
            KeyMode::Dual => 1,
            KeyMode::Split => 2,
        }
    }

    /// Modes survive the trip through their values.
    pub proof fn lemma_u8_roundtrips(self)
        ensures
            KeyMode::from_u8(self.to_u8()) == self,
    {
    }
}

/// The split point of a fresh instrument: middle C.
pub const DEFAULT_SPLIT_POINT: u8 = 60;

} // verus!
