//! VXN1 synthesizer core.
use vstd::prelude::*;

pub mod adsr;
pub mod assign;
pub mod bbd;
pub mod buffers;
pub mod choices;
pub mod chorus;
pub mod delay;
pub mod domain;
pub mod effects;
pub mod events;
pub mod fpu;
pub mod halfband;
pub mod hpf;
pub mod ladder;
pub mod lanes;
pub mod lfo;
pub mod local;
pub mod math;
pub mod modmatrix;
pub mod modulation;
pub mod mono;
pub mod noise;
pub mod nums;
pub mod oscillator;
pub mod ota_ladder;
pub mod params;
pub mod phase;
pub mod plain;
pub mod poly;
pub mod processor;
pub mod render;
pub mod reverb_macro;
pub mod shared;
pub mod shell;
pub mod smoothing;
pub mod sync;
pub mod synth;
pub mod text;
pub mod tpt;
pub mod twins;
pub mod values;
pub mod voice;
pub mod vreverb;

verus! {

/// Channels (voices) per layer. The lane-parallel kernels are sized to this.
pub const CHANNELS_PER_LAYER: usize = 8;

/// Maximum total polyphony across both layers.
pub const MAX_VOICES: usize = 16;

/// Maximum oversampling factor of the synthesis path.
pub const MAX_OVERSAMPLE: usize = 8;

/// Engine control-block size in samples. Modulation and coefficients are
/// recomputed once per block.
pub const CONTROL_BLOCK: usize = 32;

} // verus!
