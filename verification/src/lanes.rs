//! Fixed-size groups of voices.
use crate::plain::Plain;
use crate::CHANNELS_PER_LAYER;
use vstd::prelude::*;

verus! {

/// One value per voice of a layer.
pub type Lanes = [Plain; CHANNELS_PER_LAYER];

/// The same value in every lane.
pub fn splat<T: Copy>(x: T) -> (r: [T; CHANNELS_PER_LAYER])
    ensures
        r@ == Seq::new(CHANNELS_PER_LAYER as nat, |i: int| x),
        forall|i: int| 0 <= i < CHANNELS_PER_LAYER ==> #[trigger] r@[i] == x,
{
    let r: [T; CHANNELS_PER_LAYER] = [x, x, x, x, x, x, x, x];
    assert(r@ =~= Seq::new(CHANNELS_PER_LAYER as nat, |i: int| x));
    r
}

} // verus!
