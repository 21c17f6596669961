//! Buffers of samples.
use crate::nums::ZERO;
use crate::plain::{num, Plain};
use vstd::prelude::*;

verus! {

/// Silence.
pub open spec fn zeros(n: nat) -> Seq<Plain> {
    Seq::new(n, |i: int| num(ZERO))
}

/// Make a buffer of silence.
pub fn fill_silence(v: &mut Vec<Plain>, n: usize)
    ensures
        final(v)@ == zeros(n as nat),
{
    v.clear();
    for i in 0..n
        invariant
            v@ == zeros(i as nat),
    {
        v.push(num(ZERO));
        assert(v@ =~= zeros((i + 1) as nat));
    }
}

/// Copy a block into a buffer from `start` on.
pub fn copy_into(from: &Vec<Plain>, to: &mut [Plain], start: usize)
    requires
        start + from@.len() <= old(to)@.len(),
    ensures
        final(to)@.len() == old(to)@.len(),
        forall|j: int|
            0 <= j < old(to)@.len() ==> #[trigger] final(to)@[j] == (if start <= j < start
                + from@.len() {
                from@[j - start]
            } else {
                old(to)@[j]
            }),
{
    let len: usize = to.len();
    let n: usize = from.len();
    for i in 0..n
        invariant
            n == from@.len(),
            start + n <= len,
            to@.len() == len,
            len == old(to)@.len(),
            forall|j: int|
                0 <= j < len ==> #[trigger] to@[j] == (if start <= j < start + i {
                    from@[j - start]
                } else {
                    old(to)@[j]
                }),
    {
        to[start + i] = from[i];
    }
}

} // verus!
