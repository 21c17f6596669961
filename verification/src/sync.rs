//! Tempo-synced rates.
use crate::fpu::{Fpu, Op};
use crate::nums::{
    F0_0833333358168602, F0_125, F0_1666666716337204, F0_1875, F0_25, F0_3333333432674408, F0_375,
    F0_6666666865348816, F0_75, F120, F17, F1_3333333730697632, F1_5, F2_6666667461395264, F3, F6,
    F60, FOUR, HALF, ONE, TWO, ZERO,
};
use crate::plain::{self, num, Plain};
use vstd::prelude::*;

verus! {

broadcast use crate::plain::group_by_rank;

/// The tempo when the host gives none.
pub const DEFAULT_TEMPO_BPM: u32 = F120;

/// A note length: its label, and its beats per cycle with a quarter note as one.
#[derive(Clone, Copy, Debug)]
pub struct Subdivision {
    pub label: &'static str,
    pub beats: Plain,
}

/// Note lengths from coarse to fine, each straight, dotted and triplet.
pub const SUBDIVISION_COUNT: usize = 18;

pub open spec fn spec_subdivision(index: usize) -> Subdivision {
    match index {
        0 => Subdivision { label: "1/1", beats: num(FOUR) },
        1 => Subdivision { label: "1/1.", beats: num(F6) },
        2 => Subdivision { label: "1/1T", beats: num(F2_6666667461395264) },
        3 => Subdivision { label: "1/2", beats: num(TWO) },
        4 => Subdivision { label: "1/2.", beats: num(F3) },
        5 => Subdivision { label: "1/2T", beats: num(F1_3333333730697632) },
        6 => Subdivision { label: "1/4", beats: num(ONE) },
        7 => Subdivision { label: "1/4.", beats: num(F1_5) },
        8 => Subdivision { label: "1/4T", beats: num(F0_6666666865348816) },
        9 => Subdivision { label: "1/8", beats: num(HALF) },
        10 => Subdivision { label: "1/8.", beats: num(F0_75) },
        11 => Subdivision { label: "1/8T", beats: num(F0_3333333432674408) },
        12 => Subdivision { label: "1/16", beats: num(F0_25) },
        13 => Subdivision { label: "1/16.", beats: num(F0_375) },
        14 => Subdivision { label: "1/16T", beats: num(F0_1666666716337204) },
        15 => Subdivision { label: "1/32", beats: num(F0_125) },
        16 => Subdivision { label: "1/32.", beats: num(F0_1875) },
        _ => Subdivision { label: "1/32T", beats: num(F0_0833333358168602) },
    }
}

/// Note length `index`, the finest for indices past the end.
#[verifier::when_used_as_spec(spec_subdivision)]
pub fn subdivision(index: usize) -> (r: Subdivision)
    ensures
        r == subdivision(index),
{
    match index {
        0 => Subdivision { label: "1/1", beats: num(FOUR) },
        1 => Subdivision { label: "1/1.", beats: num(F6) },
        2 => Subdivision { label: "1/1T", beats: num(F2_6666667461395264) },
        3 => Subdivision { label: "1/2", beats: num(TWO) },
        4 => Subdivision { label: "1/2.", beats: num(F3) },
        5 => Subdivision { label: "1/2T", beats: num(F1_3333333730697632) },
        6 => Subdivision { label: "1/4", beats: num(ONE) },
        7 => Subdivision { label: "1/4.", beats: num(F1_5) },
        8 => Subdivision { label: "1/4T", beats: num(F0_6666666865348816) },
        9 => Subdivision { label: "1/8", beats: num(HALF) },
        10 => Subdivision { label: "1/8.", beats: num(F0_75) },
        11 => Subdivision { label: "1/8T", beats: num(F0_3333333432674408) },
        12 => Subdivision { label: "1/16", beats: num(F0_25) },
        13 => Subdivision { label: "1/16.", beats: num(F0_375) },
        14 => Subdivision { label: "1/16T", beats: num(F0_1666666716337204) },
        15 => Subdivision { label: "1/32", beats: num(F0_125) },
        16 => Subdivision { label: "1/32.", beats: num(F0_1875) },
        _ => Subdivision { label: "1/32T", beats: num(F0_0833333358168602) },
    }
}

pub open spec fn spec_index_from_norm<A: Fn(Op, Plain, Plain) -> Plain>(
    fpu: &Fpu<A>,
    norm: Plain,
) -> usize {
    fpu.mul(norm.clamp(num(ZERO), num(ONE)), num(F17)).round_index()
}

/// The note length at a normalised position of the rate knob.
#[verifier::when_used_as_spec(spec_index_from_norm)]
pub fn index_from_norm<A: Fn(Op, Plain, Plain) -> Plain>(fpu: &Fpu<A>, norm: Plain) -> (r: usize)
    requires
        fpu.valid(),
    ensures
        r == index_from_norm(fpu, norm),
{
    fpu.mul(norm.clamp(num(ZERO), num(ONE)), num(F17)).round_index()
}

pub open spec fn spec_synced_hz<A: Fn(Op, Plain, Plain) -> Plain>(
    fpu: &Fpu<A>,
    tempo_bpm: Plain,
    index: usize,
) -> Plain {
    fpu.div(fpu.div(tempo_bpm, num(F60)), subdivision(index).beats)
}

/// The frequency in Hz of a note length at a tempo.
#[verifier::when_used_as_spec(spec_synced_hz)]
pub fn synced_hz<A: Fn(Op, Plain, Plain) -> Plain>(
    fpu: &Fpu<A>,
    tempo_bpm: Plain,
    index: usize,
) -> (r: Plain)
    requires
        fpu.valid(),
    ensures
        r == synced_hz(fpu, tempo_bpm, index),
{
    fpu.div(fpu.div(tempo_bpm, num(F60)), subdivision(index).beats)
}

pub open spec fn spec_synced_seconds<A: Fn(Op, Plain, Plain) -> Plain>(
    fpu: &Fpu<A>,
    tempo_bpm: Plain,
    index: usize,
) -> Plain {
    fpu.mul(subdivision(index).beats, fpu.div(num(F60), tempo_bpm))
}

/// The duration in seconds of a note length at a tempo.
#[verifier::when_used_as_spec(spec_synced_seconds)]
pub fn synced_seconds<A: Fn(Op, Plain, Plain) -> Plain>(
    fpu: &Fpu<A>,
    tempo_bpm: Plain,
    index: usize,
) -> (r: Plain)
    requires
        fpu.valid(),
    ensures
        r == synced_seconds(fpu, tempo_bpm, index),
{
    fpu.mul(subdivision(index).beats, fpu.div(num(F60), tempo_bpm))
}

/// An index past the end reads the finest length.
pub proof fn lemma_index_saturates<A: Fn(Op, Plain, Plain) -> Plain>(
    fpu: &Fpu<A>,
    tempo_bpm: Plain,
    index: usize,
)
    requires
        index >= SUBDIVISION_COUNT,
    ensures
        synced_hz(fpu, tempo_bpm, index) == synced_hz(
            fpu,
            tempo_bpm,
            (SUBDIVISION_COUNT - 1) as usize,
        ),
{
}

/// The note lengths stand to each other as their names say: each straight length is half the one
/// before it, a dotted length is half as long again as the straight one, and a triplet is shorter
/// than the straight length, half the triplet before it, and longer than the next straight
/// length.
pub proof fn lemma_note_lengths(k: usize)
    requires
        k < 6,
    ensures
        ({
            let straight = subdivision((3 * k) as usize).beats;
            let dotted = subdivision((3 * k + 1) as usize).beats;
            let triplet = subdivision((3 * k + 2) as usize).beats;
            &&& straight.is_number() && dotted.is_number() && triplet.is_number()
            &&& 2 * dotted.scaled() == 3 * straight.scaled()
            &&& triplet.less(straight)
            &&& k == 2 ==> straight == num(ONE)
            &&& k + 1 < 6 ==> {
                let next = subdivision((3 * k + 3) as usize).beats;
                &&& 2 * next.scaled() == straight.scaled()
                &&& next.less(triplet)
                &&& 2 * subdivision((3 * k + 5) as usize).beats.scaled() == triplet.scaled()
            }
        }),
{
    plain::lemma_half_again(129);
    plain::lemma_half_again(128);
    plain::lemma_half_again(127);
    plain::lemma_half_again(126);
    plain::lemma_half_again(125);
    plain::lemma_half_again(124);
    if k + 1 < 6 {
        plain::lemma_twice(subdivision((3 * k + 3) as usize).beats);
        plain::lemma_twice(subdivision((3 * k + 5) as usize).beats);
    }
}

/// A synced rate is the beats of a second over the beats of the length, and a synced time the
/// length times the seconds of a beat, wherever these are numbers.
pub proof fn lemma_synced_values<A: Fn(Op, Plain, Plain) -> Plain>(
    fpu: &Fpu<A>,
    tempo_bpm: Plain,
    index: usize,
    per_second: Plain,
    hz: Plain,
    beat: Plain,
    seconds: Plain,
)
    requires
        fpu.rounds(),
        tempo_bpm.is_finite() && tempo_bpm.scaled() > 0,
        per_second.is_number() && hz.is_number() && beat.is_number() && seconds.is_number(),
        60 * per_second.scaled() == tempo_bpm.scaled(),
        hz.scaled() * subdivision(index).beats.scaled() == per_second.scaled() * plain::unit(),
        beat.scaled() * tempo_bpm.scaled() == (60 * plain::unit()) * plain::unit(),
        seconds.scaled() * plain::unit() == subdivision(index).beats.scaled() * beat.scaled(),
    ensures
        synced_hz(fpu, tempo_bpm, index).equals(hz),
        synced_seconds(fpu, tempo_bpm, index).equals(seconds),
{
    plain::lemma_small_values();
    vstd::arithmetic::power2::lemma2_to64();
    plain::lemma_whole_value(F60, 60, 18);
    let (u, q) = (plain::unit(), per_second.scaled());
    let beats = subdivision(index).beats;
    plain::lemma_scaled_sign(beats);
    assert(q * (60 * u) == (60 * q) * u) by (nonlinear_arith);
    fpu.lemma_div_side(tempo_bpm, num(F60), per_second);
    let a = fpu.div(tempo_bpm, num(F60));
    plain::lemma_equal_scaled(a, per_second);
    fpu.lemma_div_side(a, beats, hz);
    fpu.lemma_div_side(num(F60), tempo_bpm, beat);
    let b = fpu.div(num(F60), tempo_bpm);
    plain::lemma_equal_scaled(b, beat);
    fpu.lemma_mul_side(beats, b, seconds);
}

/// A faster tempo gives no slower rate and no longer time.
pub proof fn lemma_tempo_speeds_up<A: Fn(Op, Plain, Plain) -> Plain>(
    fpu: &Fpu<A>,
    slow: Plain,
    fast: Plain,
    index: usize,
)
    requires
        fpu.rounds(),
        slow.is_finite() && fast.is_finite(),
        slow.scaled() > 0 && slow.at_most(fast),
        fpu.div(slow, num(F60)).is_finite() && fpu.div(fast, num(F60)).is_finite(),
        fpu.div(num(F60), slow).is_finite() && fpu.div(num(F60), fast).is_finite(),
    ensures
        synced_hz(fpu, slow, index).at_most(synced_hz(fpu, fast, index)),
        synced_seconds(fpu, fast, index).at_most(synced_seconds(fpu, slow, index)),
{
    plain::lemma_small_values();
    plain::lemma_equal_scaled(slow, fast);
    plain::lemma_scaled_sign(num(F60));
    let beats = subdivision(index).beats;
    plain::lemma_scaled_sign(beats);
    let (s, f, m, b) = (slow.scaled(), fast.scaled(), num(F60).scaled(), beats.scaled());
    assert(s * m <= f * m && m * s <= m * f) by (nonlinear_arith)
        requires
            s <= f,
            m > 0,
    ;
    fpu.lemma_div_order(slow, num(F60), fast, num(F60));
    let (x, y) = (fpu.div(slow, num(F60)), fpu.div(fast, num(F60)));
    plain::lemma_equal_scaled(x, y);
    let (p, q) = (x.scaled(), y.scaled());
    assert(p * b <= q * b) by (nonlinear_arith)
        requires
            p <= q,
            b > 0,
    ;
    fpu.lemma_div_order(x, beats, y, beats);
    fpu.lemma_div_order(num(F60), fast, num(F60), slow);
    fpu.lemma_scaling_rises(fpu.div(num(F60), fast), fpu.div(num(F60), slow), beats);
}

/// The rate knob runs from the coarsest note length to the finest.
pub proof fn lemma_knob_ends<A: Fn(Op, Plain, Plain) -> Plain>(fpu: &Fpu<A>, norm: Plain)
    requires
        fpu.rounds(),
        !norm.is_nan(),
    ensures
        norm.at_most(num(ZERO)) ==> index_from_norm(fpu, norm) == 0,
        num(ONE).at_most(norm) ==> index_from_norm(fpu, norm) == SUBDIVISION_COUNT - 1,
{
    plain::lemma_small_values();
    vstd::arithmetic::power2::lemma2_to64();
    plain::lemma_whole_value(F17, 17, 19);
    let n = norm.clamp(num(ZERO), num(ONE));
    if norm.at_most(num(ZERO)) {
        plain::lemma_scaled_sign(n);
        plain::lemma_equal_scaled(n, num(ZERO));
        fpu.lemma_none_of(num(F17), n);
        let z = fpu.mul(n, num(F17));
        plain::lemma_zero_scaled(z);
        assert(0 * plain::unit() == 0) by (nonlinear_arith);
        plain::lemma_whole_index(z, 0);
    }
    if num(ONE).at_most(norm) {
        fpu.lemma_all_of(num(F17));
        assert(fpu.mul(n, num(F17)) == num(F17));
        plain::lemma_whole_index(num(F17), 17);
    }
}

} // verus!
