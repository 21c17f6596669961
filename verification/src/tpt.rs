//! Topology-preserving one-pole sections shared by the filters.
use crate::fpu::{Fpu, Op};
use crate::nums::{F0_00001, F0_45, F0_999, F5, ONE, PI, TWO, ZERO};
use crate::plain::{self, num, Plain};
use vstd::prelude::*;

verus! {

broadcast use crate::plain::group_by_rank;

pub open spec fn spec_sanitize(v: Plain) -> Plain {
    if v.is_finite() {
        v
    } else {
        num(ZERO)
    }
}

/// The value, or zero where it is not finite.
#[verifier::when_used_as_spec(spec_sanitize)]
pub fn sanitize(v: Plain) -> (r: Plain)
    ensures
        r == sanitize(v),
{
    if v.is_finite() {
        v
    } else {
        num(ZERO)
    }
}

/// The sample rate leaves room for the lowest cutoff of 5 Hz under the limit of
/// 0.45 of the rate.
pub open spec fn filterable<A: Fn(Op, Plain, Plain) -> Plain>(
    fpu: &Fpu<A>,
    sample_rate: Plain,
) -> bool {
    num(F5).at_most(fpu.mul(sample_rate, num(F0_45)))
}

/// Whether there is room for the lowest cutoff at a sample rate.
pub fn can_filter<A: Fn(Op, Plain, Plain) -> Plain>(fpu: &Fpu<A>, sample_rate: Plain) -> (r: bool)
    requires
        fpu.valid(),
    ensures
        r == filterable(fpu, sample_rate),
{
    num(F5).at_most(fpu.mul(sample_rate, num(F0_45)))
}

pub open spec fn spec_raw_gain<A: Fn(Op, Plain, Plain) -> Plain>(
    fpu: &Fpu<A>,
    cutoff_hz: Plain,
    sample_rate: Plain,
) -> Plain {
    let fc = cutoff_hz.clamp(num(F5), fpu.mul(sample_rate, num(F0_45)));
    let wd = fpu.tan(fpu.div(fpu.mul(num(PI), fc), sample_rate));
    fpu.div(wd, fpu.add(num(ONE), wd))
}

/// The one-pole gain `w / (1 + w)` of a cutoff, with `w` the prewarped frequency.
#[verifier::when_used_as_spec(spec_raw_gain)]
pub fn raw_gain<A: Fn(Op, Plain, Plain) -> Plain>(
    fpu: &Fpu<A>,
    cutoff_hz: Plain,
    sample_rate: Plain,
) -> (r: Plain)
    requires
        fpu.valid(),
        filterable(fpu, sample_rate),
    ensures
        r == raw_gain(fpu, cutoff_hz, sample_rate),
{
    let fc = cutoff_hz.clamp(num(F5), fpu.mul(sample_rate, num(F0_45)));
    let wd = fpu.tan(fpu.div(fpu.mul(num(PI), fc), sample_rate));
    fpu.div(wd, fpu.add(num(ONE), wd))
}

pub open spec fn spec_compute_g<A: Fn(Op, Plain, Plain) -> Plain>(
    fpu: &Fpu<A>,
    cutoff_hz: Plain,
    sample_rate: Plain,
) -> Plain {
    raw_gain(fpu, cutoff_hz, sample_rate).clamp(num(F0_00001), num(F0_999))
}

/// The one-pole stage gain of a cutoff, held inside `(0, 1)`.
#[verifier::when_used_as_spec(spec_compute_g)]
pub fn compute_g<A: Fn(Op, Plain, Plain) -> Plain>(
    fpu: &Fpu<A>,
    cutoff_hz: Plain,
    sample_rate: Plain,
) -> (r: Plain)
    requires
        fpu.valid(),
        filterable(fpu, sample_rate),
    ensures
        r == compute_g(fpu, cutoff_hz, sample_rate),
{
    raw_gain(fpu, cutoff_hz, sample_rate).clamp(num(F0_00001), num(F0_999))
}

pub open spec fn spec_one_pole<A: Fn(Op, Plain, Plain) -> Plain>(
    fpu: &Fpu<A>,
    input: Plain,
    state: Plain,
    g: Plain,
) -> (Plain, Plain) {
    let v = fpu.mul(fpu.sub(input, state), g);
    let out = fpu.add(v, state);
    (sanitize(fpu.add(out, v)), out)
}

/// One sample of a one-pole lowpass: the next state and the output.
#[verifier::when_used_as_spec(spec_one_pole)]
pub fn one_pole<A: Fn(Op, Plain, Plain) -> Plain>(
    fpu: &Fpu<A>,
    input: Plain,
    state: Plain,
    g: Plain,
) -> (r: (Plain, Plain))
    requires
        fpu.valid(),
    ensures
        r == one_pole(fpu, input, state, g),
{
    let v = fpu.mul(fpu.sub(input, state), g);
    let out = fpu.add(v, state);
    (sanitize(fpu.add(out, v)), out)
}

/// A lowpass that has reached its input stays there: a steady sample passes unchanged.
pub proof fn lemma_pole_settles<A: Fn(Op, Plain, Plain) -> Plain>(
    fpu: &Fpu<A>,
    x: Plain,
    g: Plain,
)
    requires
        fpu.rounds(),
        x.is_number(),
        g.is_finite(),
    ensures
        one_pole(fpu, x, x, g).0.equals(x),
        one_pole(fpu, x, x, g).1.equals(x),
{
    plain::lemma_zero_scaled(num(ZERO));
    let d = fpu.sub(x, x);
    fpu.lemma_sub_side(x, x, num(ZERO));
    let v = fpu.mul(d, g);
    fpu.lemma_none_of(g, d);
    fpu.lemma_nothing_added(x, v);
    let out = fpu.add(v, x);
    plain::lemma_equal_scaled(out, x);
    fpu.lemma_nothing_added(out, v);
    fpu.lemma_add_side(out, v, x);
    plain::lemma_zero_scaled(v);
}

/// A lowpass moves toward its input, and the further the higher its gain is.
pub proof fn lemma_pole_follows<A: Fn(Op, Plain, Plain) -> Plain>(
    fpu: &Fpu<A>,
    input: Plain,
    state: Plain,
    low: Plain,
    high: Plain,
)
    requires
        fpu.rounds(),
        input.is_finite() && state.is_number(),
        fpu.sub(input, state).is_finite(),
        low.is_finite() && high.is_finite(),
        0 <= low.scaled() <= high.scaled() <= plain::unit(),
        fpu.mul(fpu.sub(input, state), low).is_finite(),
        fpu.mul(fpu.sub(input, state), high).is_finite(),
    ensures
        state.at_most(input) ==> {
            &&& state.at_most(one_pole(fpu, input, state, low).1)
            &&& one_pole(fpu, input, state, low).1.at_most(one_pole(fpu, input, state, high).1)
        },
        input.at_most(state) ==> {
            &&& one_pole(fpu, input, state, low).1.at_most(state)
            &&& one_pole(fpu, input, state, high).1.at_most(one_pole(fpu, input, state, low).1)
        },
{
    plain::lemma_small_values();
    let d = fpu.sub(input, state);
    fpu.lemma_sub_side(input, state, num(ZERO));
    plain::lemma_equal_scaled(d, num(ZERO));
    plain::lemma_equal_scaled(input, state);
    let (u, s, a, b) = (plain::unit(), d.scaled(), low.scaled(), high.scaled());
    assert(0 * u == 0) by (nonlinear_arith);
    assert((s >= 0 ==> 0 <= s * a && s * a <= s * b) && (s <= 0 ==> s * a <= 0 && s * b <= s * a))
        by (nonlinear_arith)
        requires
            0 <= a <= b,
    ;
    let (v, w) = (fpu.mul(d, low), fpu.mul(d, high));
    fpu.lemma_mul_side(d, low, num(ZERO));
    plain::lemma_equal_scaled(v, num(ZERO));
    plain::lemma_equal_scaled(v, w);
    fpu.lemma_add_side(v, state, state);
    if s >= 0 {
        fpu.lemma_mul_order(d, low, d, high);
        fpu.lemma_add_order(v, state, w, state);
    }
    if s <= 0 {
        fpu.lemma_mul_order(d, high, d, low);
        fpu.lemma_add_order(w, state, v, state);
    }
}

/// A cutoff outside the range from 5 Hz to 0.45 of the sample rate is taken as the nearer end
/// of it, and the gain stays inside `(0, 1)`.
pub proof fn lemma_cutoff_is_held<A: Fn(Op, Plain, Plain) -> Plain>(
    fpu: &Fpu<A>,
    cutoff_hz: Plain,
    sample_rate: Plain,
)
    requires
        filterable(fpu, sample_rate),
        !cutoff_hz.is_nan(),
    ensures
        cutoff_hz.at_most(num(F5)) ==> compute_g(fpu, cutoff_hz, sample_rate) == compute_g(
            fpu,
            num(F5),
            sample_rate,
        ),
        fpu.mul(sample_rate, num(F0_45)).at_most(cutoff_hz) ==> compute_g(
            fpu,
            cutoff_hz,
            sample_rate,
        ) == compute_g(fpu, fpu.mul(sample_rate, num(F0_45)), sample_rate),
        !raw_gain(fpu, cutoff_hz, sample_rate).is_nan() ==> num(F0_00001).at_most(
            compute_g(fpu, cutoff_hz, sample_rate),
        ) && compute_g(fpu, cutoff_hz, sample_rate).at_most(num(F0_999)),
{
}

/// An octave or more up, below a quarter of the sample rate, the gain of a cutoff is higher:
/// there the tangents of the two angles are at least an octave apart and not above one.
pub proof fn lemma_gain_rises_with_cutoff<A: Fn(Op, Plain, Plain) -> Plain>(
    fpu: &Fpu<A>,
    low_hz: Plain,
    high_hz: Plain,
    sample_rate: Plain,
)
    requires
        fpu.rounds(),
        num(F5).at_most(low_hz) && low_hz.at_most(high_hz),
        high_hz.at_most(fpu.mul(sample_rate, num(F0_45))),
        ({
            let a = fpu.tan(fpu.div(fpu.mul(num(PI), low_hz), sample_rate));
            let b = fpu.tan(fpu.div(fpu.mul(num(PI), high_hz), sample_rate));
            &&& a.is_finite() && b.is_finite()
            &&& 0 <= 2 * a.scaled() <= b.scaled() <= plain::unit()
        }),
    ensures
        compute_g(fpu, low_hz, sample_rate).at_most(compute_g(fpu, high_hz, sample_rate)),
{
    plain::lemma_small_values();
    let a = fpu.tan(fpu.div(fpu.mul(num(PI), low_hz), sample_rate));
    let b = fpu.tan(fpu.div(fpu.mul(num(PI), high_hz), sample_rate));
    let (s, t) = (fpu.add(num(ONE), a), fpu.add(num(ONE), b));
    fpu.lemma_add_side(num(ONE), a, num(ONE));
    fpu.lemma_add_side(num(ONE), a, num(TWO));
    fpu.lemma_add_side(num(ONE), b, num(ONE));
    fpu.lemma_add_side(num(ONE), b, num(TWO));
    plain::lemma_between_finite(num(ONE), s, num(TWO));
    plain::lemma_between_finite(num(ONE), t, num(TWO));
    let (u, p, q, x, y) = (plain::unit(), a.scaled(), b.scaled(), s.scaled(), t.scaled());
    assert(p * y <= q * x) by (nonlinear_arith)
        requires
            0 <= 2 * p <= q,
            u <= x,
            0 <= y <= 2 * u,
            u > 0,
    ;
    fpu.lemma_div_order(a, s, b, t);
}

/// A lowpass at rest stays silent.
pub proof fn lemma_silent_pole<A: Fn(Op, Plain, Plain) -> Plain>(
    fpu: &Fpu<A>,
    input: Plain,
    state: Plain,
    g: Plain,
)
    requires
        fpu.rounds(),
        input.is_zero() && state.is_zero(),
        g.is_finite(),
    ensures
        one_pole(fpu, input, state, g).0.is_zero(),
        one_pole(fpu, input, state, g).1.is_zero(),
{
    fpu.lemma_nothing_added(input, state);
    let d = fpu.sub(input, state);
    fpu.lemma_none_of(g, d);
    let v = fpu.mul(d, g);
    fpu.lemma_nothing_added(state, v);
    fpu.lemma_nothing_added(fpu.add(v, state), v);
}

/// What is guarded is finite, and what was finite is left as it was.
pub proof fn lemma_sanitized(v: Plain)
    ensures
        sanitize(v).is_finite(),
        v.is_finite() ==> sanitize(v) == v,
{
}

} // verus!
