//! Smoothing of gain-like parameters between their targets and the engine.
use crate::domain::Layer;
use crate::fpu::{Fpu, Op};
use crate::nums::{F0_000001, F0_001, F10, F32, F5, MINUS_ONE, ONE, ZERO};
use crate::math;
use crate::params::{GlobalParam, PatchParam, GLOBAL_COUNT, PATCH_COUNT};
use crate::plain::{self, num, Plain};
use crate::values::{GlobalValues, ParamValues, PatchValues};
use vstd::prelude::*;

verus! {

broadcast use crate::plain::group_by_rank;

pub open spec fn spec_ms_to_samples<A: Fn(Op, Plain, Plain) -> Plain>(
    fpu: &Fpu<A>,
    ms: Plain,
    rate: Plain,
) -> Plain {
    fpu.mul(fpu.mul(ms, num(F0_001)), rate)
}

/// A time in milliseconds, in samples.
#[verifier::when_used_as_spec(spec_ms_to_samples)]
pub fn ms_to_samples<A: Fn(Op, Plain, Plain) -> Plain>(
    fpu: &Fpu<A>,
    ms: Plain,
    rate: Plain,
) -> (r: Plain)
    requires
        fpu.valid(),
    ensures
        r == ms_to_samples(fpu, ms, rate),
{
    fpu.mul(fpu.mul(ms, num(F0_001)), rate)
}

pub open spec fn spec_one_pole_coeff<A: Fn(Op, Plain, Plain) -> Plain>(
    fpu: &Fpu<A>,
    ms: Plain,
    rate: Plain,
) -> Plain {
    fpu.sub(num(ONE), fpu.exp(fpu.div(num(MINUS_ONE), ms_to_samples(fpu, ms, rate).max(num(ONE)))))
}

/// The coefficient of a one-pole glide with the given time constant.
#[verifier::when_used_as_spec(spec_one_pole_coeff)]
pub fn one_pole_coeff<A: Fn(Op, Plain, Plain) -> Plain>(
    fpu: &Fpu<A>,
    ms: Plain,
    rate: Plain,
) -> (r: Plain)
    requires
        fpu.valid(),
    ensures
        r == one_pole_coeff(fpu, ms, rate),
{
    fpu.sub(num(ONE), fpu.exp(fpu.div(num(MINUS_ONE), ms_to_samples(fpu, ms, rate).max(num(ONE)))))
}

/// A value that glides toward its target, one sample at a time.
#[derive(Clone, Copy, Debug, PartialEq, Eq, Structural)]
pub struct Smoothed {
    pub value: Plain,
    pub target: Plain,
    pub coeff: Plain,
}

impl Smoothed {
    pub fn new<A: Fn(Op, Plain, Plain) -> Plain>(
        fpu: &Fpu<A>,
        value: Plain,
        ms: Plain,
        rate: Plain,
    ) -> (r: Self)
        requires
            fpu.valid(),
        ensures
            r == (Smoothed { value, target: value, coeff: one_pole_coeff(fpu, ms, rate) }),
    {
        Smoothed { value, target: value, coeff: one_pole_coeff(fpu, ms, rate) }
    }

    pub fn set_time<A: Fn(Op, Plain, Plain) -> Plain>(
        &mut self,
        fpu: &Fpu<A>,
        ms: Plain,
        rate: Plain,
    )
        requires
            fpu.valid(),
        ensures
            *final(self) == (Smoothed { coeff: one_pole_coeff(fpu, ms, rate), ..*old(self) }),
    {
        self.coeff = one_pole_coeff(fpu, ms, rate);
    }

    pub fn set_target(&mut self, target: Plain)
        ensures
            *final(self) == (Smoothed { target, ..*old(self) }),
    {
        self.target = target;
    }

    /// Jump to a value.
    pub fn snap(&mut self, value: Plain)
        ensures
            *final(self) == (Smoothed { value, target: value, ..*old(self) }),
    {
        self.value = value;
        self.target = value;
    }

    pub open spec fn ticked<A: Fn(Op, Plain, Plain) -> Plain>(self, fpu: &Fpu<A>) -> Self {
        Smoothed { value: fpu.add(
            self.value,
            fpu.mul(self.coeff, fpu.sub(self.target, self.value)),
        ), ..self }
    }

    /// Advance one sample and return the value.
    pub fn tick<A: Fn(Op, Plain, Plain) -> Plain>(&mut self, fpu: &Fpu<A>) -> (r: Plain)
        requires
            fpu.valid(),
        ensures
            *final(self) == old(self).ticked(fpu),
            r == final(self).value,
    {
        self.value = fpu.add(self.value, fpu.mul(self.coeff, fpu.sub(self.target, self.value)));
        self.value
    }
}

pub open spec fn spec_glide_step<A: Fn(Op, Plain, Plain) -> Plain>(
    fpu: &Fpu<A>,
    cur: Plain,
    tgt: Plain,
    coeff: Plain,
) -> Plain {
    let next = fpu.add(cur, fpu.mul(coeff, fpu.sub(tgt, cur)));
    if fpu.sub(tgt, next).abs().less(num(F0_000001)) {
        tgt
    } else {
        next
    }
}

/// One block-rate glide step: a one-pole move toward the target, which is reached
/// exactly once it is near, so that a gate on the value being zero can close.
#[verifier::when_used_as_spec(spec_glide_step)]
pub fn glide_step<A: Fn(Op, Plain, Plain) -> Plain>(
    fpu: &Fpu<A>,
    cur: Plain,
    tgt: Plain,
    coeff: Plain,
) -> (r: Plain)
    requires
        fpu.valid(),
    ensures
        r == glide_step(fpu, cur, tgt, coeff),
{
    let next = fpu.add(cur, fpu.mul(coeff, fpu.sub(tgt, cur)));
    if fpu.sub(tgt, next).abs().less(num(F0_000001)) {
        tgt
    } else {
        next
    }
}

/// A glide that has not arrived is still further from its target than the snap
/// distance.
pub proof fn lemma_glide_arrives<A: Fn(Op, Plain, Plain) -> Plain>(
    fpu: &Fpu<A>,
    cur: Plain,
    tgt: Plain,
    coeff: Plain,
)
    ensures
        ({
            let r = glide_step(fpu, cur, tgt, coeff);
            r == tgt || !fpu.sub(tgt, r).abs().less(num(F0_000001))
        }),
{
}

/// How a parameter is smoothed.
#[derive(Clone, Copy, Debug, PartialEq, Eq, Structural)]
pub enum Glide {
    /// Jump to the target: discrete, cached, or smoothed downstream.
    Snap,
    /// One glide step per control block.
    Block,
    /// Glided per output sample by the volume smoother.
    PerSample,
}

/// The level of a sound source.
pub open spec fn is_level(p: PatchParam) -> bool {
    p is Osc1Level || p is Osc2Level || p is SubLevel || p is NoiseLevel
}

/// The pulse width of an oscillator.
pub open spec fn is_pulse_width(p: PatchParam) -> bool {
    p is Osc1PulseWidth || p is Osc2PulseWidth
}

/// How much an LFO, an envelope, the velocity or the pitch wheel moves something.
pub open spec fn is_route_depth(p: PatchParam) -> bool {
    ||| p is PitchLfoDepth || p is PitchEnvDepth || p is PitchWheelDepth
    ||| p is PwmLfoDepth || p is PwmEnvDepth
    ||| p is CutoffLfo1Depth || p is CutoffLfo2Depth || p is CutoffEnvDepth || p is VelCutoffDepth
    ||| p is AmpLfoDepth
}

/// How much the modulation wheel moves something.
pub open spec fn is_wheel_depth(p: PatchParam) -> bool {
    p is ModWheelPwm || p is ModWheelCutoff || p is ModWheelReso || p is ModWheelCrossModSweep
}

/// A gain-like value: a level, a pulse width, the depth of a route, or the amount of cross
/// modulation.
pub open spec fn is_gain_like(p: PatchParam) -> bool {
    ||| is_level(p)
    ||| is_pulse_width(p)
    ||| is_route_depth(p)
    ||| is_wheel_depth(p)
    ||| p is CrossModAmount
}

pub open spec fn spec_patch_glide(p: PatchParam) -> Glide {
    if is_gain_like(p) {
        Glide::Block
    } else {
        Glide::Snap
    }
}

/// How a patch parameter is smoothed: gain-like values glide, the rest jump.
#[verifier::when_used_as_spec(spec_patch_glide)]
pub fn patch_glide(p: PatchParam) -> (r: Glide)
    ensures
        r == patch_glide(p),
{
    match p {
        PatchParam::Osc1Level
        | PatchParam::Osc1PulseWidth
        | PatchParam::Osc2Level
        | PatchParam::Osc2PulseWidth
        | PatchParam::SubLevel
        | PatchParam::CrossModAmount
        | PatchParam::NoiseLevel
        | PatchParam::AmpLfoDepth
        | PatchParam::PitchLfoDepth
        | PatchParam::PitchEnvDepth
        | PatchParam::PitchWheelDepth
        | PatchParam::PwmLfoDepth
        | PatchParam::PwmEnvDepth
        | PatchParam::CutoffLfo1Depth
        | PatchParam::CutoffLfo2Depth
        | PatchParam::CutoffEnvDepth
        | PatchParam::VelCutoffDepth
        | PatchParam::ModWheelPwm
        | PatchParam::ModWheelCutoff
        | PatchParam::ModWheelReso
        | PatchParam::ModWheelCrossModSweep => Glide::Block,
        _ => Glide::Snap,
    }
}

/// What is chosen from a list or switched is never glided: only continuous values are.
pub proof fn lemma_only_continuous_values_glide(p: PatchParam)
    ensures
        patch_glide(p) == Glide::Block ==> p.desc().kind is Float,
{
    reveal(PatchParam::spec_desc);
}

pub open spec fn spec_global_glide(g: GlobalParam) -> Glide {
    match g {
        GlobalParam::MasterVolume => Glide::PerSample,
        _ => Glide::Snap,
    }
}

/// How a global parameter is smoothed.
#[verifier::when_used_as_spec(spec_global_glide)]
pub fn global_glide(g: GlobalParam) -> (r: Glide)
    ensures
        r == global_glide(g),
{
    match g {
        GlobalParam::MasterVolume => Glide::PerSample,
        _ => Glide::Snap,
    }
}

/// The value of a patch parameter one block on.
pub open spec fn next_patch<A: Fn(Op, Plain, Plain) -> Plain>(
    fpu: &Fpu<A>,
    p: PatchParam,
    cur: Plain,
    tgt: Plain,
    coeff: Plain,
) -> Plain {
    p.desc().clamp(
        match patch_glide(p) {
            Glide::Block => glide_step(fpu, cur, tgt, coeff),
            _ => tgt,
        },
    )
}

/// Where a patch parameter is after `n` blocks with the same target.
pub open spec fn glided<A: Fn(Op, Plain, Plain) -> Plain>(
    fpu: &Fpu<A>,
    p: PatchParam,
    start: Plain,
    tgt: Plain,
    coeff: Plain,
    n: nat,
) -> Plain
    decreases n,
{
    if n == 0 {
        start
    } else {
        next_patch(fpu, p, glided(fpu, p, start, tgt, coeff, (n - 1) as nat), tgt, coeff)
    }
}

/// How far a value is from its target, in steps between neighbouring values from zero on.
pub open spec fn steps_away<A: Fn(Op, Plain, Plain) -> Plain>(
    fpu: &Fpu<A>,
    x: Plain,
    tgt: Plain,
) -> int {
    fpu.sub(tgt, x).mag() as int
}

/// The first `n` blocks bring a parameter to its target or closer: each that does not arrive
/// gains at least `gain` steps. A step from the target itself ends within the snap distance.
pub open spec fn closes_in<A: Fn(Op, Plain, Plain) -> Plain>(
    fpu: &Fpu<A>,
    p: PatchParam,
    start: Plain,
    tgt: Plain,
    coeff: Plain,
    gain: nat,
    n: nat,
) -> bool {
    &&& forall|i: nat|
        i < n ==> {
            let x = #[trigger] glided(fpu, p, start, tgt, coeff, i);
            let next = next_patch(fpu, p, x, tgt, coeff);
            x == tgt || next == tgt || steps_away(fpu, next, tgt) + gain <= steps_away(fpu, x, tgt)
        }
    &&& fpu.sub(tgt, fpu.add(tgt, fpu.mul(coeff, fpu.sub(tgt, tgt)))).abs().less(num(F0_000001))
}

/// Smoothing settles exactly. A parameter that closes in on a target in its range is on that
/// target, not merely near, as soon as the blocks make up for the distance it started from,
/// and there it stays with every further block.
pub proof fn lemma_smoothing_settles<A: Fn(Op, Plain, Plain) -> Plain>(
    fpu: &Fpu<A>,
    p: PatchParam,
    start: Plain,
    tgt: Plain,
    coeff: Plain,
    gain: nat,
    n: nat,
    more: nat,
)
    requires
        p.desc().in_range(tgt),
        closes_in(fpu, p, start, tgt, coeff, gain, n),
        n * gain > steps_away(fpu, start, tgt),
    ensures
        glided(fpu, p, start, tgt, coeff, n + more) == tgt,
    decreases more,
{
    p.lemma_desc_wf();
    p.desc().lemma_clamp_in_range(tgt);
    if more == 0 {
        lemma_smoothing_closes_in(fpu, p, start, tgt, coeff, gain, n);
    } else {
        lemma_smoothing_settles(fpu, p, start, tgt, coeff, gain, n, (more - 1) as nat);
        assert((n + more - 1) as nat == n + (more - 1) as nat);
    }
}

proof fn lemma_smoothing_closes_in<A: Fn(Op, Plain, Plain) -> Plain>(
    fpu: &Fpu<A>,
    p: PatchParam,
    start: Plain,
    tgt: Plain,
    coeff: Plain,
    gain: nat,
    n: nat,
)
    requires
        p.desc().in_range(tgt),
        closes_in(fpu, p, start, tgt, coeff, gain, n),
    ensures
        ({
            let x = glided(fpu, p, start, tgt, coeff, n);
            x == tgt || steps_away(fpu, x, tgt) + n * gain <= steps_away(fpu, start, tgt)
        }),
    decreases n,
{
    if n > 0 {
        let m = (n - 1) as nat;
        lemma_smoothing_closes_in(fpu, p, start, tgt, coeff, gain, m);
        let x = glided(fpu, p, start, tgt, coeff, m);
        assert(glided(fpu, p, start, tgt, coeff, n) == next_patch(fpu, p, x, tgt, coeff));
        p.lemma_desc_wf();
        p.desc().lemma_clamp_in_range(tgt);
        assert(n * gain == m * gain + gain) by (nonlinear_arith)
            requires
                n == m + 1,
        ;
    } else {
        assert(n * gain == 0) by (nonlinear_arith)
            requires
                n == 0,
        ;
    }
}

/// Where the step toward zero takes a level: down, and from the snap distance on by at least a
/// thirty-second of an octave.
pub open spec fn falls<A: Fn(Op, Plain, Plain) -> Plain>(fpu: &Fpu<A>, coeff: Plain) -> bool {
    forall|x: Plain|
        num(ZERO).less(x) && x.at_most(num(ONE)) ==> {
            let next = #[trigger] fpu.add(x, fpu.mul(coeff, fpu.sub(num(ZERO), x)));
            &&& next.is_number() && !next.negative()
            &&& next.bits <= x.bits
            &&& num(F0_000001).at_most(x) ==> next.bits + 0x4_0000 <= x.bits
        }
}

/// A level turned down from one or below is exactly zero after 640 blocks, not merely small,
/// and stays zero, where the unit's steps fall.
pub proof fn lemma_levels_fall_silent<A: Fn(Op, Plain, Plain) -> Plain>(
    fpu: &Fpu<A>,
    p: PatchParam,
    start: Plain,
    coeff: Plain,
    n: nat,
)
    requires
        fpu.keeps_units(),
        coeff.is_number(),
        falls(fpu, coeff),
        num(ZERO).at_most(start) && start.at_most(num(ONE)),
        p.desc().in_range(num(ZERO)) && p.desc().in_range(start),
        n >= 640,
    ensures
        glided(fpu, p, start, num(ZERO), coeff, n) == num(ZERO),
{
    lemma_level_falls(fpu, p, start, coeff, n);
}

proof fn lemma_level_falls<A: Fn(Op, Plain, Plain) -> Plain>(
    fpu: &Fpu<A>,
    p: PatchParam,
    start: Plain,
    coeff: Plain,
    n: nat,
)
    requires
        fpu.keeps_units(),
        coeff.is_number(),
        falls(fpu, coeff),
        num(ZERO).at_most(start) && start.at_most(num(ONE)),
        p.desc().in_range(num(ZERO)) && p.desc().in_range(start),
    ensures
        ({
            let x = glided(fpu, p, start, num(ZERO), coeff, n);
            ||| n > 0 && x == num(ZERO)
            ||| n == 0 && x == start
            ||| !x.negative() && !start.negative() && F0_000001 <= x.bits && x.bits + n * 0x4_0000
                <= start.bits
        }),
    decreases n,
{
    if n > 0 {
        let (zero, m) = (num(ZERO), (n - 1) as nat);
        lemma_level_falls(fpu, p, start, coeff, m);
        p.lemma_desc_wf();
        let x = glided(fpu, p, start, zero, coeff, m);
        let next = fpu.add(x, fpu.mul(coeff, fpu.sub(zero, x)));
        let r = next_patch(fpu, p, x, zero, coeff);
        assert(glided(fpu, p, start, zero, coeff, n) == r);
        p.desc().lemma_clamp_in_range(zero);
        if !x.is_zero() {
            assert(!x.negative() && zero.less(x) && x.at_most(num(ONE)));
            fpu.lemma_from_zero(next);
            assert(fpu.sub(zero, next).abs() == next);
            p.desc().lemma_clamp_in_range(next);
        } else {
            fpu.lemma_zero_adds(zero, x);
            fpu.lemma_units_multiply(coeff);
            fpu.lemma_zero_adds(x, fpu.mul(coeff, zero));
            fpu.lemma_from_zero(next);
        }
    }
}

fn tick_patch<A: Fn(Op, Plain, Plain) -> Plain>(
    fpu: &Fpu<A>,
    cur: &mut PatchValues,
    tgt: &PatchValues,
    coeff: Plain,
)
    requires
        fpu.valid(),
    ensures
        forall|p: PatchParam| #[trigger] final(cur).get(p) == next_patch(
            fpu,
            p,
            old(cur).get(p),
            tgt.get(p),
            coeff,
        ),
        old(cur).wf() ==> final(cur).wf(),
{
    for i in 0..PATCH_COUNT
        invariant
            fpu.valid(),
            forall|p: PatchParam| p.index() < i ==> #[trigger] cur.get(p) == next_patch(
                fpu,
                p,
                old(cur).get(p),
                tgt.get(p),
                coeff,
            ),
            forall|p: PatchParam| p.index() >= i ==> #[trigger] cur.get(p) == old(cur).get(p),
            old(cur).wf() ==> cur.wf(),
    {
        proof {
            PatchParam::lemma_from_index_inverts(i);
        }
        if let Some(p) = PatchParam::from_index(i) {
            let to = match patch_glide(p) {
                Glide::Block => glide_step(fpu, cur.get(p), tgt.get(p), coeff),
                _ => tgt.get(p),
            };
            let ghost before = *cur;
            cur.set(p, to);
            proof {
                assert forall|q: PatchParam| q.index() < i + 1 implies #[trigger] cur.get(q)
                    == next_patch(fpu, q, old(cur).get(q), tgt.get(q), coeff) by {
                    q.lemma_index_roundtrips();
                    assert(before.get(q) == before.get(q));
                }
                assert forall|q: PatchParam| q.index() >= i + 1 implies #[trigger] cur.get(q)
                    == old(cur).get(q) by {
                    assert(before.get(q) == old(cur).get(q));
                }
            }
        }
    }
    proof {
        assert forall|p: PatchParam| #[trigger] cur.get(p) == next_patch(
            fpu,
            p,
            old(cur).get(p),
            tgt.get(p),
            coeff,
        ) by {
            p.lemma_index_roundtrips();
        }
    }
}

fn snap_global(cur: &mut GlobalValues, tgt: &GlobalValues)
    ensures
        forall|g: GlobalParam| #[trigger] final(cur).get(g) == g.desc().clamp(tgt.get(g)),
        old(cur).wf() ==> final(cur).wf(),
{
    for i in 0..GLOBAL_COUNT
        invariant
            forall|g: GlobalParam| g.index() < i ==> #[trigger] cur.get(g) == g.desc().clamp(
                tgt.get(g),
            ),
            old(cur).wf() ==> cur.wf(),
    {
        proof {
            GlobalParam::lemma_from_index_inverts(i);
        }
        if let Some(g) = GlobalParam::from_index(i) {
            let ghost before = *cur;
            cur.set(g, tgt.get(g));
            proof {
                assert forall|q: GlobalParam| q.index() < i + 1 implies #[trigger] cur.get(q)
                    == q.desc().clamp(tgt.get(q)) by {
                    q.lemma_index_roundtrips();
                    assert(before.get(q) == before.get(q));
                }
            }
        }
    }
    proof {
        assert forall|g: GlobalParam| #[trigger] cur.get(g) == g.desc().clamp(tgt.get(g)) by {
            g.lemma_index_roundtrips();
        }
    }
}

/// Smooths gain-like values between the targets and what the engine reads each block.
/// Cutoff, resonance and drive jump here: the filter ramps its own coefficients.
#[derive(Clone, Copy)]
pub struct ParamSmoother {
    pub current: ParamValues,
    /// One-pole coefficient at the control rate.
    pub block_coeff: Plain,
    /// The per-sample smoother of the master volume.
    pub volume: Smoothed,
}

pub open spec fn spec_block_coeff<A: Fn(Op, Plain, Plain) -> Plain>(
    fpu: &Fpu<A>,
    sample_rate: Plain,
) -> Plain {
    one_pole_coeff(fpu, num(F10), fpu.div(sample_rate, num(F32)))
}

/// The coefficient of the block-rate glide.
#[verifier::when_used_as_spec(spec_block_coeff)]
pub fn block_coeff<A: Fn(Op, Plain, Plain) -> Plain>(fpu: &Fpu<A>, sample_rate: Plain) -> (r: Plain)
    requires
        fpu.valid(),
    ensures
        r == block_coeff(fpu, sample_rate),
{
    one_pole_coeff(fpu, num(F10), fpu.div(sample_rate, num(F32)))
}

impl ParamSmoother {
    pub fn new<A: Fn(Op, Plain, Plain) -> Plain>(
        fpu: &Fpu<A>,
        sample_rate: Plain,
        targets: &ParamValues,
    ) -> (r: Self)
        requires
            fpu.valid(),
        ensures
            r.current == *targets,
            r.block_coeff == block_coeff(fpu, sample_rate),
            r.volume == (Smoothed {
                value: targets.global.get(GlobalParam::MasterVolume),
                target: targets.global.get(GlobalParam::MasterVolume),
                coeff: one_pole_coeff(fpu, num(F5), sample_rate),
            }),
    {
        ParamSmoother {
            current: *targets,
            block_coeff: block_coeff(fpu, sample_rate),
            volume: Smoothed::new(
                fpu,
                targets.global.get(GlobalParam::MasterVolume),
                num(F5),
                sample_rate,
            ),
        }
    }

    pub fn set_sample_rate<A: Fn(Op, Plain, Plain) -> Plain>(
        &mut self,
        fpu: &Fpu<A>,
        sample_rate: Plain,
    )
        requires
            fpu.valid(),
        ensures
            final(self).current == old(self).current,
            final(self).block_coeff == block_coeff(fpu, sample_rate),
            final(self).volume == (Smoothed {
                coeff: one_pole_coeff(fpu, num(F5), sample_rate),
                ..old(self).volume
            }),
    {
        self.block_coeff = block_coeff(fpu, sample_rate);
        self.volume.set_time(fpu, num(F5), sample_rate);
    }

    /// Jump every value to its target.
    pub fn snap_all(&mut self, targets: &ParamValues)
        ensures
            final(self).current == *targets,
            final(self).block_coeff == old(self).block_coeff,
            final(self).volume == (Smoothed {
                value: targets.global.get(GlobalParam::MasterVolume),
                target: targets.global.get(GlobalParam::MasterVolume),
                ..old(self).volume
            }),
    {
        self.current = *targets;
        self.volume.snap(targets.global.get(GlobalParam::MasterVolume));
    }

    /// One block on: block-rate values a step closer to their targets, the rest on theirs, and
    /// the volume on its way.
    pub open spec fn is_tick<A: Fn(Op, Plain, Plain) -> Plain>(
        fpu: &Fpu<A>,
        pre: &ParamSmoother,
        post: &ParamSmoother,
        targets: &ParamValues,
    ) -> bool {
        &&& forall|layer: Layer, p: PatchParam| #[trigger] post.current.layer(layer).get(p)
            == next_patch(
            fpu,
            p,
            pre.current.layer(layer).get(p),
            targets.layer(layer).get(p),
            pre.block_coeff,
        )
        &&& forall|g: GlobalParam| #[trigger] post.current.global.get(g) == g.desc().clamp(
            targets.global.get(g),
        )
        &&& post.block_coeff == pre.block_coeff
        &&& post.volume == (Smoothed {
            target: targets.global.get(GlobalParam::MasterVolume),
            ..pre.volume
        })
    }

    /// Ticking again and again toward the same targets takes a level whose target is zero to
    /// exactly zero within 640 blocks, and it is zero from there on.
    pub proof fn lemma_turned_down_is_silent<A: Fn(Op, Plain, Plain) -> Plain>(
        fpu: &Fpu<A>,
        trace: Seq<ParamSmoother>,
        targets: &ParamValues,
        layer: Layer,
        p: PatchParam,
    )
        requires
            trace.len() > 640,
            forall|i: int|
                #![trigger trace[i]]
                1 <= i < trace.len() ==> ParamSmoother::is_tick(
                    fpu,
                    &trace[i - 1],
                    &trace[i],
                    targets,
                ),
            fpu.keeps_units(),
            trace[0].block_coeff.is_number(),
            falls(fpu, trace[0].block_coeff),
            ({
                let start = trace[0].current.layer(layer).get(p);
                &&& num(ZERO).at_most(start) && start.at_most(num(ONE))
                &&& p.desc().in_range(start)
            }),
            targets.layer(layer).get(p) == num(ZERO),
            p.desc().in_range(num(ZERO)),
        ensures
            forall|n: int|
                640 <= n < trace.len() ==> (#[trigger] trace[n]).current.layer(layer).get(p) == num(
                    ZERO,
                ),
    {
        let start = trace[0].current.layer(layer).get(p);
        let coeff = trace[0].block_coeff;
        assert forall|n: int| 640 <= n < trace.len() implies (#[trigger] trace[n]).current.layer(
            layer,
        ).get(p) == num(ZERO) by {
            ParamSmoother::lemma_ticks_glide(fpu, trace, targets, layer, p, n as nat);
            lemma_levels_fall_silent(fpu, p, start, coeff, n as nat);
        }
    }

    proof fn lemma_ticks_glide<A: Fn(Op, Plain, Plain) -> Plain>(
        fpu: &Fpu<A>,
        trace: Seq<ParamSmoother>,
        targets: &ParamValues,
        layer: Layer,
        p: PatchParam,
        n: nat,
    )
        requires
            n < trace.len(),
            forall|i: int|
                #![trigger trace[i]]
                1 <= i < trace.len() ==> ParamSmoother::is_tick(
                    fpu,
                    &trace[i - 1],
                    &trace[i],
                    targets,
                ),
        ensures
            trace[n as int].block_coeff == trace[0].block_coeff,
            trace[n as int].current.layer(layer).get(p) == glided(
                fpu,
                p,
                trace[0].current.layer(layer).get(p),
                targets.layer(layer).get(p),
                trace[0].block_coeff,
                n,
            ),
        decreases n,
    {
        if n > 0 {
            ParamSmoother::lemma_ticks_glide(fpu, trace, targets, layer, p, (n - 1) as nat);
            assert(ParamSmoother::is_tick(fpu, &trace[n - 1], &trace[n as int], targets));
        }
    }

    /// Advance the block-rate values one step toward the targets, jump the rest, and
    /// give the volume smoother its target. Once per control block.
    pub fn tick_block<A: Fn(Op, Plain, Plain) -> Plain>(
        &mut self,
        fpu: &Fpu<A>,
        targets: &ParamValues,
    )
        requires
            fpu.valid(),
        ensures
            ParamSmoother::is_tick(fpu, old(self), final(self), targets),
            old(self).current.wf() ==> final(self).current.wf(),
    {
        let coeff = self.block_coeff;
        tick_patch(fpu, &mut self.current.upper, &targets.upper, coeff);
        tick_patch(fpu, &mut self.current.lower, &targets.lower, coeff);
        self.volume.set_target(targets.global.get(GlobalParam::MasterVolume));
        snap_global(&mut self.current.global, &targets.global);
    }

    /// The values that the engine reads each block.
    pub fn values(&self) -> (r: &ParamValues)
        ensures
            *r == self.current,
    {
        &self.current
    }

    /// Advance and return the per-sample master volume.
    pub fn next_volume<A: Fn(Op, Plain, Plain) -> Plain>(&mut self, fpu: &Fpu<A>) -> (r: Plain)
        requires
            fpu.valid(),
        ensures
            *final(self) == (ParamSmoother { volume: old(self).volume.ticked(fpu), ..*old(self) }),
            r == final(self).volume.value,
    {
        self.volume.tick(fpu)
    }
}

/// A smoothed value heads for its target: it never moves away from it, stays once it is there,
/// and with a full coefficient arrives at once. Only the value moves.
pub proof fn lemma_smoothed_heads_for_target<A: Fn(Op, Plain, Plain) -> Plain>(
    fpu: &Fpu<A>,
    s: Smoothed,
    way: Plain,
)
    requires
        fpu.rounds(),
        s.value.is_number() && s.target.is_number() && way.is_number(),
        way.scaled() == s.target.scaled() - s.value.scaled(),
        s.coeff.is_finite() && 0 <= s.coeff.scaled() <= plain::unit(),
    ensures
        ({
            let next = s.ticked(fpu);
            &&& s.value.at_most(s.target) ==> s.value.at_most(next.value)
            &&& s.target.at_most(s.value) ==> next.value.at_most(s.value)
            &&& s.value.equals(s.target) ==> next.value.equals(s.target)
            &&& s.coeff == num(ONE) ==> next.value.equals(s.target)
            &&& next.target == s.target && next.coeff == s.coeff
        }),
{
    math::lemma_part_way(fpu, s.value, s.target, s.coeff, way);
}

/// A glide step heads for its target, and takes it as it is once it is near.
pub proof fn lemma_glide_heads_for_target<A: Fn(Op, Plain, Plain) -> Plain>(
    fpu: &Fpu<A>,
    cur: Plain,
    tgt: Plain,
    coeff: Plain,
    way: Plain,
)
    requires
        fpu.rounds(),
        cur.is_number() && tgt.is_number() && way.is_number(),
        way.scaled() == tgt.scaled() - cur.scaled(),
        coeff.is_finite() && 0 <= coeff.scaled() <= plain::unit(),
    ensures
        ({
            let r = glide_step(fpu, cur, tgt, coeff);
            &&& cur.at_most(tgt) ==> cur.at_most(r)
            &&& tgt.at_most(cur) ==> r.at_most(cur)
            &&& coeff == num(ONE) ==> r.equals(tgt)
            &&& coeff.is_zero() ==> r.equals(cur) || r == tgt
        }),
{
    math::lemma_part_way(fpu, cur, tgt, coeff, way);
}

/// A longer time constant moves a glide by less, so long as the unit keeps the order of the two
/// exponentials.
pub proof fn lemma_longer_constant_moves_less<A: Fn(Op, Plain, Plain) -> Plain>(
    fpu: &Fpu<A>,
    short: Plain,
    long: Plain,
    rate: Plain,
)
    requires
        fpu.rounds(),
        rate.is_finite() && rate.scaled() >= 0,
        short.is_finite() && long.is_finite() && short.at_most(long),
        fpu.mul(short, num(F0_001)).is_finite() && fpu.mul(long, num(F0_001)).is_finite(),
        ms_to_samples(fpu, short, rate).is_finite() && ms_to_samples(fpu, long, rate).is_finite(),
        ({
            let m = ms_to_samples(fpu, short, rate).max(num(ONE));
            let n = ms_to_samples(fpu, long, rate).max(num(ONE));
            let (a, b) = (fpu.div(num(MINUS_ONE), m), fpu.div(num(MINUS_ONE), n));
            &&& fpu.exp(a).is_finite() && fpu.exp(b).is_finite()
            &&& a.at_most(b) ==> fpu.exp(a).at_most(fpu.exp(b))
        }),
    ensures
        ms_to_samples(fpu, short, rate).at_most(ms_to_samples(fpu, long, rate)),
        one_pole_coeff(fpu, long, rate).at_most(one_pole_coeff(fpu, short, rate)),
{
    plain::lemma_small_values();
    plain::lemma_scaled_sign(num(F0_001));
    fpu.lemma_scaling_rises(short, long, num(F0_001));
    fpu.lemma_scaling_rises(fpu.mul(short, num(F0_001)), fpu.mul(long, num(F0_001)), rate);
    let m = ms_to_samples(fpu, short, rate).max(num(ONE));
    let n = ms_to_samples(fpu, long, rate).max(num(ONE));
    plain::lemma_equal_scaled(m, n);
    plain::lemma_equal_scaled(num(ONE), m);
    let (s, t, u) = (m.scaled(), n.scaled(), plain::unit());
    assert((-u) * t <= (-u) * s) by (nonlinear_arith)
        requires
            u > 0,
            s <= t,
    ;
    fpu.lemma_div_order(num(MINUS_ONE), m, num(MINUS_ONE), n);
    let (a, b) = (fpu.div(num(MINUS_ONE), m), fpu.div(num(MINUS_ONE), n));
    plain::lemma_equal_scaled(fpu.exp(a), fpu.exp(b));
    fpu.lemma_sub_order(num(ONE), fpu.exp(b), num(ONE), fpu.exp(a));
}

} // verus!
