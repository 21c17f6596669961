//! Two instruments in the same state: what they play, and how a span can be cut.
use crate::buffers;
use crate::chorus::chorus_samples;
use crate::delay::{self, Ring};
use crate::domain::Layer;
use crate::effects::{self, EffectState};
use crate::fpu::{Fpu, Op};
use crate::halfband;
use crate::modulation::{block_glide, BlockCtx};
use crate::nums::{F0_25, TWO};
use crate::params::{GlobalParam, ParamRef, PatchParam};
use crate::plain::{num, Plain};
use crate::render::{self, base_rate, Rendering};
use crate::smoothing::Smoothed;
use crate::synth::{self, EnvSnapshot, LimiterStep, Synth};
use crate::values::{GlobalValues, ParamValues, PatchValues};
use crate::voice::VoiceBank;
use crate::vreverb::{DiffuserState, DIFFUSER_L0, DIFFUSER_L1, DIFFUSER_R0, DIFFUSER_R1};
use crate::{CHANNELS_PER_LAYER, CONTROL_BLOCK};
use vstd::prelude::*;

verus! {

/// Values that agree, but for the reverb's knobs where those are `free`.
pub open spec fn same_values(a: ParamValues, b: ParamValues, free: bool) -> bool {
    &&& a.upper == b.upper
    &&& a.lower == b.lower
    &&& forall|g: GlobalParam|
        #[trigger] a.global.get(g) == b.global.get(g) || (free && effects::is_reverb_knob(g))
}

/// Effects in the same state, but for the reverb where that is `free`.
pub open spec fn same_effects(a: EffectState, b: EffectState, free: bool) -> bool {
    &&& a.same_but_reverb(b)
    &&& !free ==> a == b
}

/// Banks whose voices and notes are the same.
pub open spec fn same_voices(a: VoiceBank, b: VoiceBank) -> bool {
    &&& a.lanes() == b.lanes()
    &&& a.level_comp == b.level_comp
    &&& a.unison == b.unison
    &&& a.lfo1_seed == b.lfo1_seed
    &&& a.unison_rng == b.unison_rng
    &&& a.mono@ == b.mono@
}

/// Two instruments in the same state. Where the reverb is left `free`, it is off in both,
/// and its knobs and its state may differ.
pub open spec fn are_twins(a: &Synth, b: &Synth, free: bool) -> bool {
    &&& a.sample_rate == b.sample_rate
    &&& same_values(a.params, b.params, free)
    &&& same_values(a.smoother.current, b.smoother.current, free)
    &&& a.smoother.block_coeff == b.smoother.block_coeff
    &&& a.smoother.volume == b.smoother.volume
    &&& same_voices(a.upper, b.upper)
    &&& same_voices(a.lower, b.lower)
    &&& a.lfo2 == b.lfo2
    &&& same_effects(a.effects@, b.effects@, free)
    &&& a.oversampler@ == b.oversampler@
    &&& a.bend_norm == b.bend_norm
    &&& a.mod_wheel == b.mod_wheel
    &&& a.key_mode == b.key_mode
    &&& a.split_point == b.split_point
    &&& a.tempo_bpm == b.tempo_bpm
    &&& a.alloc_counter == b.alloc_counter
    &&& a.rr_layer == b.rr_layer
    &&& a.last_env@ == b.last_env@
    &&& a.last_os == b.last_os
    &&& free ==> !a.params.global.bool(GlobalParam::ReverbOn)
}

/// Patches that agree on every parameter are the same.
proof fn lemma_patches_agree(a: PatchValues, b: PatchValues)
    requires
        forall|p: PatchParam| #[trigger] a.get(p) == b.get(p),
    ensures
        a == b,
{
    assert forall|i: int| 0 <= i < a.v@.len() implies a.v@[i] == b.v@[i] by {
        PatchParam::lemma_from_index_inverts(i as usize);
        let p = PatchParam::from_index(i as usize)->0;
        assert(a.get(p) == b.get(p));
    }
    assert(a.v =~= b.v);
}

/// Global values that agree on every parameter are the same.
proof fn lemma_globals_agree(a: GlobalValues, b: GlobalValues)
    requires
        forall|g: GlobalParam| #[trigger] a.get(g) == b.get(g),
    ensures
        a == b,
{
    assert forall|i: int| 0 <= i < a.v@.len() implies a.v@[i] == b.v@[i] by {
        GlobalParam::lemma_from_index_inverts(i as usize);
        let g = GlobalParam::from_index(i as usize)->0;
        assert(a.get(g) == b.get(g));
    }
    assert(a.v =~= b.v);
}

/// Smoothed values that start alike and glide toward the same targets stay alike.
proof fn lemma_glides_agree<A: Fn(Op, Plain, Plain) -> Plain>(
    fpu: &Fpu<A>,
    a: &Synth,
    b: &Synth,
    now_a: ParamValues,
    now_b: ParamValues,
    free: bool,
)
    requires
        are_twins(a, b, free),
        synth::glided(fpu, a.smoother, a.params, now_a),
        synth::glided(fpu, b.smoother, b.params, now_b),
    ensures
        same_values(now_a, now_b, free),
{
    assert forall|p: PatchParam| #[trigger] now_a.upper.get(p) == now_b.upper.get(p) by {
        assert(now_a.layer(Layer::Upper).get(p) == now_b.layer(Layer::Upper).get(p));
    }
    assert forall|p: PatchParam| #[trigger] now_a.lower.get(p) == now_b.lower.get(p) by {
        assert(now_a.layer(Layer::Lower).get(p) == now_b.layer(Layer::Lower).get(p));
    }
    lemma_patches_agree(now_a.upper, now_b.upper);
    lemma_patches_agree(now_a.lower, now_b.lower);
    assert forall|g: GlobalParam| #[trigger] now_a.global.get(g) == now_b.global.get(g) || (free
        && effects::is_reverb_knob(g)) by {
        assert(a.params.global.get(g) == b.params.global.get(g) || (free
            && effects::is_reverb_knob(g)));
    }
}

/// What the voices of a layer share for a block does not depend on the reverb's knobs.
proof fn lemma_contexts_agree<A: Fn(Op, Plain, Plain) -> Plain>(
    fpu: &Fpu<A>,
    a: &Synth,
    b: &Synth,
    vals_a: ParamValues,
    vals_b: ParamValues,
    layer: usize,
    wheel: Plain,
    lfo2_val: Plain,
    free: bool,
)
    requires
        are_twins(a, b, free),
        same_values(vals_a, vals_b, free),
    ensures
        a.ctx_for(fpu, &vals_a, layer, wheel, lfo2_val) == b.ctx_for(
            fpu,
            &vals_b,
            layer,
            wheel,
            lfo2_val,
        ),
{
    assert(vals_a.global.get(GlobalParam::MasterTune) == vals_b.global.get(
        GlobalParam::MasterTune,
    ));
    reveal(synth::spec_build_ctx);
}

/// What twins play in a block is the same, and they stay twins.
proof fn lemma_block_of_twins<A: Fn(Op, Plain, Plain) -> Plain>(
    fpu: &Fpu<A>,
    a: &Synth,
    a2: &Synth,
    la: Seq<Plain>,
    ra: Seq<Plain>,
    b: &Synth,
    b2: &Synth,
    lb: Seq<Plain>,
    rb: Seq<Plain>,
    free: bool,
)
    requires
        are_twins(a, b, free),
        Synth::is_block(fpu, a, a2, la, ra),
        Synth::is_block(fpu, b, b2, lb, rb),
        la.len() == lb.len(),
    ensures
        la == lb,
        ra == rb,
        are_twins(a2, b2, free),
{
    reveal(Synth::is_block);
    let (va, vb) = (a2.smoother.current, b2.smoother.current);
    lemma_glides_agree(fpu, a, b, va, vb, free);
    let wheel = a.mod_wheel.ticked(fpu);
    let lfo2 = a.lfo2.advanced(fpu);
    assert(va.global.get(GlobalParam::Lfo2Shape) == vb.global.get(GlobalParam::Lfo2Shape));
    assert(va.global.get(GlobalParam::Lfo2Rate) == vb.global.get(GlobalParam::Lfo2Rate));
    assert(va.global.get(GlobalParam::Lfo2Sync) == vb.global.get(GlobalParam::Lfo2Sync));
    let lfo2_val = lfo2.reading(fpu, va.global.lfo2_shape());
    lemma_contexts_agree(fpu, a, b, va, vb, 0, wheel.value, lfo2_val, free);
    lemma_contexts_agree(fpu, a, b, va, vb, 1, wheel.value, lfo2_val, free);
    let (c0, c1) = (
        a.ctx_for(fpu, &va, 0, wheel.value, lfo2_val),
        a.ctx_for(fpu, &va, 1, wheel.value, lfo2_val),
    );
    let len = (la.len() * a.last_os) as nat;
    let x = synth::layered(fpu, a.upper, a.lower, c0, c1, len);
    assert(x == synth::layered(fpu, b.upper, b.lower, c0, c1, len)) by {
        reveal(synth::layered);
    }
    assert(a.params.global.get(GlobalParam::MasterVolume) == b.params.global.get(
        GlobalParam::MasterVolume,
    ));
    assert(a.params.global.get(GlobalParam::ChorusOn) == b.params.global.get(
        GlobalParam::ChorusOn,
    ));
    assert(a.params.global.get(GlobalParam::DelayOn) == b.params.global.get(
        GlobalParam::DelayOn,
    ));
    assert(a.params.global.get(GlobalParam::ReverbOn) == b.params.global.get(
        GlobalParam::ReverbOn,
    ));
    let volume = Smoothed {
        target: a.params.global.get(GlobalParam::MasterVolume),
        ..a.smoother.volume
    };
    let (stages, mono) = halfband::decimated(
        fpu,
        a.oversampler@,
        x.1.out,
        a.last_os as int,
        la.len(),
    );
    let dry = synth::with_volume(fpu, mono, volume);
    let (ta, tb) = (a.params.global.reverb_type(), b.params.global.reverb_type());
    if free {
        a.effects@.lemma_reverb_off_is_unheard(
            b.effects@,
            fpu,
            va.global,
            vb.global,
            ta,
            tb,
            a.tempo_bpm,
            a.switches(&va),
            vb.global.get(GlobalParam::ReverbMix),
            dry,
        );
    } else {
        lemma_globals_agree(va.global, vb.global);
        assert(a.params.global.get(GlobalParam::ReverbType) == b.params.global.get(
            GlobalParam::ReverbType,
        ));
    }
}

/// The length of control block `k` of `n` samples.
pub open spec fn block_len(n: int, k: int) -> int {
    if (k + 1) * CONTROL_BLOCK < n {
        CONTROL_BLOCK as int
    } else {
        n - k * CONTROL_BLOCK
    }
}

/// Control block `k` of a channel.
pub open spec fn block_of(x: Seq<Plain>, k: int) -> Seq<Plain> {
    x.subrange(k * CONTROL_BLOCK, k * CONTROL_BLOCK + block_len(x.len() as int, k))
}

/// Twins that play `k` blocks of the same lengths, from block `i` of one span and block `j`
/// of another, play the same samples and stay twins.
proof fn lemma_blocks_of_twins<A: Fn(Op, Plain, Plain) -> Plain>(
    fpu: &Fpu<A>,
    ta: Seq<Synth>,
    la: Seq<Plain>,
    ra: Seq<Plain>,
    i: int,
    tb: Seq<Synth>,
    lb: Seq<Plain>,
    rb: Seq<Plain>,
    j: int,
    k: nat,
    free: bool,
)
    requires
        Synth::is_span(fpu, ta, la, ra),
        Synth::is_span(fpu, tb, lb, rb),
        0 <= i && i + k < ta.len(),
        0 <= j && j + k < tb.len(),
        are_twins(&ta[i], &tb[j], free),
        forall|q: int|
            0 <= q < k ==> #[trigger] block_len(la.len() as int, i + q) == block_len(
                lb.len() as int,
                j + q,
            ),
    ensures
        are_twins(&ta[i + k], &tb[j + k], free),
        forall|q: int| 0 <= q < k ==> #[trigger] block_of(la, i + q) == block_of(lb, j + q),
        forall|q: int| 0 <= q < k ==> #[trigger] block_of(ra, i + q) == block_of(rb, j + q),
    decreases k,
{
    if k > 0 {
        lemma_blocks_of_twins(fpu, ta, la, ra, i, tb, lb, rb, j, (k - 1) as nat, free);
        let (u, v) = (i + k - 1, j + k - 1);
        assert(block_len(la.len() as int, i + (k - 1)) == block_len(lb.len() as int, j + (k - 1)));
        assert(Synth::block_at(fpu, ta, la, ra, u));
        assert(Synth::block_at(fpu, tb, lb, rb, v));
        lemma_block_of_twins(
            fpu,
            &ta[u],
            &ta[u + 1],
            block_of(la, u),
            block_of(ra, u),
            &tb[v],
            &tb[v + 1],
            block_of(lb, v),
            block_of(rb, v),
            free,
        );
        assert forall|q: int| 0 <= q < k implies #[trigger] block_of(la, i + q) == block_of(
            lb,
            j + q,
        ) by {
            if q < k - 1 {
                assert(block_of(la, i + q) == block_of(lb, j + q));
            }
        }
        assert forall|q: int| 0 <= q < k implies #[trigger] block_of(ra, i + q) == block_of(
            rb,
            j + q,
        ) by {
            if q < k - 1 {
                assert(block_of(ra, i + q) == block_of(rb, j + q));
            }
        }
    }
}

/// Channels whose blocks are the same are the same.
proof fn lemma_blocks_make_channels(a: Seq<Plain>, b: Seq<Plain>, k: int)
    requires
        a.len() == b.len(),
        k == (a.len() + CONTROL_BLOCK - 1) / CONTROL_BLOCK as int,
        forall|q: int| 0 <= q < k ==> #[trigger] block_of(a, q) == block_of(b, q),
    ensures
        a == b,
{
    assert forall|x: int| 0 <= x < a.len() implies a[x] == b[x] by {
        let q = x / CONTROL_BLOCK as int;
        assert(0 <= q < k);
        assert(block_of(a, q) == block_of(b, q));
        let y = x - q * CONTROL_BLOCK;
        assert(0 <= y < block_len(a.len() as int, q));
        assert(block_of(a, q)[y] == a[x]);
        assert(block_of(b, q)[y] == b[x]);
    }
    assert(a =~= b);
}

/// Twins made ready for a span are twins.
proof fn lemma_ready_twins<A: Fn(Op, Plain, Plain) -> Plain>(
    fpu: &Fpu<A>,
    a: &Synth,
    a2: &Synth,
    b: &Synth,
    b2: &Synth,
    free: bool,
)
    requires
        are_twins(a, b, free),
        a2.is_ready(fpu, a),
        b2.is_ready(fpu, b),
    ensures
        are_twins(a2, b2, free),
{
    assert(a.params.global.get(GlobalParam::Oversample) == b.params.global.get(
        GlobalParam::Oversample,
    ));
    assert forall|layer: usize| layer < 2 implies #[trigger] a.envelopes_current(layer)
        == b.envelopes_current(layer) && a.patch(layer) == b.patch(layer) by {}
    assert(a.envelopes_current(0) == b.envelopes_current(0));
    assert(a.envelopes_current(1) == b.envelopes_current(1));
    lemma_ready_bank(fpu, a.upper, a2.upper, b.upper, b2.upper, EnvSnapshot::of(&a.patch(0)));
    lemma_ready_bank(fpu, a.lower, a2.lower, b.lower, b2.lower, EnvSnapshot::of(&a.patch(1)));
    assert(a.bank(0) == a.upper && a.bank(1) == a.lower);
    assert(b.bank(0) == b.upper && b.bank(1) == b.lower);
    assert(a2.bank(0) == a2.upper && a2.bank(1) == a2.lower);
    assert(b2.bank(0) == b2.upper && b2.bank(1) == b2.lower);
    assert(a2.last_env@ =~= b2.last_env@);
}

/// Banks that are the same and get the same envelopes stay the same.
proof fn lemma_ready_bank<A: Fn(Op, Plain, Plain) -> Plain>(
    fpu: &Fpu<A>,
    a: VoiceBank,
    a2: VoiceBank,
    b: VoiceBank,
    b2: VoiceBank,
    snap: EnvSnapshot,
)
    requires
        same_voices(a, b),
    ensures
        synth::enveloped(fpu, a, snap, a2) && synth::enveloped(fpu, b, snap, b2) ==> same_voices(
            a2,
            b2,
        ),
{
    if synth::enveloped(fpu, a, snap, a2) && synth::enveloped(fpu, b, snap, b2) {
        assert forall|v: int| 0 <= v < CHANNELS_PER_LAYER implies a2.lane(v) == b2.lane(v) by {
            assert(a.lanes()[v] == b.lanes()[v]);
            assert(a2.channels@[v] == b2.channels@[v]);
        }
        assert(a2.lanes() =~= b2.lanes());
    }
}

/// With the reverb off throughout, its knobs have no effect: two instruments that differ in
/// the reverb alone write the same samples, and still differ in the reverb alone. With no
/// difference at all they end in the same state.
pub proof fn lemma_twins_sound_alike<A: Fn(Op, Plain, Plain) -> Plain>(
    fpu: &Fpu<A>,
    a: &Synth,
    a2: &Synth,
    la: Seq<Plain>,
    ra: Seq<Plain>,
    limiter_a: LimiterStep,
    b: &Synth,
    b2: &Synth,
    lb: Seq<Plain>,
    rb: Seq<Plain>,
    limiter_b: LimiterStep,
    free: bool,
)
    requires
        are_twins(a, b, free),
        a.limiter_was_on == b.limiter_was_on,
        Synth::is_rendering(fpu, a, a2, la, ra, limiter_a),
        Synth::is_rendering(fpu, b, b2, lb, rb, limiter_b),
        la.len() == lb.len(),
    ensures
        la == lb,
        ra == rb,
        limiter_a == limiter_b,
        are_twins(a2, b2, free),
        a2.limiter_was_on == b2.limiter_was_on,
{
    let ta = choose|trace: Seq<Synth>|
        {
            &&& #[trigger] Synth::is_span(fpu, trace, la, ra)
            &&& trace.first().is_ready(fpu, a)
            &&& *a2 == (Synth { limiter_was_on: a2.limiter_was_on, ..trace.last() })
        };
    let tb = choose|trace: Seq<Synth>|
        {
            &&& #[trigger] Synth::is_span(fpu, trace, lb, rb)
            &&& trace.first().is_ready(fpu, b)
            &&& *b2 == (Synth { limiter_was_on: b2.limiter_was_on, ..trace.last() })
        };
    assert(a.params.global.get(GlobalParam::LimiterOn) == b.params.global.get(
        GlobalParam::LimiterOn,
    ));
    lemma_ready_twins(fpu, a, &ta[0], b, &tb[0], free);
    let k = (ta.len() - 1) as nat;
    lemma_blocks_of_twins(fpu, ta, la, ra, 0, tb, lb, rb, 0, k, free);
    assert forall|q: int| 0 <= q < k implies #[trigger] block_of(la, q) == block_of(lb, q) by {
        assert(block_of(la, 0 + q) == block_of(lb, 0 + q));
    }
    assert forall|q: int| 0 <= q < k implies #[trigger] block_of(ra, q) == block_of(rb, q) by {
        assert(block_of(ra, 0 + q) == block_of(rb, 0 + q));
    }
    lemma_blocks_make_channels(la, lb, k as int);
    lemma_blocks_make_channels(ra, rb, k as int);
}

/// The voices' envelopes are set as a snapshot says.
pub open spec fn are_set<A: Fn(Op, Plain, Plain) -> Plain>(
    fpu: &Fpu<A>,
    bank: VoiceBank,
    snap: EnvSnapshot,
) -> bool {
    forall|v: int|
        0 <= v < CHANNELS_PER_LAYER ==> #[trigger] bank.channels@[v] == VoiceBank::with_envelopes(
            fpu,
            bank.channels@[v],
            snap.env1,
            snap.env1_shape,
            snap.env2,
            snap.env2_shape,
        )
}

/// A layer that a span has been played with: its envelopes follow its patch.
pub open spec fn is_current<A: Fn(Op, Plain, Plain) -> Plain>(
    fpu: &Fpu<A>,
    s: &Synth,
    layer: usize,
) -> bool {
    let snap = EnvSnapshot::of(&s.patch(layer));
    s.envelopes_current(layer) || (s.last_env@[layer as int] == Some(snap) && are_set(
        fpu,
        s.bank(layer as int),
        snap,
    ))
}

/// An instrument that a span has been played with.
pub open spec fn is_running<A: Fn(Op, Plain, Plain) -> Plain>(fpu: &Fpu<A>, s: &Synth) -> bool {
    &&& s.last_os == s.params.global.oversample_factor()
    &&& is_current(fpu, s, 0)
    &&& is_current(fpu, s, 1)
}

/// Being made ready sets an instrument running.
proof fn lemma_ready_runs<A: Fn(Op, Plain, Plain) -> Plain>(fpu: &Fpu<A>, s: &Synth, pre: &Synth)
    requires
        s.is_ready(fpu, pre),
    ensures
        is_running(fpu, s),
{
    assert forall|layer: usize| layer < 2 implies #[trigger] is_current(fpu, s, layer) by {
        assert(s.patch(layer) == pre.patch(layer));
        if !pre.envelopes_current(layer) {
            assert(pre.bank(layer as int) == pre.bank(layer as int));
        } else {
            assert(s.envelopes_current(layer));
        }
    }
    assert(is_current(fpu, s, 0));
    assert(is_current(fpu, s, 1));
}

/// Voices that were set stay set through a block.
proof fn lemma_block_keeps_set<A: Fn(Op, Plain, Plain) -> Plain>(
    fpu: &Fpu<A>,
    bank: VoiceBank,
    after: VoiceBank,
    ctx: BlockCtx,
    out: Seq<Plain>,
    snap: EnvSnapshot,
)
    requires
        are_set(fpu, bank, snap),
        after.lanes() == render::rendered(
            fpu,
            &ctx,
            bank.level_comp,
            bank.unison,
            Rendering { lanes: bank.lanes(), out },
        ).lanes,
    ensures
        are_set(fpu, after, snap),
{
    let r = Rendering { lanes: bank.lanes(), out };
    let n = (out.len() / ctx.os as nat) as usize;
    let glide = block_glide(
        fpu,
        ctx.portamento_time,
        bank.unison,
        n,
        base_rate(fpu, &ctx),
    );
    let p = render::block_pass(fpu, &ctx, glide, r.lanes);
    let start = Rendering {
        lanes: render::block_start(fpu, &ctx, glide, n, r.lanes),
        out,
    };
    assert forall|v: int| 0 <= v < CHANNELS_PER_LAYER implies #[trigger] after.channels@[v]
        == VoiceBank::with_envelopes(
        fpu,
        after.channels@[v],
        snap.env1,
        snap.env1_shape,
        snap.env2,
        snap.env2_shape,
    ) by {
        render::lemma_prepared_envelopes(fpu, &ctx, glide, bank.channels@[v]);
        render::lemma_envelope_settings_stay(fpu, p, bank.level_comp, start, n as nat, v);
        assert(bank.channels@[v] == bank.lanes()[v].ch);
        assert(after.channels@[v] == after.lanes()[v].ch);
        assert(start.lanes[v].ch.env1 == bank.channels@[v].env1);
        assert(start.lanes[v].ch.env2 == bank.channels@[v].env2);
    }
}

/// A block keeps an instrument running.
proof fn lemma_block_keeps_running<A: Fn(Op, Plain, Plain) -> Plain>(
    fpu: &Fpu<A>,
    pre: &Synth,
    post: &Synth,
    l: Seq<Plain>,
    r: Seq<Plain>,
)
    requires
        Synth::is_block(fpu, pre, post, l, r),
        is_running(fpu, pre),
    ensures
        is_running(fpu, post),
        post.params == pre.params,
        post.key_mode == pre.key_mode,
{
    reveal(Synth::is_block);
    let vals = post.smoother.current;
    let wheel = pre.mod_wheel.ticked(fpu);
    let lfo2_val = pre.lfo2.advanced(fpu).reading(fpu, vals.global.lfo2_shape());
    let c0 = pre.ctx_for(fpu, &vals, 0, wheel.value, lfo2_val);
    let c1 = pre.ctx_for(fpu, &vals, 1, wheel.value, lfo2_val);
    let len = (l.len() * pre.last_os) as nat;
    let (s0, s1) = (EnvSnapshot::of(&pre.patch(0)), EnvSnapshot::of(&pre.patch(1)));
    reveal(synth::layered);
    let x = synth::layered(fpu, pre.upper, pre.lower, c0, c1, len);
    if !pre.envelopes_current(0) {
        assert(pre.bank(0) == pre.upper);
        lemma_block_keeps_set(fpu, pre.upper, post.upper, c0, buffers::zeros(len), s0);
        assert(post.bank(0) == post.upper);
    } else {
        assert(post.envelopes_current(0));
    }
    if !pre.envelopes_current(1) {
        assert(pre.bank(1) == pre.lower);
        lemma_block_keeps_set(fpu, pre.lower, post.lower, c1, x.0.out, s1);
        assert(post.bank(1) == post.lower);
    } else {
        assert(post.envelopes_current(1));
    }
    assert(post.patch(0) == pre.patch(0) && post.patch(1) == pre.patch(1));
}

/// A span keeps an instrument running.
proof fn lemma_span_keeps_running<A: Fn(Op, Plain, Plain) -> Plain>(
    fpu: &Fpu<A>,
    trace: Seq<Synth>,
    l: Seq<Plain>,
    r: Seq<Plain>,
    k: nat,
)
    requires
        Synth::is_span(fpu, trace, l, r),
        k < trace.len(),
        is_running(fpu, &trace[0]),
    ensures
        is_running(fpu, &trace[k as int]),
    decreases k,
{
    if k > 0 {
        lemma_span_keeps_running(fpu, trace, l, r, (k - 1) as nat);
        assert(Synth::block_at(fpu, trace, l, r, k - 1));
        lemma_block_keeps_running(
            fpu,
            &trace[k - 1],
            &trace[k as int],
            block_of(l, k - 1),
            block_of(r, k - 1),
        );
    }
}

/// Making a running instrument ready again changes nothing of its state.
proof fn lemma_ready_again<A: Fn(Op, Plain, Plain) -> Plain>(
    fpu: &Fpu<A>,
    s: &Synth,
    again: &Synth,
)
    requires
        is_running(fpu, s),
        again.is_ready(fpu, s),
    ensures
        are_twins(again, s, false),
{
    assert forall|layer: usize| layer < 2 implies same_voices(
        #[trigger] again.bank(layer as int),
        s.bank(layer as int),
    ) && again.last_env@[layer as int] == s.last_env@[layer as int] by {
        assert(is_current(fpu, s, layer)) by {
            assert(is_current(fpu, s, 0) && is_current(fpu, s, 1));
        }
        let (a, b) = (again.bank(layer as int), s.bank(layer as int));
        if !s.envelopes_current(layer) {
            assert(synth::enveloped(fpu, b, EnvSnapshot::of(&s.patch(layer)), a));
            assert forall|v: int| 0 <= v < CHANNELS_PER_LAYER implies a.lane(v) == b.lane(v) by {
                assert(a.channels@[v] == b.channels@[v]);
            }
            assert(a.lanes() =~= b.lanes());
        }
    }
    assert(same_voices(again.bank(0usize as int), s.bank(0usize as int)));
    assert(same_voices(again.bank(1usize as int), s.bank(1usize as int)));
    assert(again.last_env@ =~= s.last_env@);
}

/// A span can be cut at a control block. From the same state, one call on all the samples
/// writes what two calls write, the first on a whole number of control blocks and the second
/// on the rest, and ends in the same state.
pub proof fn lemma_spans_join<A: Fn(Op, Plain, Plain) -> Plain>(
    fpu: &Fpu<A>,
    a: &Synth,
    a2: &Synth,
    l: Seq<Plain>,
    r: Seq<Plain>,
    limiter: LimiterStep,
    b: &Synth,
    b1: &Synth,
    l1: Seq<Plain>,
    r1: Seq<Plain>,
    limiter1: LimiterStep,
    b2: &Synth,
    l2: Seq<Plain>,
    r2: Seq<Plain>,
    limiter2: LimiterStep,
)
    requires
        are_twins(a, b, false),
        a.limiter_was_on == b.limiter_was_on,
        Synth::is_rendering(fpu, a, a2, l, r, limiter),
        Synth::is_rendering(fpu, b, b1, l1, r1, limiter1),
        Synth::is_rendering(fpu, b1, b2, l2, r2, limiter2),
        l.len() == l1.len() + l2.len(),
        l1.len() % CONTROL_BLOCK as nat == 0,
    ensures
        l == l1 + l2,
        r == r1 + r2,
        are_twins(a2, b2, false),
        a2.limiter_was_on == b2.limiter_was_on,
{
    let t = choose|trace: Seq<Synth>|
        {
            &&& #[trigger] Synth::is_span(fpu, trace, l, r)
            &&& trace.first().is_ready(fpu, a)
            &&& *a2 == (Synth { limiter_was_on: a2.limiter_was_on, ..trace.last() })
        };
    let t1 = choose|trace: Seq<Synth>|
        {
            &&& #[trigger] Synth::is_span(fpu, trace, l1, r1)
            &&& trace.first().is_ready(fpu, b)
            &&& *b1 == (Synth { limiter_was_on: b1.limiter_was_on, ..trace.last() })
        };
    let t2 = choose|trace: Seq<Synth>|
        {
            &&& #[trigger] Synth::is_span(fpu, trace, l2, r2)
            &&& trace.first().is_ready(fpu, b1)
            &&& *b2 == (Synth { limiter_was_on: b2.limiter_was_on, ..trace.last() })
        };
    let (m1, m2) = ((t1.len() - 1) as nat, (t2.len() - 1) as nat);
    assert(l1.len() == m1 * CONTROL_BLOCK);
    assert(t.len() - 1 == m1 + m2);
    // the first call
    lemma_ready_twins(fpu, a, &t[0], b, &t1[0], false);
    assert forall|q: int| 0 <= q < m1 implies #[trigger] block_len(l.len() as int, 0 + q)
        == block_len(l1.len() as int, 0 + q) by {}
    lemma_blocks_of_twins(fpu, t, l, r, 0, t1, l1, r1, 0, m1, false);
    // the second call goes on where the first ended
    lemma_ready_runs(fpu, &t1[0], b);
    lemma_span_keeps_running(fpu, t1, l1, r1, m1);
    let end = t1[m1 as int];
    assert(end.bank(0) == b1.bank(0) && end.bank(1) == b1.bank(1));
    assert(end.patch(0) == b1.patch(0) && end.patch(1) == b1.patch(1));
    assert(is_current(fpu, b1, 0) == is_current(fpu, &end, 0));
    assert(is_current(fpu, b1, 1) == is_current(fpu, &end, 1));
    lemma_ready_again(fpu, b1, &t2[0]);
    assert(are_twins(&t[m1 as int], &t2[0], false));
    assert forall|q: int| 0 <= q < m2 implies #[trigger] block_len(l.len() as int, m1 + q)
        == block_len(l2.len() as int, 0 + q) by {}
    lemma_blocks_of_twins(fpu, t, l, r, m1 as int, t2, l2, r2, 0, m2, false);
    // block by block, the channels are the same
    lemma_joined(l, l1, l2, m1 as int, m2 as int);
    lemma_joined(r, r1, r2, m1 as int, m2 as int);
    assert(a.params.global.get(GlobalParam::LimiterOn) == b.params.global.get(
        GlobalParam::LimiterOn,
    ));
    lemma_span_keeps_params(fpu, t1, l1, r1, m1);
}

/// A span leaves the parameters alone.
proof fn lemma_span_keeps_params<A: Fn(Op, Plain, Plain) -> Plain>(
    fpu: &Fpu<A>,
    trace: Seq<Synth>,
    l: Seq<Plain>,
    r: Seq<Plain>,
    k: nat,
)
    requires
        Synth::is_span(fpu, trace, l, r),
        k < trace.len(),
    ensures
        trace[k as int].params == trace[0].params,
    decreases k,
{
    if k > 0 {
        lemma_span_keeps_params(fpu, trace, l, r, (k - 1) as nat);
        assert(Synth::block_at(fpu, trace, l, r, k - 1));
        reveal(Synth::is_block);
    }
}

/// A channel made of the blocks of two others, one after the other.
proof fn lemma_joined(x: Seq<Plain>, y: Seq<Plain>, z: Seq<Plain>, m1: int, m2: int)
    requires
        x.len() == y.len() + z.len(),
        y.len() == m1 * CONTROL_BLOCK,
        m1 >= 0,
        m2 == (z.len() + CONTROL_BLOCK - 1) / CONTROL_BLOCK as int,
        forall|q: int| 0 <= q < m1 ==> #[trigger] block_of(x, 0 + q) == block_of(y, 0 + q),
        forall|q: int| 0 <= q < m2 ==> #[trigger] block_of(x, m1 + q) == block_of(z, 0 + q),
    ensures
        x == y + z,
{
    let w = y + z;
    let k = (x.len() + CONTROL_BLOCK - 1) / CONTROL_BLOCK as int;
    assert(k == m1 + m2);
    assert forall|q: int| 0 <= q < k implies #[trigger] block_of(x, q) == block_of(w, q) by {
        if q < m1 {
            assert(block_of(x, 0 + q) == block_of(y, 0 + q));
            assert(block_of(w, q) =~= block_of(y, q));
        } else {
            assert(block_of(x, m1 + (q - m1)) == block_of(z, 0 + (q - m1)));
            assert(block_of(w, q) =~= block_of(z, q - m1));
        }
    }
    lemma_blocks_make_channels(x, w, k);
}

/// Diffusers just made for a length are the same.
proof fn lemma_diffusers_agree(a: DiffuserState, b: DiffuserState, n: int)
    requires
        a.is_fresh(n),
        b.is_fresh(n),
    ensures
        a == b,
{
    delay::lemma_capacity_unique(a.ring.cells.len() as int, b.ring.cells.len() as int, n);
}

/// Effects just made for a rate are the same.
proof fn lemma_fresh_effects_agree<A: Fn(Op, Plain, Plain) -> Plain>(
    fpu: &Fpu<A>,
    sample_rate: Plain,
    a: EffectState,
    b: EffectState,
)
    requires
        a.is_fresh(fpu, sample_rate),
        b.is_fresh(fpu, sample_rate),
    ensures
        a == b,
{
    let short = chorus_samples(fpu, sample_rate) + 6;
    let long = fpu.mul(sample_rate, num(TWO)).to_index() + 6;
    let secs = fpu.add(num(F0_25), fpu.div(num(TWO), sample_rate));
    let line = fpu.mul(secs, sample_rate).ceil_index() as int;
    let len = |r: Ring| r.cells.len() as int;
    delay::lemma_capacity_unique(len(a.chorus.left), len(b.chorus.left), short);
    delay::lemma_capacity_unique(len(a.chorus.right), len(b.chorus.right), short);
    delay::lemma_capacity_unique(len(a.delay.left), len(b.delay.left), long);
    delay::lemma_capacity_unique(len(a.reverb.line.ring), len(b.reverb.line.ring), line);
    lemma_diffusers_agree(a.reverb.diff_l0, b.reverb.diff_l0, DIFFUSER_L0 as int);
    lemma_diffusers_agree(a.reverb.diff_l1, b.reverb.diff_l1, DIFFUSER_L1 as int);
    lemma_diffusers_agree(a.reverb.diff_r0, b.reverb.diff_r0, DIFFUSER_R0 as int);
    lemma_diffusers_agree(a.reverb.diff_r1, b.reverb.diff_r1, DIFFUSER_R1 as int);
    assert(a.chorus == b.chorus);
    assert(a.delay == b.delay);
    assert(a.reverb == b.reverb);
}

/// Banks just made from a seed have the same voices.
proof fn lemma_fresh_voices_agree<A: Fn(Op, Plain, Plain) -> Plain>(
    fpu: &Fpu<A>,
    sample_rate: Plain,
    seed: u64,
    a: VoiceBank,
    b: VoiceBank,
)
    requires
        a.is_fresh(fpu, sample_rate, seed),
        b.is_fresh(fpu, sample_rate, seed),
    ensures
        same_voices(a, b),
{
    assert forall|v: int| 0 <= v < CHANNELS_PER_LAYER implies #[trigger] a.lane(v) == b.lane(
        v,
    ) by {
        assert(a.channels@[v] == b.channels@[v]);
        assert(a.osc1.lanes@[v] == b.osc1.lanes@[v]);
        assert(a.osc2.lanes@[v] == b.osc2.lanes@[v]);
        assert(a.noise.lanes@[v] == b.noise.lanes@[v]);
        assert(a.hpf.lane(v) == b.hpf.lane(v));
        assert(a.ladder.lanes@[v] == b.ladder.lanes@[v]);
    }
    assert(a.lanes() =~= b.lanes());
}

/// Building an instrument leaves nothing to chance: two built for the same rate are in the
/// same state.
pub proof fn lemma_new_instruments_are_twins<A: Fn(Op, Plain, Plain) -> Plain>(
    fpu: &Fpu<A>,
    sample_rate: Plain,
    a: &Synth,
    b: &Synth,
)
    requires
        Synth::is_new(fpu, sample_rate, a),
        Synth::is_new(fpu, sample_rate, b),
    ensures
        are_twins(a, b, false),
        a.limiter_was_on == b.limiter_was_on,
{
    assert forall|p: PatchParam| #[trigger] a.params.upper.get(p) == b.params.upper.get(p) by {
        let q = ParamRef::Patch(Layer::Upper, p);
        assert(a.params.at(q) == b.params.at(q));
    }
    assert forall|p: PatchParam| #[trigger] a.params.lower.get(p) == b.params.lower.get(p) by {
        let q = ParamRef::Patch(Layer::Lower, p);
        assert(a.params.at(q) == b.params.at(q));
    }
    assert forall|g: GlobalParam| #[trigger] a.params.global.get(g) == b.params.global.get(g) by {
        let q = ParamRef::Global(g);
        assert(a.params.at(q) == b.params.at(q));
    }
    lemma_patches_agree(a.params.upper, b.params.upper);
    lemma_patches_agree(a.params.lower, b.params.lower);
    lemma_fresh_voices_agree(fpu, sample_rate, synth::UPPER_SEED, a.upper, b.upper);
    lemma_fresh_voices_agree(fpu, sample_rate, synth::LOWER_SEED, a.lower, b.lower);
    lemma_fresh_effects_agree(fpu, sample_rate, a.effects@, b.effects@);
    let (x, y) = (a.oversampler@, b.oversampler@);
    delay::lemma_capacity_unique(x.a.cells.len() as int, y.a.cells.len() as int, 34);
    delay::lemma_capacity_unique(x.b.cells.len() as int, y.b.cells.len() as int, 34);
    delay::lemma_capacity_unique(x.c.cells.len() as int, y.c.cells.len() as int, 34);
}

} // verus!
