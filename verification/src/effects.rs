//! The effects of the instrument: chorus, delay and reverb.
use crate::CONTROL_BLOCK;
use crate::bbd::{lpf_alpha, Jitter, OnePoleLpf};
use crate::chorus::{chorus_samples, ChorusParams, StereoChorus, StereoChorusState};
use crate::delay::{self, DelayParams, Ring, StereoDelay, StereoDelayState};
use crate::fpu::{Fpu, Op};
use crate::math::{self, SineTable};
use crate::nums::{F0_01, F0_15, F0_3, F0_7, F0_95, F12, HALF, ONE, TWO, ZERO};
use crate::params::GlobalParam;
use crate::plain::{self, num, Plain};
use crate::reverb_macro::{reverb_macro, ReverbType};
use crate::sync::{index_from_norm, synced_seconds};
use crate::values::GlobalValues;
use crate::vreverb::{
    damping_fc_hz, mod_rate_hz, size_to_delay_s, StereoVReverb, TappedState, VReverbParams,
    VReverbState, DIFFUSER_L0, DIFFUSER_L1, DIFFUSER_R0, DIFFUSER_R1,
};
use vstd::prelude::*;

verus! {

pub open spec fn spec_delay_time_seconds<A: Fn(Op, Plain, Plain) -> Plain>(
    fpu: &Fpu<A>,
    sync_on: bool,
    time_value: Plain,
    tempo_bpm: Plain,
) -> Plain {
    if sync_on {
        let pos = GlobalParam::DelayTime.desc().to_fader(fpu, time_value);
        synced_seconds(fpu, tempo_bpm, index_from_norm(fpu, pos))
    } else {
        time_value
    }
}

/// The delay time in seconds: the knob's value, or with sync the note length at the knob's
/// position, in time with the tempo.
#[verifier::when_used_as_spec(spec_delay_time_seconds)]
pub fn delay_time_seconds<A: Fn(Op, Plain, Plain) -> Plain>(
    fpu: &Fpu<A>,
    sync_on: bool,
    time_value: Plain,
    tempo_bpm: Plain,
) -> (r: Plain)
    requires
        fpu.valid(),
    ensures
        r == delay_time_seconds(fpu, sync_on, time_value, tempo_bpm),
{
    if sync_on {
        let pos = GlobalParam::DelayTime.desc().to_fader(fpu, time_value);
        synced_seconds(fpu, tempo_bpm, index_from_norm(fpu, pos))
    } else {
        time_value
    }
}

/// The knob is read, never written: with sync off it is its own seconds again.
pub proof fn lemma_sync_off_reads_seconds<A: Fn(Op, Plain, Plain) -> Plain>(
    fpu: &Fpu<A>,
    time_value: Plain,
    tempo_bpm: Plain,
)
    ensures
        delay_time_seconds(fpu, false, time_value, tempo_bpm) == time_value,
{
}

/// Which effects are on, and how much of the reverb is heard.
#[derive(Clone, Copy, Debug, PartialEq, Eq, Structural)]
pub struct EffectSwitches {
    pub chorus: bool,
    pub delay: bool,
    pub reverb: bool,
    pub reverb_mix: Plain,
}

/// The state of [`Effects`].
pub struct EffectState {
    pub chorus: StereoChorusState,
    pub chorus_params: ChorusParams,
    pub delay: StereoDelayState,
    pub delay_params: DelayParams,
    pub delay_rate: Plain,
    pub reverb: VReverbState,
    pub reverb_params: VReverbParams,
    /// The reverb's type in the last block.
    pub voicing: Option<ReverbType>,
}

/// The knobs that shape the reverb, but for its switch.
pub open spec fn is_reverb_knob(g: GlobalParam) -> bool {
    g is ReverbType || g is ReverbDepth || g is ReverbMix
}

/// The samples of both channels through the chorus.
#[verifier::opaque]
pub open spec fn chorused<A: Fn(Op, Plain, Plain) -> Plain>(
    fpu: &Fpu<A>,
    s: StereoChorusState,
    p: ChorusParams,
    dry: Seq<Plain>,
    k: nat,
) -> (StereoChorusState, Seq<Plain>, Seq<Plain>)
    decreases k,
{
    if k == 0 {
        (s, Seq::empty(), Seq::empty())
    } else {
        let (t, l, r) = chorused(fpu, s, p, dry, (k - 1) as nat);
        let (u, x) = t.processed(fpu, p, dry[k - 1], dry[k - 1]);
        (u, l.push(x.0), r.push(x.1))
    }
}

/// The first `k` samples of both channels through the delay.
#[verifier::opaque]
pub open spec fn delayed<A: Fn(Op, Plain, Plain) -> Plain>(
    fpu: &Fpu<A>,
    s: StereoDelayState,
    p: DelayParams,
    in_l: Seq<Plain>,
    in_r: Seq<Plain>,
    k: nat,
) -> (StereoDelayState, Seq<Plain>, Seq<Plain>)
    decreases k,
{
    if k == 0 {
        (s, Seq::empty(), Seq::empty())
    } else {
        let (t, l, r) = delayed(fpu, s, p, in_l, in_r, (k - 1) as nat);
        let (u, x) = t.processed(fpu, p, in_l[k - 1], in_r[k - 1]);
        (u, l.push(x.0), r.push(x.1))
    }
}

/// The middle of two channels.
pub open spec fn centre<A: Fn(Op, Plain, Plain) -> Plain>(
    fpu: &Fpu<A>,
    l: Seq<Plain>,
    r: Seq<Plain>,
) -> Seq<Plain> {
    Seq::new(l.len(), |i: int| fpu.mul(num(HALF), fpu.add(l[i], r[i])))
}

/// A dry channel moved by `mix` toward a wet one.
pub open spec fn blended<A: Fn(Op, Plain, Plain) -> Plain>(
    fpu: &Fpu<A>,
    dry: Seq<Plain>,
    wet: Seq<Plain>,
    mix: Plain,
) -> Seq<Plain> {
    Seq::new(dry.len(), |i: int| fpu.add(dry[i], fpu.mul(mix, fpu.sub(wet[i], dry[i]))))
}

impl EffectState {
    /// The effects set for a block from the smoothed values and the tempo. A change of the
    /// reverb's type silences the reverb first.
    #[verifier::opaque]
    pub open spec fn updated<A: Fn(Op, Plain, Plain) -> Plain>(
        self,
        fpu: &Fpu<A>,
        g: GlobalValues,
        t: ReverbType,
        tempo_bpm: Plain,
    ) -> EffectState {
        let time = delay_time_seconds(
            fpu,
            g.bool(GlobalParam::DelaySync),
            g.get(GlobalParam::DelayTime),
            tempo_bpm,
        );
        let v = reverb_macro(fpu, t, g.get(GlobalParam::ReverbDepth));
        let base = if self.voicing == Some(t) {
            self.reverb
        } else {
            self.reverb.cleared()
        };
        let diffusion = fpu.mul(v.diffusion.clamp(num(ZERO), num(ONE)), num(F0_7));
        EffectState {
            chorus_params: ChorusParams {
                lfo_inc: fpu.div(
                    g.get(GlobalParam::ChorusRate).clamp(num(F0_01), num(F12)),
                    self.chorus_params.sample_rate,
                ),
                depth: g.get(GlobalParam::ChorusDepth).clamp(num(ZERO), num(ONE)),
                mix: g.get(GlobalParam::ChorusMix).clamp(num(ZERO), num(ONE)),
                ..self.chorus_params
            },
            delay_params: StereoDelay::params_for(
                fpu,
                self.delay_rate,
                time,
                time,
                g.get(GlobalParam::DelayFeedback),
                num(F0_3),
                g.get(GlobalParam::DelayMix),
                g.bool(GlobalParam::DelayPingPong),
            ),
            reverb_params: VReverbParams {
                full_delay_s: size_to_delay_s(fpu, v.size),
                decay: v.decay.clamp(num(ZERO), num(F0_95)),
                lfo_inc: fpu.div(mod_rate_hz(fpu, v.mod_rate), self.reverb_params.sample_rate),
                mod_depth: fpu.mul(v.mod_depth.clamp(num(ZERO), num(ONE)), num(F0_15)),
                ..self.reverb_params
            },
            reverb: VReverbState {
                line: TappedState {
                    jitter: Jitter {
                        amount: num(ZERO).clamp(num(ZERO), num(ONE)),
                        ..base.line.jitter
                    },
                    ..base.line
                },
                damp: OnePoleLpf {
                    alpha: lpf_alpha(
                        fpu,
                        damping_fc_hz(fpu, v.damping),
                        self.reverb_params.sample_rate,
                    ),
                    ..base.damp
                },
                diff_l0: base.diff_l0.with_params(DIFFUSER_L0 as int, diffusion),
                diff_l1: base.diff_l1.with_params(DIFFUSER_L1 as int, diffusion),
                diff_r0: base.diff_r0.with_params(DIFFUSER_R0 as int, diffusion),
                diff_r1: base.diff_r1.with_params(DIFFUSER_R1 as int, diffusion),
                ..base
            },
            voicing: Some(t),
            ..self
        }
    }

    /// A dry block through the chorus, or to both channels.
    #[verifier::opaque]
    pub open spec fn through_chorus<A: Fn(Op, Plain, Plain) -> Plain>(
        self,
        fpu: &Fpu<A>,
        on: bool,
        dry: Seq<Plain>,
    ) -> (EffectState, Seq<Plain>, Seq<Plain>) {
        if on {
            let (chorus, l, r) = chorused(fpu, self.chorus, self.chorus_params, dry, dry.len());
            (EffectState { chorus, ..self }, l, r)
        } else {
            (self, dry, dry)
        }
    }

    /// Two channels through the delay, or past it.
    #[verifier::opaque]
    pub open spec fn through_delay<A: Fn(Op, Plain, Plain) -> Plain>(
        self,
        fpu: &Fpu<A>,
        on: bool,
        l: Seq<Plain>,
        r: Seq<Plain>,
    ) -> (EffectState, Seq<Plain>, Seq<Plain>) {
        if on {
            let (delay, out_l, out_r) = delayed(
                fpu,
                self.delay,
                self.delay_params,
                l,
                r,
                l.len(),
            );
            (EffectState { delay, ..self }, out_l, out_r)
        } else {
            (self, l, r)
        }
    }

    /// Two channels blended with the reverb of their sum.
    #[verifier::opaque]
    pub open spec fn through_reverb<A: Fn(Op, Plain, Plain) -> Plain>(
        self,
        fpu: &Fpu<A>,
        mix: Plain,
        l: Seq<Plain>,
        r: Seq<Plain>,
    ) -> (EffectState, Seq<Plain>, Seq<Plain>) {
        let (reverb, wet_l, wet_r) = self.reverb.after(
            fpu,
            self.reverb_params,
            centre(fpu, l, r),
            l.len(),
        );
        (
            EffectState { reverb, ..self },
            blended(fpu, l, wet_l, mix),
            blended(fpu, r, wet_r, mix),
        )
    }

    /// A dry block through the effects that are on: chorus, delay, reverb.
    #[verifier::opaque]
    pub open spec fn processed<A: Fn(Op, Plain, Plain) -> Plain>(
        self,
        fpu: &Fpu<A>,
        on: EffectSwitches,
        dry: Seq<Plain>,
    ) -> (EffectState, Seq<Plain>, Seq<Plain>) {
        let (s, l, r) = self.through_chorus(fpu, on.chorus, dry);
        let (t, m, q) = s.through_delay(fpu, on.delay, l, r);
        if on.reverb {
            t.through_reverb(fpu, on.reverb_mix, m, q)
        } else {
            (t, m, q)
        }
    }

    /// With every effect off, both channels are the dry block.
    pub proof fn lemma_all_off_is_dry<A: Fn(Op, Plain, Plain) -> Plain>(
        self,
        fpu: &Fpu<A>,
        on: EffectSwitches,
        dry: Seq<Plain>,
    )
        requires
            !on.chorus,
            !on.delay,
            !on.reverb,
        ensures
            self.processed(fpu, on, dry) == (self, dry, dry),
    {
        reveal(EffectState::processed);
        reveal(EffectState::through_chorus);
        reveal(EffectState::through_delay);
    }

    /// The same but for the reverb and what it is set to.
    pub open spec fn same_but_reverb(self, o: EffectState) -> bool {
        &&& self.chorus == o.chorus && self.chorus_params == o.chorus_params
        &&& self.delay == o.delay && self.delay_params == o.delay_params
        &&& self.delay_rate == o.delay_rate
    }

    /// While the reverb is off it is not heard: whatever its type, depth, mix and state, the
    /// same block comes out, and the other effects go on the same.
    pub proof fn lemma_reverb_off_is_unheard<A: Fn(Op, Plain, Plain) -> Plain>(
        self,
        other: EffectState,
        fpu: &Fpu<A>,
        g: GlobalValues,
        other_g: GlobalValues,
        t: ReverbType,
        other_t: ReverbType,
        tempo_bpm: Plain,
        on: EffectSwitches,
        other_mix: Plain,
        dry: Seq<Plain>,
    )
        requires
            self.same_but_reverb(other),
            forall|k: GlobalParam|
                !is_reverb_knob(k) ==> #[trigger] g.get(k) == other_g.get(k),
            !on.reverb,
        ensures
            ({
                let a = self.updated(fpu, g, t, tempo_bpm).processed(fpu, on, dry);
                let b = other.updated(fpu, other_g, other_t, tempo_bpm).processed(
                    fpu,
                    EffectSwitches { reverb_mix: other_mix, ..on },
                    dry,
                );
                a.1 == b.1 && a.2 == b.2 && a.0.same_but_reverb(b.0)
            }),
    {
        let (a, b) = (
            self.updated(fpu, g, t, tempo_bpm),
            other.updated(fpu, other_g, other_t, tempo_bpm),
        );
        self.lemma_updated_but_reverb(other, fpu, g, other_g, t, other_t, tempo_bpm);
        a.lemma_processed_but_reverb(b, fpu, on, other_mix, dry);
    }

    proof fn lemma_updated_but_reverb<A: Fn(Op, Plain, Plain) -> Plain>(
        self,
        other: EffectState,
        fpu: &Fpu<A>,
        g: GlobalValues,
        other_g: GlobalValues,
        t: ReverbType,
        other_t: ReverbType,
        tempo_bpm: Plain,
    )
        requires
            self.same_but_reverb(other),
            forall|k: GlobalParam|
                !is_reverb_knob(k) ==> #[trigger] g.get(k) == other_g.get(k),
        ensures
            self.updated(fpu, g, t, tempo_bpm).same_but_reverb(
                other.updated(fpu, other_g, other_t, tempo_bpm),
            ),
    {
        let (a, b) = (
            self.updated(fpu, g, t, tempo_bpm),
            other.updated(fpu, other_g, other_t, tempo_bpm),
        );
        assert(g.get(GlobalParam::ChorusRate) == other_g.get(GlobalParam::ChorusRate));
        assert(g.get(GlobalParam::ChorusDepth) == other_g.get(GlobalParam::ChorusDepth));
        assert(g.get(GlobalParam::ChorusMix) == other_g.get(GlobalParam::ChorusMix));
        assert(g.get(GlobalParam::DelaySync) == other_g.get(GlobalParam::DelaySync));
        assert(g.get(GlobalParam::DelayTime) == other_g.get(GlobalParam::DelayTime));
        assert(g.get(GlobalParam::DelayFeedback) == other_g.get(GlobalParam::DelayFeedback));
        assert(g.get(GlobalParam::DelayMix) == other_g.get(GlobalParam::DelayMix));
        assert(g.get(GlobalParam::DelayPingPong) == other_g.get(GlobalParam::DelayPingPong));
        assert(a.chorus == b.chorus && a.chorus_params == b.chorus_params) by {
            reveal(EffectState::updated);
        }
        assert(a.delay == b.delay && a.delay_params == b.delay_params && a.delay_rate
            == b.delay_rate) by {
            reveal(EffectState::updated);
        }
    }

    proof fn lemma_processed_but_reverb<A: Fn(Op, Plain, Plain) -> Plain>(
        self,
        other: EffectState,
        fpu: &Fpu<A>,
        on: EffectSwitches,
        other_mix: Plain,
        dry: Seq<Plain>,
    )
        requires
            self.same_but_reverb(other),
            !on.reverb,
        ensures
            ({
                let a = self.processed(fpu, on, dry);
                let b = other.processed(
                    fpu,
                    EffectSwitches { reverb_mix: other_mix, ..on },
                    dry,
                );
                a.1 == b.1 && a.2 == b.2 && a.0.same_but_reverb(b.0)
            }),
    {
        reveal(EffectState::processed);
        reveal(EffectState::through_chorus);
        reveal(EffectState::through_delay);
    }

    /// A change of the reverb's type leaves nothing of its tail: the line, the feedback and
    /// the diffusers are silent when the new type starts.
    pub proof fn lemma_new_type_has_no_tail<A: Fn(Op, Plain, Plain) -> Plain>(
        self,
        fpu: &Fpu<A>,
        g: GlobalValues,
        t: ReverbType,
        tempo_bpm: Plain,
    )
        requires
            self.voicing != Some(t),
        ensures
            ({
                let s = self.updated(fpu, g, t, tempo_bpm).reverb;
                &&& s.line.ring == Ring::silent(self.reverb.line.ring.cells.len())
                &&& s.fb == num(ZERO)
                &&& s.damp.y == num(ZERO)
                &&& s.diff_l0.ring == Ring::silent(self.reverb.diff_l0.ring.cells.len())
                &&& s.diff_l1.ring == Ring::silent(self.reverb.diff_l1.ring.cells.len())
                &&& s.diff_r0.ring == Ring::silent(self.reverb.diff_r0.ring.cells.len())
                &&& s.diff_r1.ring == Ring::silent(self.reverb.diff_r1.ring.cells.len())
            }),
    {
        reveal(EffectState::updated);
    }
}

/// The effects of the instrument, in their order: chorus, delay, reverb.
pub struct Effects {
    pub chorus: StereoChorus,
    pub delay: StereoDelay,
    pub reverb: StereoVReverb,
    pub voicing: Option<ReverbType>,
    centre: Vec<Plain>,
    wet_l: Vec<Plain>,
    wet_r: Vec<Plain>,
}

/// Seed of the reverb's clock jitter.
pub const REVERB_SEED: u32 = 0xbbd0_0040;

/// The rate leaves the effects within what memory can hold.
pub open spec fn effects_fit<A: Fn(Op, Plain, Plain) -> Plain>(
    fpu: &Fpu<A>,
    sample_rate: Plain,
) -> bool {
    &&& chorus_samples(fpu, sample_rate) <= usize::MAX / 2 - 5
    &&& fpu.mul(sample_rate, num(TWO)).to_index() <= usize::MAX / 2 - 5
    &&& StereoVReverb::fits(fpu, sample_rate)
}

/// Whether the effects' lines at a sample rate are within what memory can hold.
pub fn can_fit<A: Fn(Op, Plain, Plain) -> Plain>(fpu: &Fpu<A>, sample_rate: Plain) -> (r: bool)
    requires
        fpu.valid(),
    ensures
        r == effects_fit(fpu, sample_rate),
{
    let room: usize = usize::MAX / 2 - 5;
    chorus_samples(fpu, sample_rate) <= room && fpu.mul(sample_rate, num(TWO)).to_index() <= room
        && StereoVReverb::can_fit(fpu, sample_rate)
}

impl View for Effects {
    type V = EffectState;

    closed spec fn view(&self) -> EffectState {
        EffectState {
            chorus: self.chorus@,
            chorus_params: self.chorus.params,
            delay: self.delay@,
            delay_params: self.delay.params,
            delay_rate: self.delay.sample_rate,
            reverb: self.reverb@,
            reverb_params: self.reverb.params(),
            voicing: self.voicing,
        }
    }
}

impl EffectState {
    /// The chorus and the delay silenced. The reverb keeps its tail.
    pub open spec fn cleared(self) -> Self {
        EffectState {
            chorus: StereoChorusState {
                left: Ring::silent(self.chorus.left.cells.len()),
                right: Ring::silent(self.chorus.right.cells.len()),
                lfo_phase: num(ZERO),
            },
            delay: StereoDelayState {
                left: Ring::silent(self.delay.left.cells.len()),
                right: Ring::silent(self.delay.right.cells.len()),
                fb_lp_l: num(ZERO),
                fb_lp_r: num(ZERO),
            },
            ..self
        }
    }

    /// Silent effects as they are made for a rate.
    pub open spec fn is_fresh<A: Fn(Op, Plain, Plain) -> Plain>(
        self,
        fpu: &Fpu<A>,
        sample_rate: Plain,
    ) -> bool {
        &&& delay::is_capacity(
            self.chorus.left.cells.len() as int,
            chorus_samples(fpu, sample_rate) + 6,
        )
        &&& delay::is_capacity(
            self.chorus.right.cells.len() as int,
            chorus_samples(fpu, sample_rate) + 6,
        )
        &&& self.chorus.left == Ring::silent(self.chorus.left.cells.len())
        &&& self.chorus.right == Ring::silent(self.chorus.right.cells.len())
        &&& self.chorus.lfo_phase == num(ZERO)
        &&& self.chorus_params == ChorusParams::initial(fpu, sample_rate)
        &&& delay::is_capacity(
            self.delay.left.cells.len() as int,
            fpu.mul(sample_rate, num(TWO)).to_index() + 6,
        )
        &&& self.delay.left == Ring::silent(self.delay.left.cells.len())
        &&& self.delay.right == self.delay.left
        &&& self.delay.fb_lp_l == num(ZERO)
        &&& self.delay.fb_lp_r == num(ZERO)
        &&& self.delay_params == DelayParams::initial(fpu, sample_rate)
        &&& self.delay_rate == sample_rate
        &&& self.reverb.is_fresh(fpu, sample_rate, REVERB_SEED)
        &&& self.reverb_params == VReverbParams::initial(fpu, sample_rate)
        &&& self.voicing is None
    }
}

impl Effects {
    pub closed spec fn wf<A: Fn(Op, Plain, Plain) -> Plain>(&self, fpu: &Fpu<A>) -> bool {
        &&& self.chorus@.wf()
        &&& self.delay@.wf()
        &&& self.reverb.wf(fpu)
    }

    pub fn new<A: Fn(Op, Plain, Plain) -> Plain>(fpu: &Fpu<A>, sample_rate: Plain) -> (r: Self)
        requires
            fpu.valid(),
            effects_fit(fpu, sample_rate),
        ensures
            r.wf(fpu),
            r@.is_fresh(fpu, sample_rate),
    {
        Effects {
            chorus: StereoChorus::new(fpu, sample_rate),
            delay: StereoDelay::new(fpu, sample_rate, num(TWO)),
            reverb: StereoVReverb::new(fpu, sample_rate, REVERB_SEED),
            voicing: None,
            centre: Vec::with_capacity(CONTROL_BLOCK),
            wet_l: Vec::with_capacity(CONTROL_BLOCK),
            wet_r: Vec::with_capacity(CONTROL_BLOCK),
        }
    }

    /// Silence the chorus and the delay. The reverb rings on.
    pub fn clear<A: Fn(Op, Plain, Plain) -> Plain>(&mut self, fpu: &Fpu<A>)
        requires
            old(self).wf(fpu),
        ensures
            final(self).wf(fpu),
            final(self)@ == old(self)@.cleared(),
    {
        self.chorus.clear();
        self.delay.clear();
    }

    /// Set the effects for a block.
    pub fn update<A: Fn(Op, Plain, Plain) -> Plain>(
        &mut self,
        fpu: &Fpu<A>,
        g: &GlobalValues,
        t: ReverbType,
        tempo_bpm: Plain,
    )
        requires
            fpu.valid(),
            old(self).wf(fpu),
        ensures
            final(self).wf(fpu),
            final(self)@ == old(self)@.updated(fpu, *g, t, tempo_bpm),
    {
        self.chorus.set_params(
            fpu,
            g.get(GlobalParam::ChorusRate),
            g.get(GlobalParam::ChorusDepth),
            g.get(GlobalParam::ChorusMix),
        );
        let time = delay_time_seconds(
            fpu,
            g.bool(GlobalParam::DelaySync),
            g.get(GlobalParam::DelayTime),
            tempo_bpm,
        );
        self.delay.set_params(
            fpu,
            time,
            time,
            g.get(GlobalParam::DelayFeedback),
            num(F0_3),
            g.get(GlobalParam::DelayMix),
            g.bool(GlobalParam::DelayPingPong),
        );
        let same: bool = match self.voicing {
            Some(was) => was == t,
            None => false,
        };
        if !same {
            self.reverb.reset(fpu);
            self.voicing = Some(t);
        }
        let v = reverb_macro(fpu, t, g.get(GlobalParam::ReverbDepth));
        self.reverb.set_params(
            fpu,
            v.size,
            v.decay,
            v.damping,
            v.mod_rate,
            v.mod_depth,
            num(ZERO),
        );
        self.reverb.set_diffusion(fpu, v.diffusion);
        reveal(EffectState::updated);
        assert(self@ == old(self)@.updated(fpu, *g, t, tempo_bpm));
    }

    /// Run a dry block through the effects that are on, into `l` and `r`.
    pub fn process_block<A: Fn(Op, Plain, Plain) -> Plain>(
        &mut self,
        fpu: &Fpu<A>,
        table: &SineTable,
        on: EffectSwitches,
        dry: &Vec<Plain>,
        l: &mut Vec<Plain>,
        r: &mut Vec<Plain>,
    )
        requires
            fpu.valid(),
            table.tabulates(fpu),
            old(self).wf(fpu),
        ensures
            final(self).wf(fpu),
            (final(self)@, final(l)@, final(r)@) == old(self)@.processed(fpu, on, dry@),
            final(l)@.len() == dry@.len(),
            final(r)@.len() == dry@.len(),
    {
        reveal(EffectState::processed);
        self.run_chorus(fpu, table, on.chorus, dry, l, r);
        self.run_delay(fpu, on.delay, l, r);
        if on.reverb {
            self.run_reverb(fpu, on.reverb_mix, l, r);
        }
    }

    fn run_chorus<A: Fn(Op, Plain, Plain) -> Plain>(
        &mut self,
        fpu: &Fpu<A>,
        table: &SineTable,
        on: bool,
        dry: &Vec<Plain>,
        l: &mut Vec<Plain>,
        r: &mut Vec<Plain>,
    )
        requires
            fpu.valid(),
            table.tabulates(fpu),
            old(self).wf(fpu),
        ensures
            final(self).wf(fpu),
            final(l)@.len() == dry@.len(),
            final(r)@.len() == dry@.len(),
            (final(self)@, final(l)@, final(r)@) == old(self)@.through_chorus(fpu, on, dry@),
    {
        reveal(EffectState::through_chorus);
        reveal(chorused);
        l.clear();
        r.clear();
        let n: usize = dry.len();
        let ghost s = self@;
        let mut i: usize = 0;
        while i < n
            invariant
                fpu.valid(),
                table.tabulates(fpu),
                self.wf(fpu),
                i <= n == dry@.len(),
                l@.len() == i,
                r@.len() == i,
                on ==> {
                    let (chorus, out_l, out_r) = chorused(
                        fpu,
                        s.chorus,
                        s.chorus_params,
                        dry@,
                        i as nat,
                    );
                    self@ == (EffectState { chorus, ..s }) && l@ == out_l && r@ == out_r
                },
                !on ==> self@ == s && l@ == dry@.take(i as int) && r@ == dry@.take(i as int),
            decreases n - i,
        {
            reveal(chorused);
            let x = dry[i];
            if on {
                let (a, c) = self.chorus.process(fpu, table, x, x);
                l.push(a);
                r.push(c);
            } else {
                proof {
                    assert(dry@.take(i + 1) =~= dry@.take(i as int).push(x));
                }
                l.push(x);
                r.push(x);
            }
            i = i + 1;
        }
        assert(dry@.take(n as int) =~= dry@);
    }

    fn run_delay<A: Fn(Op, Plain, Plain) -> Plain>(
        &mut self,
        fpu: &Fpu<A>,
        on: bool,
        l: &mut Vec<Plain>,
        r: &mut Vec<Plain>,
    )
        requires
            fpu.valid(),
            old(self).wf(fpu),
            old(l)@.len() == old(r)@.len(),
        ensures
            final(self).wf(fpu),
            final(l)@.len() == old(l)@.len(),
            final(r)@.len() == old(l)@.len(),
            (final(self)@, final(l)@, final(r)@) == old(self)@.through_delay(
                fpu,
                on,
                old(l)@,
                old(r)@,
            ),
    {
        reveal(EffectState::through_delay);
        if !on {
            return;
        }
        reveal(delayed);
        let n: usize = l.len();
        let ghost s = self@;
        let ghost (in_l, in_r) = (l@, r@);
        let mut i: usize = 0;
        proof {
            assert(in_l.skip(0) =~= in_l && in_r.skip(0) =~= in_r);
            assert(l@ =~= Seq::<Plain>::empty() + in_l.skip(0));
            assert(r@ =~= Seq::<Plain>::empty() + in_r.skip(0));
        }
        while i < n
            invariant
                fpu.valid(),
                self.wf(fpu),
                i <= n,
                l@.len() == n,
                r@.len() == n,
                in_l.len() == n,
                in_r.len() == n,
                ({
                    let (delay, out_l, out_r) = delayed(
                        fpu,
                        s.delay,
                        s.delay_params,
                        in_l,
                        in_r,
                        i as nat,
                    );
                    &&& self@ == EffectState { delay, ..s }
                    &&& out_l.len() == i
                    &&& out_r.len() == i
                    &&& l@ == out_l + in_l.skip(i as int)
                    &&& r@ == out_r + in_r.skip(i as int)
                }),
            decreases n - i,
        {
            reveal(delayed);
            let (a, c) = self.delay.process(fpu, l[i], r[i]);
            l.set(i, a);
            r.set(i, c);
            i = i + 1;
            proof {
                let (delay, out_l, out_r) = delayed(
                    fpu,
                    s.delay,
                    s.delay_params,
                    in_l,
                    in_r,
                    i as nat,
                );
                assert(l@ =~= out_l + in_l.skip(i as int));
                assert(r@ =~= out_r + in_r.skip(i as int));
            }
        }
        proof {
            let (delay, out_l, out_r) = delayed(fpu, s.delay, s.delay_params, in_l, in_r, n as nat);
            assert(l@ =~= out_l);
            assert(r@ =~= out_r);
        }
    }

    fn run_reverb<A: Fn(Op, Plain, Plain) -> Plain>(
        &mut self,
        fpu: &Fpu<A>,
        mix: Plain,
        l: &mut Vec<Plain>,
        r: &mut Vec<Plain>,
    )
        requires
            fpu.valid(),
            old(self).wf(fpu),
            old(l)@.len() == old(r)@.len(),
        ensures
            final(self).wf(fpu),
            final(l)@.len() == old(l)@.len(),
            final(r)@.len() == old(l)@.len(),
            (final(self)@, final(l)@, final(r)@) == old(self)@.through_reverb(
                fpu,
                mix,
                old(l)@,
                old(r)@,
            ),
    {
        reveal(EffectState::through_reverb);
        let n: usize = l.len();
        let ghost s = self@;
        let ghost (in_l, in_r) = (l@, r@);
        self.centre.clear();
        self.wet_l.clear();
        self.wet_r.clear();
        let mut i: usize = 0;
        while i < n
            invariant
                fpu.valid(),
                self.wf(fpu),
                self@ == s,
                i <= n,
                l@ == in_l,
                r@ == in_r,
                in_l.len() == n,
                in_r.len() == n,
                self.centre@ == centre(fpu, in_l, in_r).take(i as int),
                self.wet_l@.len() == i,
                self.wet_r@.len() == i,
            decreases n - i,
        {
            let m = fpu.mul(num(HALF), fpu.add(l[i], r[i]));
            proof {
                let c = centre(fpu, in_l, in_r);
                assert(c.take(i + 1) =~= c.take(i as int).push(m));
            }
            self.centre.push(m);
            self.wet_l.push(num(ZERO));
            self.wet_r.push(num(ZERO));
            i = i + 1;
        }
        proof {
            let c = centre(fpu, in_l, in_r);
            assert(c.take(n as int) =~= c);
        }
        self.reverb.process_block(
            fpu,
            self.centre.as_slice(),
            self.wet_l.as_mut_slice(),
            self.wet_r.as_mut_slice(),
        );
        let ghost (reverb, wet_l, wet_r) = s.reverb.after(
            fpu,
            s.reverb_params,
            centre(fpu, in_l, in_r),
            n as nat,
        );
        proof {
            lemma_after_len(fpu, s.reverb, s.reverb_params, centre(fpu, in_l, in_r), n as nat);
            assert(self.wet_l@ =~= wet_l);
            assert(self.wet_r@ =~= wet_r);
        }
        let ghost after = self@;
        let mut j: usize = 0;
        while j < n
            invariant
                fpu.valid(),
                self.wf(fpu),
                self@ == after,
                j <= n,
                l@.len() == n,
                r@.len() == n,
                in_l.len() == n,
                in_r.len() == n,
                self.wet_l@ == wet_l,
                self.wet_r@ == wet_r,
                wet_l.len() == n,
                wet_r.len() == n,
                forall|k: int| 0 <= k < j ==> #[trigger] l@[k] == blended(fpu, in_l, wet_l, mix)[k],
                forall|k: int| 0 <= k < j ==> #[trigger] r@[k] == blended(fpu, in_r, wet_r, mix)[k],
                forall|k: int| j <= k < n ==> #[trigger] l@[k] == in_l[k],
                forall|k: int| j <= k < n ==> #[trigger] r@[k] == in_r[k],
            decreases n - j,
        {
            let (a, c) = (l[j], r[j]);
            l.set(j, fpu.add(a, fpu.mul(mix, fpu.sub(self.wet_l[j], a))));
            r.set(j, fpu.add(c, fpu.mul(mix, fpu.sub(self.wet_r[j], c))));
            j = j + 1;
        }
        proof {
            assert(l@ =~= blended(fpu, in_l, wet_l, mix));
            assert(r@ =~= blended(fpu, in_r, wet_r, mix));
        }
    }
}

proof fn lemma_after_len<A: Fn(Op, Plain, Plain) -> Plain>(
    fpu: &Fpu<A>,
    s: VReverbState,
    p: VReverbParams,
    dry: Seq<Plain>,
    n: nat,
)
    ensures
        s.after(fpu, p, dry, n).1.len() == n,
        s.after(fpu, p, dry, n).2.len() == n,
    decreases n,
{
    reveal(VReverbState::after);
    if n > 0 {
        lemma_after_len(fpu, s, p, dry, (n - 1) as nat);
    }
}

/// Every knob of the chorus and the delay reaches its own setting, as it is within its range.
pub proof fn lemma_knobs_reach_their_settings<A: Fn(Op, Plain, Plain) -> Plain>(
    fpu: &Fpu<A>,
    s: EffectState,
    g: GlobalValues,
    t: ReverbType,
    tempo_bpm: Plain,
)
    ensures
        ({
            let n = s.updated(fpu, g, t, tempo_bpm);
            let (zero, one) = (num(ZERO), num(ONE));
            let (depth, mix) = (g.get(GlobalParam::ChorusDepth), g.get(GlobalParam::ChorusMix));
            let (fb, wet) = (g.get(GlobalParam::DelayFeedback), g.get(GlobalParam::DelayMix));
            &&& zero.at_most(depth) && depth.at_most(one) ==> n.chorus_params.depth == depth
            &&& zero.at_most(mix) && mix.at_most(one) ==> n.chorus_params.mix == mix
            &&& zero.at_most(fb) && fb.at_most(num(F0_95)) ==> n.delay_params.feedback == fb
            &&& zero.at_most(wet) && wet.at_most(one) ==> n.delay_params.mix == wet
            &&& n.delay_params.ping_pong == g.bool(GlobalParam::DelayPingPong)
            &&& n.delay_params.delay_samples_l == n.delay_params.delay_samples_r
            &&& n.voicing == Some(t)
            &&& n.chorus == s.chorus && n.delay == s.delay
            &&& n.reverb.line.jitter.amount == zero
        }),
{
    broadcast use crate::plain::group_by_rank;

    reveal(EffectState::updated);
}

/// The type of the reverb sets its character: a later type has a longer decay and no less
/// diffusion, and of one type a greater depth has no shorter a reverb and nothing else changed.
pub proof fn lemma_reverb_character<A: Fn(Op, Plain, Plain) -> Plain>(
    fpu: &Fpu<A>,
    s: EffectState,
    g: GlobalValues,
    a: ReverbType,
    b: ReverbType,
    tempo_bpm: Plain,
)
    requires
        a.index() < b.index(),
    ensures
        s.updated(fpu, g, a, tempo_bpm).reverb_params.decay.less(
            s.updated(fpu, g, b, tempo_bpm).reverb_params.decay,
        ),
        s.updated(fpu, g, a, tempo_bpm).reverb_params.decay == a.row().decay,
{
    broadcast use crate::plain::group_by_rank;

    reveal(EffectState::updated);
    crate::reverb_macro::lemma_types_grow(a, b);
}

/// A blend without wet is the dry channel, and one of wet alone the wet channel, wherever the
/// way between is a number; between, it lies on the wet side of the dry.
pub proof fn lemma_blend_ends<A: Fn(Op, Plain, Plain) -> Plain>(
    fpu: &Fpu<A>,
    dry: Seq<Plain>,
    wet: Seq<Plain>,
    mix: Plain,
    i: int,
    way: Plain,
)
    requires
        fpu.rounds(),
        0 <= i < dry.len(),
        dry[i].is_number() && wet[i].is_number() && way.is_number(),
        way.scaled() == wet[i].scaled() - dry[i].scaled(),
        mix.is_finite() && 0 <= mix.scaled() <= plain::unit(),
    ensures
        ({
            let b = blended(fpu, dry, wet, mix);
            &&& b.len() == dry.len()
            &&& mix.is_zero() ==> b[i].equals(dry[i])
            &&& mix == num(ONE) ==> b[i].equals(wet[i])
            &&& dry[i].at_most(wet[i]) ==> dry[i].at_most(b[i])
            &&& wet[i].at_most(dry[i]) ==> b[i].at_most(dry[i])
        }),
{
    math::lemma_part_way(fpu, dry[i], wet[i], mix, way);
}

/// The middle of two equal channels is either of them.
pub proof fn lemma_centre_of_equals<A: Fn(Op, Plain, Plain) -> Plain>(
    fpu: &Fpu<A>,
    l: Seq<Plain>,
    r: Seq<Plain>,
    i: int,
)
    requires
        fpu.rounds(),
        0 <= i < l.len(),
        l[i] == r[i],
        l[i].is_number() && l[i].mag() < 0x7e00_0000,
    ensures
        centre(fpu, l, r)[i].equals(l[i]),
{
    broadcast use crate::plain::group_by_rank;

    plain::lemma_small_values();
    let x = l[i];
    plain::lemma_twice(x);
    let two = fpu.add(x, x);
    fpu.lemma_add_side(x, x, plain::twice(x));
    plain::lemma_equal_scaled(two, plain::twice(x));
    let (u, s, h) = (plain::unit(), x.scaled(), num(HALF).scaled());
    assert(h * (2 * s) == s * u) by (nonlinear_arith)
        requires
            2 * h == u,
    ;
    fpu.lemma_mul_side(num(HALF), two, x);
}

/// The middle of two opposite channels is silent.
pub proof fn lemma_centre_of_opposites<A: Fn(Op, Plain, Plain) -> Plain>(
    fpu: &Fpu<A>,
    l: Seq<Plain>,
    r: Seq<Plain>,
    i: int,
)
    requires
        fpu.rounds(),
        0 <= i < l.len(),
        l[i].is_finite() && r[i].is_finite(),
        l[i].scaled() == -r[i].scaled(),
    ensures
        centre(fpu, l, r)[i].is_zero(),
{
    broadcast use crate::plain::group_by_rank;

    plain::lemma_small_values();
    fpu.lemma_add_side(l[i], r[i], num(ZERO));
    fpu.lemma_none_of(num(HALF), fpu.add(l[i], r[i]));
}

/// One effect alone is heard alone: with the chorus on and nothing else, both channels are the
/// dry block through the chorus; with the delay alone, through the delay; and an effect that is
/// off does not run.
pub proof fn lemma_one_effect_alone<A: Fn(Op, Plain, Plain) -> Plain>(
    fpu: &Fpu<A>,
    s: EffectState,
    on: EffectSwitches,
    dry: Seq<Plain>,
)
    requires
        !on.reverb,
    ensures
        ({
            let (next, l, r) = s.processed(fpu, on, dry);
            &&& next.reverb == s.reverb
            &&& on.chorus && !on.delay ==> {
                let (c, x, y) = chorused(fpu, s.chorus, s.chorus_params, dry, dry.len());
                next.chorus == c && next.delay == s.delay && l == x && r == y
            }
            &&& !on.chorus && on.delay ==> {
                let (d, x, y) = delayed(fpu, s.delay, s.delay_params, dry, dry, dry.len());
                next.delay == d && next.chorus == s.chorus && l == x && r == y
            }
        }),
{
    reveal(EffectState::processed);
    reveal(EffectState::through_chorus);
    reveal(EffectState::through_delay);
}

} // verus!
