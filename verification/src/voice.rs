//! A layer's voices: what they play, and how notes start and stop them.
use crate::CHANNELS_PER_LAYER;
use crate::adsr::{AdsrCore, AdsrShape, AdsrStage};
use crate::assign::{self, plan, stack_level, AllocState, AllocView, Assign, Plan, NO_SKIP};
use crate::choices::AssignMode;
use crate::fpu::{Fpu, Op};
use crate::hpf::{HpfKernel, PolyHpf};
use crate::lanes::splat;
use crate::lfo::{LfoCore, LfoShape};
use crate::mono::{self, MonoStack};
use crate::noise::{self, BrownFilter, NoiseSource, PinkFilter};
use crate::nums::{F32, LARGEST, ONE, ZERO};
use crate::ota_ladder::OtaPoles;
use crate::plain::{num, Plain};
use crate::poly::{
    FilterMode, OscLane, OtaLane, PolyNoiseBank, PolyOscillator, PolyOtaLadder,
};
use vstd::prelude::*;

verus! {

broadcast use crate::plain::group_by_rank;

/// What a note does to LFO 1: restart it where the shape crosses zero, or let it run.
#[derive(Clone, Copy, Debug, PartialEq, Eq, Structural)]
pub struct Lfo1Trigger {
    pub shape: LfoShape,
    pub free_run: bool,
}

/// One voice: what it plays, and its envelopes and LFO.
#[derive(Clone, Copy, Debug, PartialEq, Eq, Structural)]
pub struct Channel {
    pub note: u8,
    pub velocity: Plain,
    /// The note is held.
    pub gate: bool,
    /// The voice sounds, held or in its release.
    pub active: bool,
    /// The envelopes restart at the next block.
    pub trigger_pending: bool,
    pub alloc_tick: u64,
    pub detune_cents: Plain,
    /// The gliding pitch, as a MIDI note.
    pub glide_semi: Plain,
    /// There is a pitch to glide from.
    pub glide_valid: bool,
    pub env1: AdsrCore,
    pub env2: AdsrCore,
    pub lfo1: LfoCore,
    /// Seconds since the note, for the onset of LFO 1.
    pub onset: Plain,
}

impl Channel {
    pub open spec fn triggered(
        self,
        note: u8,
        velocity: Plain,
        tick: u64,
        detune_cents: Plain,
        lfo1: Lfo1Trigger,
    ) -> Self {
        Channel {
            note,
            velocity,
            gate: true,
            active: true,
            trigger_pending: true,
            alloc_tick: tick,
            detune_cents,
            onset: num(ZERO),
            lfo1: if lfo1.free_run {
                self.lfo1
            } else {
                LfoCore { phase: lfo1.shape.start_phase(), ..self.lfo1 }
            },
            ..self
        }
    }

    pub open spec fn repitched(self, note: u8, velocity: Plain, detune_cents: Plain) -> Self {
        Channel { note, velocity, detune_cents, gate: true, active: true, ..self }
    }

    pub open spec fn released(self) -> Self {
        Channel { gate: false, ..self }
    }

    pub open spec fn wf(&self) -> bool {
        self.lfo1.wf() && self.env1.wf() && self.env2.wf()
    }
}

/// What a bank plays: everything that notes change.
#[verifier::ext_equal]
pub struct Playing {
    pub channels: Seq<Channel>,
    pub osc1: Seq<OscLane>,
    pub osc2: Seq<OscLane>,
    /// The held notes of a monophonic patch.
    pub mono: Seq<u8>,
    pub level_comp: Plain,
    pub unison: bool,
    pub rng: u64,
}

/// A note and how it is played.
#[derive(Clone, Copy, Debug, PartialEq, Eq, Structural)]
pub struct NoteOn {
    pub note: u8,
    pub velocity: Plain,
    pub alloc_tick: u64,
    pub unison_detune: Plain,
    pub lfo1: Lfo1Trigger,
}

/// Whether a plan uses channel `v`.
pub open spec fn uses(plan: Seq<Assign>, v: int) -> bool {
    exists|i: int| 0 <= i < plan.len() && (#[trigger] plan[i]).channel == v
}

impl Playing {
    /// What the allocation reads.
    pub open spec fn bookings(self) -> AllocState {
        AllocState {
            active: Seq::new(self.channels.len(), |v: int| self.channels[v].active),
            note: Seq::new(self.channels.len(), |v: int| self.channels[v].note),
            glide_semi: Seq::new(self.channels.len(), |v: int| self.channels[v].glide_semi),
            alloc_tick: Seq::new(self.channels.len(), |v: int| self.channels[v].alloc_tick),
        }
    }

    /// One channel starts a note: its bookkeeping, and both oscillators at the start
    /// phase.
    pub open spec fn triggered(self, a: Assign, n: NoteOn) -> Playing {
        let v = a.channel as int;
        Playing {
            channels: self.channels.update(
                v,
                self.channels[v].triggered(
                    n.note,
                    n.velocity,
                    n.alloc_tick,
                    a.detune_cents,
                    n.lfo1,
                ),
            ),
            osc1: self.osc1.update(v, restarted(self.osc1[v], a.start_phase)),
            osc2: self.osc2.update(v, restarted(self.osc2[v], a.start_phase)),
            ..self
        }
    }

    /// One channel moves to a note without restarting anything.
    pub open spec fn repitched(self, a: Assign, n: NoteOn) -> Playing {
        let v = a.channel as int;
        Playing {
            channels: self.channels.update(
                v,
                self.channels[v].repitched(n.note, n.velocity, a.detune_cents),
            ),
            ..self
        }
    }

    /// The first `k` assignments of a plan, started or, with `slide`, moved.
    pub open spec fn applied(self, plan: Seq<Assign>, n: NoteOn, slide: bool, k: nat) -> Playing
        decreases k,
    {
        if k == 0 {
            self
        } else {
            let s = self.applied(plan, n, slide, (k - 1) as nat);
            if slide {
                s.repitched(plan[k - 1], n)
            } else {
                s.triggered(plan[k - 1], n)
            }
        }
    }

    /// Every channel outside the plan is let go.
    pub open spec fn quiesced(self, plan: Seq<Assign>) -> Playing {
        Playing {
            channels: Seq::new(
                self.channels.len(),
                |v: int|
                    if uses(plan, v) {
                        self.channels[v]
                    } else {
                        self.channels[v].released()
                    },
            ),
            ..self
        }
    }

    /// The level and the stacking that a plan brings.
    pub open spec fn stacked<A: Fn(Op, Plain, Plain) -> Plain>(
        self,
        fpu: &Fpu<A>,
        mode: AssignMode,
        plan: Seq<Assign>,
    ) -> Playing {
        Playing {
            level_comp: stack_level(fpu, plan.len() as usize),
            unison: plan.len() > 1,
            rng: assign::rng_after(mode, self.rng),
            ..self
        }
    }

    pub open spec fn plan_for<A: Fn(Op, Plain, Plain) -> Plain>(
        self,
        fpu: &Fpu<A>,
        mode: AssignMode,
        n: NoteOn,
    ) -> Seq<Assign> {
        assign::planned(fpu, mode, n.note, n.unison_detune, self.bookings(), self.rng)
    }

    /// A monophonic note: the planned channels start it, or slide to it, and every other
    /// channel is let go.
    pub open spec fn voiced<A: Fn(Op, Plain, Plain) -> Plain>(
        self,
        fpu: &Fpu<A>,
        mode: AssignMode,
        n: NoteOn,
        slide: bool,
    ) -> Playing {
        let plan = self.plan_for(fpu, mode, n);
        self.applied(plan, n, slide, plan.len()).quiesced(plan).stacked(fpu, mode, plan)
    }

    /// A note-on. Solo and unison are monophonic: the note goes on the stack of held
    /// notes, and with legato an overlapping note slides. The other modes forget the stack
    /// and start the planned channels.
    pub open spec fn noted_on<A: Fn(Op, Plain, Plain) -> Plain>(
        self,
        fpu: &Fpu<A>,
        mode: AssignMode,
        n: NoteOn,
        legato: bool,
    ) -> Playing {
        if mode == AssignMode::Solo || mode == AssignMode::Unison {
            let held = Playing { mono: mono::pressed(self.mono, n.note), ..self };
            held.voiced(fpu, mode, n, legato && self.mono.len() > 0)
        } else {
            let free = Playing { mono: Seq::empty(), ..self };
            let plan = free.plan_for(fpu, mode, n);
            free.applied(plan, n, false, plan.len()).stacked(fpu, mode, plan)
        }
    }

    /// Every channel that holds the note is let go.
    pub open spec fn noted_off(self, note: u8) -> Playing {
        Playing {
            channels: Seq::new(
                self.channels.len(),
                |v: int|
                    {
                        let c = self.channels[v];
                        if c.active && c.gate && c.note == note {
                            c.released()
                        } else {
                            c
                        }
                    },
            ),
            ..self
        }
    }

    /// Every channel that is gated on the note is let go, sounding or not.
    pub open spec fn ungated(self, note: u8) -> Playing {
        Playing {
            channels: Seq::new(
                self.channels.len(),
                |v: int|
                    {
                        let c = self.channels[v];
                        if c.gate && c.note == note {
                            c.released()
                        } else {
                            c
                        }
                    },
            ),
            ..self
        }
    }

    /// A note-off of a monophonic patch: the note leaves the stack. If it was the sounding
    /// one and others are held, the voice returns to the newest of them at the velocity it
    /// had, sliding with legato.
    pub open spec fn mono_noted_off<A: Fn(Op, Plain, Plain) -> Plain>(
        self,
        fpu: &Fpu<A>,
        mode: AssignMode,
        n: NoteOn,
        legato: bool,
    ) -> Playing {
        let was_top = self.mono.len() > 0 && self.mono.last() == n.note;
        let s = Playing { mono: mono::without(self.mono, n.note), ..self }.ungated(n.note);
        if !was_top || s.mono.len() == 0 {
            s
        } else {
            let back = NoteOn { note: s.mono.last(), velocity: s.channels[0].velocity, ..n };
            s.voiced(fpu, mode, back, legato)
        }
    }

    pub open spec fn wf(self) -> bool {
        &&& self.channels.len() == CHANNELS_PER_LAYER
        &&& self.osc1.len() == CHANNELS_PER_LAYER
        &&& self.osc2.len() == CHANNELS_PER_LAYER
        &&& mono::is_stack(self.mono)
        &&& self.rng != 0
        &&& forall|v: int|
            0 <= v < CHANNELS_PER_LAYER ==> (#[trigger] self.channels[v]).lfo1.wf()
                && self.channels[v].env1.wf() && self.channels[v].env2.wf()
    }
}

/// An oscillator restarted at a phase. Its increment stays.
pub open spec fn restarted(lane: OscLane, phase: Plain) -> OscLane {
    OscLane { phase, inc: lane.inc, ..OscLane::fresh() }
}

/// The seed of a channel's LFO 1.
pub open spec fn spec_lfo1_seed(base: u64, ch: usize) -> u64 {
    base.wrapping_mul(0x9e37_79b9_7f4a_7c15).wrapping_add(
        ((ch + 1) as u64).wrapping_mul(0x632b_e5a6),
    )
}

#[verifier::when_used_as_spec(spec_lfo1_seed)]
pub fn lfo1_seed(base: u64, ch: usize) -> (r: u64)
    requires
        ch < CHANNELS_PER_LAYER,
    ensures
        r == lfo1_seed(base, ch),
{
    base.wrapping_mul(0x9e37_79b9_7f4a_7c15).wrapping_add(
        ((ch + 1) as u64).wrapping_mul(0x632b_e5a6),
    )
}

pub open spec fn spec_unison_rng_seed(base: u64) -> u64 {
    base.wrapping_mul(0xd1b5_4a32_d192_ed03) | 1
}

/// The seed of the start phases, never zero.
#[verifier::when_used_as_spec(spec_unison_rng_seed)]
pub fn unison_rng_seed(base: u64) -> (r: u64)
    ensures
        r == unison_rng_seed(base),
        r != 0,
{
    let x: u64 = base.wrapping_mul(0xd1b5_4a32_d192_ed03);
    assert(x | 1 != 0) by (bit_vector);
    x | 1
}

/// The channels that sound.
pub open spec fn active_among(channels: Seq<Channel>) -> nat
    decreases channels.len(),
{
    if channels.len() == 0 {
        0
    } else {
        active_among(channels.drop_last()) + (if channels.last().active {
            1nat
        } else {
            0
        })
    }
}

/// A layer's voices: their bookkeeping and their kernels.
pub struct VoiceBank {
    pub osc1: PolyOscillator,
    pub osc2: PolyOscillator,
    pub noise: PolyNoiseBank,
    pub hpf: PolyHpf,
    pub ladder: PolyOtaLadder,
    pub channels: [Channel; CHANNELS_PER_LAYER],
    pub level_comp: Plain,
    pub unison: bool,
    /// Base of the seeds of the LFOs, kept for when they are rebuilt.
    pub lfo1_seed: u64,
    pub unison_rng: u64,
    pub mono: MonoStack,
}

impl VoiceBank {
    pub open spec fn playing(&self) -> Playing {
        Playing {
            channels: self.channels@,
            osc1: self.osc1.lanes@,
            osc2: self.osc2.lanes@,
            mono: self.mono@,
            level_comp: self.level_comp,
            unison: self.unison,
            rng: self.unison_rng,
        }
    }

    pub open spec fn wf(&self) -> bool {
        self.playing().wf() && self.noise.wf()
    }

    /// Everything that notes do not change.
    pub open spec fn same_kernels(&self, other: &VoiceBank) -> bool {
        &&& self.noise == other.noise
        &&& self.hpf == other.hpf
        &&& self.ladder == other.ladder
        &&& self.lfo1_seed == other.lfo1_seed
    }

    /// A channel that has never played.
    pub open spec fn idle_channel<A: Fn(Op, Plain, Plain) -> Plain>(
        fpu: &Fpu<A>,
        sample_rate: Plain,
        seed: u64,
        v: int,
    ) -> Channel {
        Channel {
            note: 0,
            velocity: num(ZERO),
            gate: false,
            active: false,
            trigger_pending: false,
            alloc_tick: 0,
            detune_cents: num(ZERO),
            glide_semi: num(ZERO),
            glide_valid: false,
            env1: AdsrCore::fresh(sample_rate),
            env2: AdsrCore::fresh(sample_rate),
            lfo1: LfoCore::fresh(
                fpu,
                fpu.div(sample_rate, num(F32)),
                spec_lfo1_seed(seed, v as usize),
            ),
            onset: num(LARGEST),
        }
    }

    /// A bank that has never played.
    pub open spec fn is_fresh<A: Fn(Op, Plain, Plain) -> Plain>(
        &self,
        fpu: &Fpu<A>,
        sample_rate: Plain,
        seed: u64,
    ) -> bool {
        &&& forall|v: int|
            0 <= v < CHANNELS_PER_LAYER ==> #[trigger] self.channels@[v] == VoiceBank::idle_channel(
                fpu,
                sample_rate,
                seed,
                v,
            )
        &&& forall|v: int|
            0 <= v < CHANNELS_PER_LAYER ==> #[trigger] self.osc1.lanes@[v] == OscLane::fresh()
        &&& forall|v: int|
            0 <= v < CHANNELS_PER_LAYER ==> #[trigger] self.osc2.lanes@[v] == OscLane::fresh()
        &&& forall|v: int|
            0 <= v < CHANNELS_PER_LAYER ==> #[trigger] self.ladder.lanes@[v] == OtaLane::fresh()
        &&& forall|v: int|
            0 <= v < CHANNELS_PER_LAYER ==> #[trigger] self.hpf.lane(v) == (HpfKernel {
                a: num(ZERO),
                s: num(ZERO),
            })
        &&& forall|v: int|
            0 <= v < CHANNELS_PER_LAYER ==> #[trigger] self.noise.lanes@[v] == (NoiseSource {
                state: PolyNoiseBank::spec_seed(seed, v as usize) | 1,
                pink: PinkFilter::silent(),
                brown: BrownFilter { state: num(ZERO) },
            })
        &&& self.ladder.mode == FilterMode::Lp
        &&& self.ladder.poles == OtaPoles::Four
        &&& self.level_comp == num(ONE)
        &&& !self.unison
        &&& self.lfo1_seed == seed
        &&& self.unison_rng == unison_rng_seed(seed)
        &&& self.mono@ == Seq::<u8>::empty()
    }

    /// A silent bank. Layers with different seeds do not share random sequences.
    pub fn new<A: Fn(Op, Plain, Plain) -> Plain>(
        fpu: &Fpu<A>,
        sample_rate: Plain,
        rng_seed: u64,
    ) -> (r: Self)
        requires
            fpu.valid(),
        ensures
            r.wf(),
            r.is_fresh(fpu, sample_rate, rng_seed),
    {
        let control_rate = fpu.div(sample_rate, num(F32));
        let first = Channel {
            note: 0,
            velocity: num(ZERO),
            gate: false,
            active: false,
            trigger_pending: false,
            alloc_tick: 0,
            detune_cents: num(ZERO),
            glide_semi: num(ZERO),
            glide_valid: false,
            env1: AdsrCore::new(sample_rate),
            env2: AdsrCore::new(sample_rate),
            lfo1: LfoCore::new(fpu, control_rate, lfo1_seed(rng_seed, 0)),
            onset: num(LARGEST),
        };
        let mut channels: [Channel; CHANNELS_PER_LAYER] = splat(first);
        for v in 0..CHANNELS_PER_LAYER
            invariant
                fpu.valid(),
                control_rate == fpu.div(sample_rate, num(F32)),
                first == VoiceBank::idle_channel(fpu, sample_rate, rng_seed, 0),
                forall|i: int|
                    0 <= i < v ==> #[trigger] channels@[i] == VoiceBank::idle_channel(
                        fpu,
                        sample_rate,
                        rng_seed,
                        i,
                    ) && channels@[i].wf(),
        {
            let mut c = first;
            c.lfo1 = LfoCore::new(fpu, control_rate, lfo1_seed(rng_seed, v));
            channels[v] = c;
        }
        VoiceBank {
            osc1: PolyOscillator::new(),
            osc2: PolyOscillator::new(),
            noise: PolyNoiseBank::new(rng_seed),
            hpf: PolyHpf::new(),
            ladder: PolyOtaLadder::new(),
            channels,
            level_comp: num(ONE),
            unison: false,
            lfo1_seed: rng_seed,
            unison_rng: unison_rng_seed(rng_seed),
            mono: MonoStack::new(),
        }
    }

    /// A channel after a reset: nothing sounds, nothing is left to glide from. What it
    /// last played, and a restart that was pending, stay noted.
    pub open spec fn reset_channel(c: Channel) -> Channel {
        Channel {
            gate: false,
            active: false,
            detune_cents: num(ZERO),
            glide_semi: num(ZERO),
            glide_valid: false,
            env1: AdsrCore { stage: AdsrStage::Idle, level: num(ZERO), ..c.env1 },
            env2: AdsrCore { stage: AdsrStage::Idle, level: num(ZERO), ..c.env2 },
            lfo1: LfoCore { phase: num(ZERO), ..c.lfo1 },
            onset: num(LARGEST),
            ..c
        }
    }

    /// All but the channels silenced: phases, filter states and the stack of held notes.
    /// Filter settings, seeds and the random streams stay.
    pub open spec fn is_silenced(&self, pre: &VoiceBank) -> bool {
        &&& forall|v: int|
            0 <= v < CHANNELS_PER_LAYER ==> #[trigger] self.osc1.lanes@[v] == OscLane::fresh()
        &&& forall|v: int|
            0 <= v < CHANNELS_PER_LAYER ==> #[trigger] self.osc2.lanes@[v] == OscLane::fresh()
        &&& forall|v: int|
            0 <= v < CHANNELS_PER_LAYER ==> #[trigger] self.ladder.lanes@[v]
                == pre.ladder.lanes@[v].silenced()
        &&& forall|v: int|
            0 <= v < CHANNELS_PER_LAYER ==> #[trigger] self.hpf.lane(v) == (HpfKernel {
                s: num(ZERO),
                ..pre.hpf.lane(v)
            })
        &&& forall|v: int|
            0 <= v < CHANNELS_PER_LAYER ==> #[trigger] self.noise.lanes@[v] == (NoiseSource {
                state: pre.noise.lanes@[v].state,
                pink: PinkFilter::silent(),
                brown: BrownFilter { state: num(ZERO) },
            })
        &&& self.ladder.mode == pre.ladder.mode
        &&& self.ladder.poles == pre.ladder.poles
        &&& self.level_comp == num(ONE)
        &&& !self.unison
        &&& self.lfo1_seed == pre.lfo1_seed
        &&& self.unison_rng == pre.unison_rng
        &&& self.mono@ == Seq::<u8>::empty()
    }

    /// A bank after a reset.
    pub open spec fn is_reset(&self, pre: &VoiceBank) -> bool {
        &&& self.is_silenced(pre)
        &&& forall|v: int|
            0 <= v < CHANNELS_PER_LAYER ==> #[trigger] self.channels@[v]
                == VoiceBank::reset_channel(pre.channels@[v])
    }

    /// A channel with envelopes and LFO rebuilt for a sample rate.
    pub open spec fn rebuilt_channel<A: Fn(Op, Plain, Plain) -> Plain>(
        fpu: &Fpu<A>,
        sample_rate: Plain,
        seed: u64,
        v: int,
        c: Channel,
    ) -> Channel {
        Channel {
            env1: AdsrCore::fresh(sample_rate),
            env2: AdsrCore::fresh(sample_rate),
            lfo1: LfoCore::fresh(
                fpu,
                fpu.div(sample_rate, num(F32)),
                spec_lfo1_seed(seed, v as usize),
            ),
            ..c
        }
    }

    /// A bank rebuilt for a sample rate and reset.
    pub open spec fn is_rebuilt<A: Fn(Op, Plain, Plain) -> Plain>(
        &self,
        fpu: &Fpu<A>,
        sample_rate: Plain,
        pre: &VoiceBank,
    ) -> bool {
        &&& self.is_silenced(pre)
        &&& forall|v: int|
            0 <= v < CHANNELS_PER_LAYER ==> #[trigger] self.channels@[v]
                == VoiceBank::reset_channel(
                VoiceBank::rebuilt_channel(fpu, sample_rate, pre.lfo1_seed, v, pre.channels@[v]),
            )
    }

    /// Silence everything.
    pub fn reset_all(&mut self)
        requires
            old(self).wf(),
        ensures
            final(self).wf(),
            final(self).is_reset(old(self)),
    {
        self.osc1 = PolyOscillator::new();
        self.osc2 = PolyOscillator::new();
        self.noise.reset();
        self.hpf.reset();
        self.ladder.reset();
        let ghost at = *self;
        for v in 0..CHANNELS_PER_LAYER
            invariant
                old(self).wf(),
                forall|i: int|
                    0 <= i < v ==> #[trigger] self.channels@[i] == VoiceBank::reset_channel(
                        old(self).channels@[i],
                    ) && self.channels@[i].wf(),
                forall|i: int|
                    v <= i < CHANNELS_PER_LAYER ==> #[trigger] self.channels@[i] == old(
                        self,
                    ).channels@[i],
                self.osc1 == at.osc1,
                self.osc2 == at.osc2,
                self.noise == at.noise,
                self.hpf == at.hpf,
                self.ladder == at.ladder,
                self.lfo1_seed == old(self).lfo1_seed,
                self.unison_rng == old(self).unison_rng,
                self.mono == old(self).mono,
        {
            let mut c = self.channels[v];
            proof {
                assert(old(self).playing().channels[v as int].lfo1.wf());
            }
            c.env1.reset();
            c.env2.reset();
            c.active = false;
            c.gate = false;
            c.detune_cents = num(ZERO);
            c.glide_semi = num(ZERO);
            c.glide_valid = false;
            c.lfo1.reset();
            c.onset = num(LARGEST);
            self.channels[v] = c;
        }
        self.level_comp = num(ONE);
        self.unison = false;
        self.mono.clear();
    }

    /// Rebuild the envelopes and LFOs for a sample rate, and silence everything.
    pub fn set_sample_rate<A: Fn(Op, Plain, Plain) -> Plain>(
        &mut self,
        fpu: &Fpu<A>,
        sample_rate: Plain,
    )
        requires
            fpu.valid(),
            old(self).wf(),
        ensures
            final(self).wf(),
            final(self).is_rebuilt(fpu, sample_rate, old(self)),
    {
        let control_rate = fpu.div(sample_rate, num(F32));
        let seed: u64 = self.lfo1_seed;
        for v in 0..CHANNELS_PER_LAYER
            invariant
                fpu.valid(),
                old(self).wf(),
                control_rate == fpu.div(sample_rate, num(F32)),
                seed == old(self).lfo1_seed,
                forall|i: int|
                    0 <= i < v ==> #[trigger] self.channels@[i] == VoiceBank::rebuilt_channel(
                        fpu,
                        sample_rate,
                        old(self).lfo1_seed,
                        i,
                        old(self).channels@[i],
                    ) && self.channels@[i].wf(),
                forall|i: int|
                    v <= i < CHANNELS_PER_LAYER ==> #[trigger] self.channels@[i] == old(
                        self,
                    ).channels@[i],
                self.osc1 == old(self).osc1,
                self.osc2 == old(self).osc2,
                self.same_kernels(old(self)),
                self.unison_rng == old(self).unison_rng,
                self.mono == old(self).mono,
        {
            let mut c = self.channels[v];
            c.env1 = AdsrCore::new(sample_rate);
            c.env2 = AdsrCore::new(sample_rate);
            c.lfo1 = LfoCore::new(fpu, control_rate, lfo1_seed(seed, v));
            self.channels[v] = c;
        }
        self.reset_all();
    }

    /// How many voices sound.
    pub fn active_count(&self) -> (r: usize)
        ensures
            r == active_among(self.channels@),
            r <= CHANNELS_PER_LAYER,
    {
        let mut n: usize = 0;
        for v in 0..CHANNELS_PER_LAYER
            invariant
                n == active_among(self.channels@.take(v as int)),
                n <= v,
        {
            proof {
                assert(self.channels@.take(v + 1).drop_last() =~= self.channels@.take(v as int));
            }
            if self.channels[v].active {
                n = n + 1;
            }
        }
        assert(self.channels@.take(CHANNELS_PER_LAYER as int) =~= self.channels@);
        n
    }

    /// The phase of a voice's LFO 1.
    pub fn lfo1_phase(&self, v: usize) -> (r: Plain)
        requires
            v < CHANNELS_PER_LAYER,
        ensures
            r == self.channels@[v as int].lfo1.phase,
    {
        self.channels[v].lfo1.phase
    }

    /// The note that a voice holds, if any.
    pub fn gated_note(&self, v: usize) -> (r: Option<u8>)
        requires
            v < CHANNELS_PER_LAYER,
        ensures
            r == (if self.channels@[v as int].active && self.channels@[v as int].gate {
                Some(self.channels@[v as int].note)
            } else {
                None
            }),
    {
        let c = self.channels[v];
        if c.active && c.gate {
            Some(c.note)
        } else {
            None
        }
    }

    /// Whether a voice restarts at the next block.
    pub fn trigger_pending(&self, v: usize) -> (r: bool)
        requires
            v < CHANNELS_PER_LAYER,
        ensures
            r == self.channels@[v as int].trigger_pending,
    {
        self.channels[v].trigger_pending
    }

    pub open spec fn with_envelopes<A: Fn(Op, Plain, Plain) -> Plain>(
        fpu: &Fpu<A>,
        c: Channel,
        env1: (Plain, Plain, Plain, Plain),
        env1_shape: AdsrShape,
        env2: (Plain, Plain, Plain, Plain),
        env2_shape: AdsrShape,
    ) -> Channel {
        Channel {
            env1: AdsrCore {
                shape: env1_shape,
                ..c.env1.with_params(fpu, env1.0, env1.1, env1.2, env1.3)
            },
            env2: AdsrCore {
                shape: env2_shape,
                ..c.env2.with_params(fpu, env2.0, env2.1, env2.2, env2.3)
            },
            ..c
        }
    }

    /// Set the attack, decay, sustain and release and the shape of both envelopes of every
    /// voice.
    pub fn set_envelopes<A: Fn(Op, Plain, Plain) -> Plain>(
        &mut self,
        fpu: &Fpu<A>,
        env1: (Plain, Plain, Plain, Plain),
        env1_shape: AdsrShape,
        env2: (Plain, Plain, Plain, Plain),
        env2_shape: AdsrShape,
    )
        requires
            fpu.valid(),
        ensures
            forall|v: int|
                0 <= v < CHANNELS_PER_LAYER ==> #[trigger] final(self).channels@[v]
                    == VoiceBank::with_envelopes(
                    fpu,
                    old(self).channels@[v],
                    env1,
                    env1_shape,
                    env2,
                    env2_shape,
                ),
            final(self).osc1 == old(self).osc1,
            final(self).osc2 == old(self).osc2,
            final(self).same_kernels(old(self)),
            final(self).level_comp == old(self).level_comp,
            final(self).unison == old(self).unison,
            final(self).unison_rng == old(self).unison_rng,
            final(self).mono == old(self).mono,
            old(self).wf() ==> final(self).wf(),
    {
        for v in 0..CHANNELS_PER_LAYER
            invariant
                fpu.valid(),
                forall|i: int|
                    0 <= i < v ==> #[trigger] self.channels@[i] == VoiceBank::with_envelopes(
                        fpu,
                        old(self).channels@[i],
                        env1,
                        env1_shape,
                        env2,
                        env2_shape,
                    ),
                forall|i: int|
                    v <= i < CHANNELS_PER_LAYER ==> #[trigger] self.channels@[i] == old(
                        self,
                    ).channels@[i],
                self.osc1 == old(self).osc1,
                self.osc2 == old(self).osc2,
                self.same_kernels(old(self)),
                self.level_comp == old(self).level_comp,
                self.unison == old(self).unison,
                self.unison_rng == old(self).unison_rng,
                self.mono == old(self).mono,
        {
            let mut c = self.channels[v];
            c.env1.set_params(fpu, env1.0, env1.1, env1.2, env1.3);
            c.env1.set_shape(env1_shape);
            c.env2.set_params(fpu, env2.0, env2.1, env2.2, env2.3);
            c.env2.set_shape(env2_shape);
            self.channels[v] = c;
        }
        proof {
            if old(self).wf() {
                assert forall|v: int| 0 <= v < CHANNELS_PER_LAYER implies (
                #[trigger] self.playing().channels[v]).lfo1.wf() && self.channels@[v].env1.wf()
                    && self.channels@[v].env2.wf() by {
                    assert(old(self).playing().channels[v].lfo1.wf());
                }
            }
        }
    }

    fn alloc_view(&self) -> (r: AllocView)
        ensures
            r@ == self.playing().bookings(),
    {
        let mut r = AllocView {
            active: splat(false),
            note: splat(0u8),
            glide_semi: splat(num(ZERO)),
            alloc_tick: splat(0u64),
        };
        for v in 0..CHANNELS_PER_LAYER
            invariant
                forall|i: int| 0 <= i < v ==> #[trigger] r.active@[i] == self.channels@[i].active,
                forall|i: int| 0 <= i < v ==> #[trigger] r.note@[i] == self.channels@[i].note,
                forall|i: int|
                    0 <= i < v ==> #[trigger] r.glide_semi@[i] == self.channels@[i].glide_semi,
                forall|i: int|
                    0 <= i < v ==> #[trigger] r.alloc_tick@[i] == self.channels@[i].alloc_tick,
        {
            let c = self.channels[v];
            r.active[v] = c.active;
            r.note[v] = c.note;
            r.glide_semi[v] = c.glide_semi;
            r.alloc_tick[v] = c.alloc_tick;
        }
        assert(r@ =~= self.playing().bookings());
        r
    }

    /// Start a note on one channel.
    fn trigger(&mut self, a: Assign, n: NoteOn)
        requires
            a.channel < CHANNELS_PER_LAYER,
        ensures
            final(self).playing() == old(self).playing().triggered(a, n),
            final(self).same_kernels(old(self)),
    {
        let v: usize = a.channel;
        let mut c = self.channels[v];
        c.note = n.note;
        c.velocity = n.velocity;
        c.gate = true;
        c.active = true;
        c.trigger_pending = true;
        c.alloc_tick = n.alloc_tick;
        c.detune_cents = a.detune_cents;
        c.onset = num(ZERO);
        if !n.lfo1.free_run {
            c.lfo1.retrigger(n.lfo1.shape);
        }
        self.channels[v] = c;
        self.osc1.reset(v);
        self.osc2.reset(v);
        self.osc1.set_phase(v, a.start_phase);
        self.osc2.set_phase(v, a.start_phase);
        assert(self.playing() =~= old(self).playing().triggered(a, n));
    }

    /// Move a sounding channel to a note without restarting its envelopes, LFO or phases.
    fn repitch(&mut self, a: Assign, n: NoteOn)
        requires
            a.channel < CHANNELS_PER_LAYER,
        ensures
            final(self).playing() == old(self).playing().repitched(a, n),
            final(self).same_kernels(old(self)),
    {
        let v: usize = a.channel;
        let mut c = self.channels[v];
        c.note = n.note;
        c.velocity = n.velocity;
        c.detune_cents = a.detune_cents;
        c.gate = true;
        c.active = true;
        self.channels[v] = c;
        assert(self.playing() =~= old(self).playing().repitched(a, n));
    }

    fn apply_plan(&mut self, plan: &Plan, n: NoteOn, slide: bool)
        requires
            plan.wf(),
            assign::well_planned(plan@),
            plan@.len() == plan.len,
        ensures
            final(self).playing() == old(self).playing().applied(plan@, n, slide, plan@.len()),
            final(self).same_kernels(old(self)),
    {
        for i in 0..plan.len
            invariant
                plan.wf(),
                assign::well_planned(plan@),
                plan@.len() == plan.len,
                self.playing() == old(self).playing().applied(plan@, n, slide, i as nat),
                self.same_kernels(old(self)),
        {
            let a = plan.assigns[i];
            assert(a == plan@[i as int]);
            if slide {
                self.repitch(a, n);
            } else {
                self.trigger(a, n);
            }
        }
    }

    fn quiesce(&mut self, plan: &Plan)
        requires
            plan.wf(),
            assign::well_planned(plan@),
            plan@.len() == plan.len,
        ensures
            final(self).playing() == old(self).playing().quiesced(plan@),
            final(self).same_kernels(old(self)),
    {
        let mut used: [bool; CHANNELS_PER_LAYER] = splat(false);
        for i in 0..plan.len
            invariant
                plan.wf(),
                assign::well_planned(plan@),
                plan@.len() == plan.len,
                forall|v: int|
                    0 <= v < CHANNELS_PER_LAYER ==> #[trigger] used@[v] == uses(
                        plan@.take(i as int),
                        v,
                    ),
        {
            let a = plan.assigns[i];
            let ghost before = used@;
            assert(a == plan@[i as int]);
            used[a.channel] = true;
            proof {
                assert forall|v: int| 0 <= v < CHANNELS_PER_LAYER implies #[trigger] used@[v]
                    == uses(plan@.take(i + 1), v) by {
                    if before[v] {
                        let k = choose|k: int|
                            0 <= k < i && (#[trigger] plan@.take(i as int)[k]).channel == v;
                        assert(plan@.take(i + 1)[k].channel == v);
                    }
                    if v == a.channel {
                        assert(plan@.take(i + 1)[i as int].channel == v);
                    }
                    if uses(plan@.take(i + 1), v) && v != a.channel {
                        let k = choose|k: int|
                            0 <= k < i + 1 && (#[trigger] plan@.take(i + 1)[k]).channel == v;
                        assert(plan@.take(i as int)[k].channel == v);
                    }
                }
            }
        }
        assert(plan@.take(plan.len as int) =~= plan@);
        for v in 0..CHANNELS_PER_LAYER
            invariant
                forall|u: int|
                    0 <= u < CHANNELS_PER_LAYER ==> #[trigger] used@[u] == uses(plan@, u),
                forall|u: int|
                    0 <= u < v ==> #[trigger] self.channels@[u] == (if used@[u] {
                        old(self).channels@[u]
                    } else {
                        old(self).channels@[u].released()
                    }),
                forall|u: int|
                    v <= u < CHANNELS_PER_LAYER ==> #[trigger] self.channels@[u] == old(
                        self,
                    ).channels@[u],
                self.osc1 == old(self).osc1,
                self.osc2 == old(self).osc2,
                self.same_kernels(old(self)),
                self.mono == old(self).mono,
                self.level_comp == old(self).level_comp,
                self.unison == old(self).unison,
                self.unison_rng == old(self).unison_rng,
        {
            if !used[v] {
                let mut c = self.channels[v];
                c.gate = false;
                self.channels[v] = c;
            }
        }
        assert(self.playing() =~= old(self).playing().quiesced(plan@));
    }

    /// Sound a monophonic note on its channels and let every other channel go.
    fn mono_voice<A: Fn(Op, Plain, Plain) -> Plain>(
        &mut self,
        fpu: &Fpu<A>,
        mode: AssignMode,
        n: NoteOn,
        slide: bool,
    )
        requires
            fpu.valid(),
            old(self).wf(),
        ensures
            final(self).playing() == old(self).playing().voiced(fpu, mode, n, slide),
            final(self).same_kernels(old(self)),
            final(self).wf(),
    {
        let view = self.alloc_view();
        let mut rng: u64 = self.unison_rng;
        let plan = plan(fpu, mode, n.note, n.unison_detune, &view, &mut rng);
        let ghost start = self.playing();
        self.apply_plan(&plan, n, slide);
        self.quiesce(&plan);
        self.unison_rng = rng;
        self.level_comp = plan.level_comp;
        self.unison = plan.unison;
        proof {
            start.lemma_applied_frame(plan@, n, slide, plan@.len());
            lemma_rng_never_sticks(mode, start.rng);
            assert(self.playing() =~= start.voiced(fpu, mode, n, slide));
        }
    }

    /// Start a note under an assign mode.
    pub fn note_on<A: Fn(Op, Plain, Plain) -> Plain>(
        &mut self,
        fpu: &Fpu<A>,
        mode: AssignMode,
        n: NoteOn,
        legato: bool,
    )
        requires
            fpu.valid(),
            old(self).wf(),
        ensures
            final(self).playing() == old(self).playing().noted_on(fpu, mode, n, legato),
            final(self).same_kernels(old(self)),
            final(self).wf(),
    {
        if mode == AssignMode::Solo || mode == AssignMode::Unison {
            let was_sounding: bool = !self.mono.is_empty();
            self.mono.push(n.note);
            self.mono_voice(fpu, mode, n, legato && was_sounding);
            return;
        }
        self.mono.clear();
        let view = self.alloc_view();
        let mut rng: u64 = self.unison_rng;
        let plan = plan(fpu, mode, n.note, n.unison_detune, &view, &mut rng);
        let ghost start = self.playing();
        self.apply_plan(&plan, n, false);
        self.unison_rng = rng;
        self.level_comp = plan.level_comp;
        self.unison = plan.unison;
        proof {
            start.lemma_applied_frame(plan@, n, false, plan@.len());
            lemma_rng_never_sticks(mode, start.rng);
            assert(self.playing() =~= old(self).playing().noted_on(fpu, mode, n, legato));
        }
    }

    /// Let go every voice that holds a note.
    pub fn note_off(&mut self, note: u8)
        ensures
            final(self).playing() == old(self).playing().noted_off(note),
            final(self).same_kernels(old(self)),
            old(self).wf() ==> final(self).wf(),
    {
        self.release_where(note, true);
        proof {
            assert(self.playing() =~= old(self).playing().noted_off(note));
            if old(self).wf() {
                assert forall|v: int| 0 <= v < CHANNELS_PER_LAYER implies (
                #[trigger] self.playing().channels[v]).lfo1.wf() && self.channels@[v].env1.wf()
                    && self.channels@[v].env2.wf() by {
                    assert(old(self).playing().channels[v].lfo1.wf());
                }
            }
        }
    }

    fn release_where(&mut self, note: u8, active_only: bool)
        ensures
            forall|v: int|
                0 <= v < CHANNELS_PER_LAYER ==> #[trigger] final(self).channels@[v] == ({
                    let c = old(self).channels@[v];
                    if (c.active || !active_only) && c.gate && c.note == note {
                        c.released()
                    } else {
                        c
                    }
                }),
            final(self).osc1 == old(self).osc1,
            final(self).osc2 == old(self).osc2,
            final(self).same_kernels(old(self)),
            final(self).level_comp == old(self).level_comp,
            final(self).unison == old(self).unison,
            final(self).unison_rng == old(self).unison_rng,
            final(self).mono == old(self).mono,
    {
        for v in 0..CHANNELS_PER_LAYER
            invariant
                forall|u: int|
                    0 <= u < v ==> #[trigger] self.channels@[u] == ({
                        let c = old(self).channels@[u];
                        if (c.active || !active_only) && c.gate && c.note == note {
                            c.released()
                        } else {
                            c
                        }
                    }),
                forall|u: int|
                    v <= u < CHANNELS_PER_LAYER ==> #[trigger] self.channels@[u] == old(
                        self,
                    ).channels@[u],
                self.osc1 == old(self).osc1,
                self.osc2 == old(self).osc2,
                self.same_kernels(old(self)),
                self.level_comp == old(self).level_comp,
                self.unison == old(self).unison,
                self.unison_rng == old(self).unison_rng,
                self.mono == old(self).mono,
        {
            let mut c = self.channels[v];
            if (c.active || !active_only) && c.gate && c.note == note {
                c.gate = false;
                self.channels[v] = c;
            }
        }
    }

    /// Release a note of a monophonic patch, returning to the newest note still held.
    pub fn mono_note_off<A: Fn(Op, Plain, Plain) -> Plain>(
        &mut self,
        fpu: &Fpu<A>,
        mode: AssignMode,
        n: NoteOn,
        legato: bool,
    )
        requires
            fpu.valid(),
            old(self).wf(),
        ensures
            final(self).playing() == old(self).playing().mono_noted_off(fpu, mode, n, legato),
            final(self).same_kernels(old(self)),
            final(self).wf(),
    {
        let was_top: bool = self.mono.pop(n.note);
        self.release_where(n.note, false);
        proof {
            let s = Playing {
                mono: mono::without(old(self).playing().mono, n.note),
                ..old(self).playing()
            }.ungated(n.note);
            assert(self.playing() =~= s);
            assert forall|v: int| 0 <= v < CHANNELS_PER_LAYER implies (
            #[trigger] self.playing().channels[v]).lfo1.wf() && self.channels@[v].env1.wf()
                && self.channels@[v].env2.wf() by {
                assert(old(self).playing().channels[v].lfo1.wf());
            }
        }
        if !was_top {
            return;
        }
        match self.mono.top() {
            Some(note) => {
                let mut back = n;
                back.note = note;
                back.velocity = self.channels[0].velocity;
                self.mono_voice(fpu, mode, back, legato);
            },
            None => {},
        }
    }

    /// Let every voice go.
    pub fn all_notes_off(&mut self)
        ensures
            final(self).playing() == (Playing {
                channels: Seq::new(
                    CHANNELS_PER_LAYER as nat,
                    |v: int| old(self).channels@[v].released(),
                ),
                ..old(self).playing()
            }),
            final(self).same_kernels(old(self)),
            old(self).wf() ==> final(self).wf(),
    {
        for v in 0..CHANNELS_PER_LAYER
            invariant
                forall|u: int|
                    0 <= u < v ==> #[trigger] self.channels@[u] == old(
                        self,
                    ).channels@[u].released(),
                forall|u: int|
                    v <= u < CHANNELS_PER_LAYER ==> #[trigger] self.channels@[u] == old(
                        self,
                    ).channels@[u],
                self.osc1 == old(self).osc1,
                self.osc2 == old(self).osc2,
                self.same_kernels(old(self)),
                self.level_comp == old(self).level_comp,
                self.unison == old(self).unison,
                self.unison_rng == old(self).unison_rng,
                self.mono == old(self).mono,
        {
            let mut c = self.channels[v];
            c.gate = false;
            self.channels[v] = c;
        }
        proof {
            assert(self.channels@ =~= Seq::new(
                CHANNELS_PER_LAYER as nat,
                |v: int| old(self).channels@[v].released(),
            ));
            if old(self).wf() {
                assert forall|v: int| 0 <= v < CHANNELS_PER_LAYER implies (
                #[trigger] self.playing().channels[v]).lfo1.wf() && self.channels@[v].env1.wf()
                    && self.channels@[v].env2.wf() by {
                    assert(old(self).playing().channels[v].lfo1.wf());
                }
            }
        }
    }
}

/// However often it is drawn from, the generator never sticks.
pub proof fn lemma_rng_never_sticks(mode: AssignMode, rng: u64)
    requires
        rng != 0,
    ensures
        assign::rng_after(mode, rng) != 0,
{
    lemma_drawn_never_zero(rng, CHANNELS_PER_LAYER as nat);
}

proof fn lemma_drawn_never_zero(rng: u64, k: nat)
    requires
        rng != 0,
    ensures
        assign::drawn(rng, k) != 0,
    decreases k,
{
    if k > 0 {
        lemma_drawn_never_zero(rng, (k - 1) as nat);
        noise::lemma_xorshift_never_sticks(assign::drawn(rng, (k - 1) as nat));
    }
}

impl Playing {
    /// What a plan leaves alone: the stack, the level and the generator, the soundness of
    /// the envelopes and LFOs, and every channel outside the plan.
    proof fn lemma_applied_frame(self, plan: Seq<Assign>, n: NoteOn, slide: bool, k: nat)
        requires
            self.wf(),
            assign::well_planned(plan),
            k <= plan.len(),
        ensures
            self.applied(plan, n, slide, k).wf(),
            self.applied(plan, n, slide, k).mono == self.mono,
            self.applied(plan, n, slide, k).level_comp == self.level_comp,
            self.applied(plan, n, slide, k).unison == self.unison,
            self.applied(plan, n, slide, k).rng == self.rng,
        decreases k,
    {
        if k > 0 {
            self.lemma_applied_frame(plan, n, slide, (k - 1) as nat);
            let s = self.applied(plan, n, slide, (k - 1) as nat);
            let t = self.applied(plan, n, slide, k);
            let v = plan[k - 1].channel as int;
            assert forall|u: int| 0 <= u < CHANNELS_PER_LAYER implies (
            #[trigger] t.channels[u]).lfo1.wf() && t.channels[u].env1.wf()
                && t.channels[u].env2.wf() by {
                assert(s.channels[u].lfo1.wf());
            }
        }
    }

    /// What a plan does to a channel in it, and that it leaves the others alone.
    pub proof fn lemma_applied_channel(
        self,
        plan: Seq<Assign>,
        n: NoteOn,
        slide: bool,
        k: nat,
        v: int,
    )
        requires
            self.channels.len() == CHANNELS_PER_LAYER,
            self.osc1.len() == CHANNELS_PER_LAYER,
            self.osc2.len() == CHANNELS_PER_LAYER,
            assign::well_planned(plan),
            k <= plan.len(),
            0 <= v < CHANNELS_PER_LAYER,
        ensures
            ({
                let t = self.applied(plan, n, slide, k);
                &&& t.channels.len() == CHANNELS_PER_LAYER
                &&& t.osc1.len() == CHANNELS_PER_LAYER
                &&& t.osc2.len() == CHANNELS_PER_LAYER
                &&& !uses(plan.take(k as int), v) ==> t.channels[v] == self.channels[v]
                    && t.osc1[v] == self.osc1[v] && t.osc2[v] == self.osc2[v]
                &&& forall|i: int|
                    0 <= i < k && (#[trigger] plan[i]).channel == v ==> t.channels[v] == (if slide {
                        self.channels[v].repitched(n.note, n.velocity, plan[i].detune_cents)
                    } else {
                        self.channels[v].triggered(
                            n.note,
                            n.velocity,
                            n.alloc_tick,
                            plan[i].detune_cents,
                            n.lfo1,
                        )
                    })
                &&& slide ==> t.osc1[v] == self.osc1[v] && t.osc2[v] == self.osc2[v]
            }),
        decreases k,
    {
        if k > 0 {
            self.lemma_applied_channel(plan, n, slide, (k - 1) as nat, v);
            let a = plan[k - 1];
            let head = plan.take(k as int);
            let init = plan.take(k - 1);
            assert(head[k - 1] == a);
            if uses(init, v) {
                let i = choose|i: int| 0 <= i < init.len() && (#[trigger] init[i]).channel == v;
                assert(head[i].channel == v);
                assert(plan[i].channel == v && plan[k - 1].channel != v);
            }
            if a.channel == v {
                assert(head[k - 1].channel == v);
                assert forall|i: int| 0 <= i < k && (#[trigger] plan[i]).channel == v implies i == k
                    - 1 by {
                    assert(plan[k - 1].channel == v);
                }
            }
        }
    }

    /// A solo patch sounds one voice: after any note-on, only the first channel is held, and
    /// it holds the note.
    pub proof fn lemma_solo_is_monophonic<A: Fn(Op, Plain, Plain) -> Plain>(
        self,
        fpu: &Fpu<A>,
        n: NoteOn,
        legato: bool,
        v: int,
    )
        requires
            self.wf(),
            0 <= v < CHANNELS_PER_LAYER,
        ensures
            ({
                let t = self.noted_on(fpu, AssignMode::Solo, n, legato);
                &&& v == 0 ==> t.channels[v].gate && t.channels[v].active && t.channels[v].note
                    == n.note
                &&& v != 0 ==> !t.channels[v].gate
            }),
    {
        let held = Playing { mono: mono::pressed(self.mono, n.note), ..self };
        let plan = held.plan_for(fpu, AssignMode::Solo, n);
        let slide = legato && self.mono.len() > 0;
        held.lemma_applied_channel(plan, n, slide, 1, v);
        assert(plan.take(1) =~= plan);
        assert(plan[0].channel == 0);
        if uses(plan, v) {
            assert(v == 0);
        }
        if v == 0 {
            assert(uses(plan, v));
        }
    }

    /// A unison patch plays the note on every channel.
    pub proof fn lemma_unison_stacks_all<A: Fn(Op, Plain, Plain) -> Plain>(
        self,
        fpu: &Fpu<A>,
        n: NoteOn,
        legato: bool,
        v: int,
    )
        requires
            self.wf(),
            0 <= v < CHANNELS_PER_LAYER,
        ensures
            ({
                let t = self.noted_on(fpu, AssignMode::Unison, n, legato);
                t.channels[v].gate && t.channels[v].active && t.channels[v].note == n.note
                    && t.unison
            }),
    {
        let held = Playing { mono: mono::pressed(self.mono, n.note), ..self };
        let plan = held.plan_for(fpu, AssignMode::Unison, n);
        let slide = legato && self.mono.len() > 0;
        assert(plan[v].channel == v);
        assert(uses(plan, v));
        held.lemma_applied_channel(plan, n, slide, plan.len(), v);
        assert(plan.take(plan.len() as int) =~= plan);
    }

    /// A slurred note restarts nothing: while a note is held, legato leaves every voice's
    /// envelopes, LFO, phases and pending restarts as they were.
    pub proof fn lemma_legato_restarts_nothing<A: Fn(Op, Plain, Plain) -> Plain>(
        self,
        fpu: &Fpu<A>,
        mode: AssignMode,
        n: NoteOn,
        v: int,
    )
        requires
            self.wf(),
            mode == AssignMode::Solo || mode == AssignMode::Unison,
            self.mono.len() > 0,
            0 <= v < CHANNELS_PER_LAYER,
        ensures
            ({
                let t = self.noted_on(fpu, mode, n, true);
                &&& t.channels[v].trigger_pending == self.channels[v].trigger_pending
                &&& t.channels[v].env1 == self.channels[v].env1
                &&& t.channels[v].env2 == self.channels[v].env2
                &&& t.channels[v].lfo1 == self.channels[v].lfo1
                &&& t.channels[v].onset == self.channels[v].onset
                &&& t.osc1[v] == self.osc1[v]
                &&& t.osc2[v] == self.osc2[v]
            }),
    {
        let held = Playing { mono: mono::pressed(self.mono, n.note), ..self };
        let plan = held.plan_for(fpu, mode, n);
        held.lemma_applied_channel(plan, n, true, plan.len(), v);
        assert(plan.take(plan.len() as int) =~= plan);
        if uses(plan, v) {
            let i = choose|i: int| 0 <= i < plan.len() && (#[trigger] plan[i]).channel == v;
            assert(plan[i].channel == v);
        }
    }

    /// Without legato, or with nothing held to slide from, a monophonic note restarts every
    /// channel that it plays: the first one for solo, all for unison.
    pub proof fn lemma_detached_notes_restart<A: Fn(Op, Plain, Plain) -> Plain>(
        self,
        fpu: &Fpu<A>,
        mode: AssignMode,
        n: NoteOn,
        legato: bool,
        v: int,
    )
        requires
            self.wf(),
            0 <= v < CHANNELS_PER_LAYER,
            mode == AssignMode::Unison || (mode == AssignMode::Solo && v == 0),
            !legato || self.mono.len() == 0,
        ensures
            ({
                let c = self.noted_on(fpu, mode, n, legato).channels[v];
                c.trigger_pending && c.gate && c.active && c.note == n.note
            }),
    {
        let held = Playing { mono: mono::pressed(self.mono, n.note), ..self };
        let plan = held.plan_for(fpu, mode, n);
        assert(plan[v].channel == v);
        assert(uses(plan, v));
        held.lemma_applied_channel(plan, n, false, plan.len(), v);
        assert(plan.take(plan.len() as int) =~= plan);
    }

    /// A polyphonic note touches the one channel chosen for it and no other.
    pub proof fn lemma_poly_touches_one<A: Fn(Op, Plain, Plain) -> Plain>(
        self,
        fpu: &Fpu<A>,
        n: NoteOn,
        legato: bool,
        v: int,
        c: usize,
    )
        requires
            self.wf(),
            0 <= v < CHANNELS_PER_LAYER,
            assign::is_choice(fpu, n.note, self.bookings(), NO_SKIP, c),
        ensures
            ({
                let t = self.noted_on(fpu, AssignMode::Poly, n, legato);
                &&& v != c ==> t.channels[v] == self.channels[v] && t.osc1[v] == self.osc1[v]
                    && t.osc2[v] == self.osc2[v]
                &&& v == c ==> t.channels[v].gate && t.channels[v].note == n.note
                    && t.channels[v].trigger_pending
            }),
    {
        assign::lemma_choice_is_unique(fpu, n.note, self.bookings(), NO_SKIP, c);
        let free = Playing { mono: Seq::empty(), ..self };
        assert(free.bookings() =~= self.bookings());
        let plan = free.plan_for(fpu, AssignMode::Poly, n);
        assert(plan[0].channel == c);
        assert(assign::well_planned(plan));
        free.lemma_applied_channel(plan, n, false, 1, v);
        assert(plan.take(1) =~= plan);
        if v != c {
            assert(!uses(plan, v));
        }
    }

    /// After a note-off no voice holds the note, and no other note is disturbed.
    pub proof fn lemma_note_off_releases(self, note: u8, v: int)
        requires
            0 <= v < self.channels.len(),
        ensures
            ({
                let (c, d) = (self.channels[v], self.noted_off(note).channels[v]);
                &&& !(d.active && d.gate && d.note == note)
                &&& c.note != note ==> d == c
                &&& d.active == c.active
            }),
    {
    }

    /// When the sounding note of a monophonic patch is released while another is held, the
    /// voice returns to the newest of those at the velocity it had, on every channel that
    /// plays it: the first one for solo, all for unison. It restarts exactly when legato is
    /// off; with legato, phases, envelopes and LFO go on.
    pub proof fn lemma_release_returns_to_newest<A: Fn(Op, Plain, Plain) -> Plain>(
        self,
        fpu: &Fpu<A>,
        mode: AssignMode,
        n: NoteOn,
        legato: bool,
        v: int,
    )
        requires
            self.wf(),
            self.mono.len() > 1,
            self.mono.last() == n.note,
            0 <= v < CHANNELS_PER_LAYER,
            mode == AssignMode::Unison || (mode == AssignMode::Solo && v == 0),
        ensures
            ({
                let t = self.mono_noted_off(fpu, mode, n, legato);
                let (c, d) = (self.channels[v], t.channels[v]);
                &&& t.mono == mono::without(self.mono, n.note)
                &&& d.gate && d.active
                &&& d.note == t.mono.last()
                &&& d.velocity == self.channels[0].velocity
                &&& !legato ==> d.trigger_pending
                &&& legato ==> {
                    &&& d.trigger_pending == c.trigger_pending
                    &&& d.env1 == c.env1 && d.env2 == c.env2
                    &&& d.lfo1 == c.lfo1 && d.onset == c.onset
                    &&& t.osc1[v] == self.osc1[v] && t.osc2[v] == self.osc2[v]
                }
            }),
    {
        mono::lemma_without_is_stack(self.mono, n.note);
        let s = Playing { mono: mono::without(self.mono, n.note), ..self }.ungated(n.note);
        let back = NoteOn { note: s.mono.last(), velocity: s.channels[0].velocity, ..n };
        let plan = s.plan_for(fpu, mode, back);
        assert(plan[v].channel == v);
        assert(uses(plan, v));
        s.lemma_applied_channel(plan, back, legato, plan.len(), v);
        assert(plan.take(plan.len() as int) =~= plan);
        assert(self.mono.len() > 0 && self.mono.contains(self.mono[self.mono.len() - 1]));
        s.lemma_applied_mono(plan, back, legato, plan.len());
    }

    proof fn lemma_applied_mono(self, plan: Seq<Assign>, n: NoteOn, slide: bool, k: nat)
        ensures
            self.applied(plan, n, slide, k).mono == self.mono,
        decreases k,
    {
        if k > 0 {
            self.lemma_applied_mono(plan, n, slide, (k - 1) as nat);
        }
    }
}

/// A bank that was reset sounds no voice and holds no note.
pub proof fn lemma_reset_is_silent(pre: &VoiceBank, post: &VoiceBank)
    requires
        post.is_reset(pre),
    ensures
        active_among(post.channels@) == 0,
        post.mono@.len() == 0,
        forall|v: int| 0 <= v < CHANNELS_PER_LAYER ==> !(#[trigger] post.channels@[v]).gate,
{
    lemma_none_active(post.channels@);
}

/// Where no voice is active none is counted.
pub(crate) proof fn lemma_none_active(channels: Seq<Channel>)
    requires
        forall|v: int| 0 <= v < channels.len() ==> !(#[trigger] channels[v]).active,
    ensures
        active_among(channels) == 0,
    decreases channels.len(),
{
    if channels.len() > 0 {
        assert(!channels[channels.len() - 1].active);
        assert forall|v: int| 0 <= v < channels.len() - 1 implies !(
        #[trigger] channels.drop_last()[v]).active by {
            assert(!channels[v].active);
        }
        lemma_none_active(channels.drop_last());
    }
}

} // verus!
