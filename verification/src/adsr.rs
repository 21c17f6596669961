//! ADSR envelope state machine.
use crate::fpu::{Fpu, Op};
use crate::nums::{F0_0001, F1_2, F5, MINUS_F5, MINUS_ONE, ONE, TWO, ZERO};
use crate::plain::{self, num, Plain};
use vstd::prelude::*;

verus! {

broadcast use crate::plain::group_by_rank;

/// Where an envelope is in its course.
#[derive(Clone, Copy, Debug, PartialEq, Eq, Structural)]
pub enum AdsrStage {
    Idle,
    Attack,
    Decay,
    Sustain,
    Release,
}

/// Segment shape. `Linear` is a constant-slope ramp; `Exponential` an RC-style
/// asymptotic approach with 1.2x attack overshoot.
#[derive(Clone, Copy, Debug, PartialEq, Eq, Structural)]
pub enum AdsrShape {
    Linear,
    Exponential,
}

impl Default for AdsrShape {
    fn default() -> (r: Self)
        ensures
            r == AdsrShape::Linear,
    {
        AdsrShape::Linear
    }
}

pub open spec fn spec_exp_k<A: Fn(Op, Plain, Plain) -> Plain>(
    fpu: &Fpu<A>,
    secs: Plain,
    sample_rate: Plain,
) -> Plain {
    let samples = fpu.mul(secs, sample_rate).max(num(ONE));
    fpu.sub(num(ONE), fpu.exp(fpu.div(num(MINUS_F5), samples))).clamp(num(ZERO), num(ONE))
}

/// Per-sample coefficient of an exponential segment: five time constants in `secs`.
#[verifier::when_used_as_spec(spec_exp_k)]
pub fn exp_k<A: Fn(Op, Plain, Plain) -> Plain>(
    fpu: &Fpu<A>,
    secs: Plain,
    sample_rate: Plain,
) -> (r: Plain)
    requires
        fpu.valid(),
    ensures
        r == exp_k(fpu, secs, sample_rate),
{
    let samples = fpu.mul(secs, sample_rate).max(num(ONE));
    fpu.sub(num(ONE), fpu.exp(fpu.div(num(MINUS_F5), samples))).clamp(num(ZERO), num(ONE))
}

/// One envelope: the stage machine, its level and its segment rates.
#[derive(Clone, Copy, Debug, PartialEq, Eq, Structural)]
pub struct AdsrCore {
    pub stage: AdsrStage,
    pub level: Plain,
    pub shape: AdsrShape,
    pub attack_inc: Plain,
    pub decay_inc: Plain,
    pub sustain: Plain,
    pub release_secs: Plain,
    pub release_inc: Plain,
    pub attack_k: Plain,
    pub decay_k: Plain,
    pub release_k: Plain,
    pub sample_rate: Plain,
}

impl AdsrCore {
    /// An idle envelope is silent.
    pub open spec fn wf(&self) -> bool {
        self.stage == AdsrStage::Idle ==> self.level == num(ZERO)
    }

    pub open spec fn fresh(sample_rate: Plain) -> Self {
        AdsrCore {
            stage: AdsrStage::Idle,
            level: num(ZERO),
            shape: AdsrShape::Linear,
            attack_inc: num(ZERO),
            decay_inc: num(ZERO),
            sustain: num(ZERO),
            release_secs: num(ZERO),
            release_inc: num(ZERO),
            attack_k: num(ZERO),
            decay_k: num(ZERO),
            release_k: num(ZERO),
            sample_rate,
        }
    }

    pub fn new(sample_rate: Plain) -> (r: Self)
        ensures
            r == AdsrCore::fresh(sample_rate),
            r.wf(),
    {
        AdsrCore {
            stage: AdsrStage::Idle,
            level: num(ZERO),
            shape: AdsrShape::Linear,
            attack_inc: num(ZERO),
            decay_inc: num(ZERO),
            sustain: num(ZERO),
            release_secs: num(ZERO),
            release_inc: num(ZERO),
            attack_k: num(ZERO),
            decay_k: num(ZERO),
            release_k: num(ZERO),
            sample_rate,
        }
    }

    pub open spec fn with_params<A: Fn(Op, Plain, Plain) -> Plain>(
        self,
        fpu: &Fpu<A>,
        attack_secs: Plain,
        decay_secs: Plain,
        sustain: Plain,
        release_secs: Plain,
    ) -> Self {
        let a = attack_secs.max(num(F0_0001));
        let d = decay_secs.max(num(F0_0001));
        AdsrCore {
            attack_inc: fpu.div(num(ONE), fpu.mul(a, self.sample_rate)),
            sustain,
            decay_inc: fpu.div(fpu.sub(num(ONE), sustain), fpu.mul(d, self.sample_rate)),
            release_secs: release_secs.max(num(F0_0001)),
            attack_k: exp_k(fpu, a, self.sample_rate),
            decay_k: exp_k(fpu, d, self.sample_rate),
            ..self
        }
    }

    /// Set the segment times and the sustain level. The stage and level stay.
    pub fn set_params<A: Fn(Op, Plain, Plain) -> Plain>(
        &mut self,
        fpu: &Fpu<A>,
        attack_secs: Plain,
        decay_secs: Plain,
        sustain: Plain,
        release_secs: Plain,
    )
        requires
            fpu.valid(),
        ensures
            *final(self) == old(self).with_params(
                fpu,
                attack_secs,
                decay_secs,
                sustain,
                release_secs,
            ),
    {
        let a = attack_secs.max(num(F0_0001));
        let d = decay_secs.max(num(F0_0001));
        self.attack_inc = fpu.div(num(ONE), fpu.mul(a, self.sample_rate));
        self.sustain = sustain;
        self.decay_inc = fpu.div(fpu.sub(num(ONE), sustain), fpu.mul(d, self.sample_rate));
        self.release_secs = release_secs.max(num(F0_0001));
        self.attack_k = exp_k(fpu, a, self.sample_rate);
        self.decay_k = exp_k(fpu, d, self.sample_rate);
    }

    pub fn set_shape(&mut self, shape: AdsrShape)
        ensures
            *final(self) == (AdsrCore { shape, ..*old(self) }),
    {
        self.shape = shape;
    }

    pub fn reset(&mut self)
        ensures
            *final(self) == (AdsrCore { stage: AdsrStage::Idle, level: num(ZERO), ..*old(self) }),
            final(self).wf(),
    {
        self.stage = AdsrStage::Idle;
        self.level = num(ZERO);
    }

    pub open spec fn spec_is_idle(&self) -> bool {
        self.stage == AdsrStage::Idle
    }

    /// True once the envelope has fully released: the voice is safe to free.
    #[verifier::when_used_as_spec(spec_is_idle)]
    pub fn is_idle(&self) -> (r: bool)
        ensures
            r == self.is_idle(),
    {
        self.stage == AdsrStage::Idle
    }

    /// The level at `level`, or silence and the idle stage once it is down to
    /// `floor`.
    pub open spec fn falling(self, level: Plain, floor: Plain) -> Self {
        if level.at_most(floor) {
            AdsrCore { level: num(ZERO), stage: AdsrStage::Idle, ..self }
        } else {
            AdsrCore { level, stage: AdsrStage::Release, ..self }
        }
    }

    /// The level at `level`, or full and decaying once it is up to one.
    pub open spec fn rising(self, level: Plain) -> Self {
        if num(ONE).at_most(level) {
            AdsrCore { level: num(ONE), stage: AdsrStage::Decay, ..self }
        } else {
            AdsrCore { level, ..self }
        }
    }

    /// The level at `level`, or sustaining once it is down to `floor`.
    pub open spec fn settling(self, level: Plain, floor: Plain) -> Self {
        if level.at_most(floor) {
            AdsrCore { level: self.sustain, stage: AdsrStage::Sustain, ..self }
        } else {
            AdsrCore { level, ..self }
        }
    }

    pub open spec fn released<A: Fn(Op, Plain, Plain) -> Plain>(self, fpu: &Fpu<A>) -> Self {
        match self.shape {
            AdsrShape::Linear => {
                let release_inc = fpu.div(self.level, fpu.mul(self.release_secs, self.sample_rate));
                AdsrCore { release_inc, ..self }.falling(
                    fpu.sub(self.level, release_inc),
                    num(ZERO),
                )
            },
            AdsrShape::Exponential => {
                let release_k = exp_k(fpu, self.release_secs, self.sample_rate);
                AdsrCore { release_k, ..self }.falling(self.level, num(F0_0001))
            },
        }
    }

    /// Turn to the release: from the current level, over the release time.
    fn enter_release<A: Fn(Op, Plain, Plain) -> Plain>(&mut self, fpu: &Fpu<A>)
        requires
            fpu.valid(),
        ensures
            *final(self) == old(self).released(fpu),
    {
        match self.shape {
            AdsrShape::Linear => {
                self.release_inc = fpu.div(
                    self.level,
                    fpu.mul(self.release_secs, self.sample_rate),
                );
                self.level = fpu.sub(self.level, self.release_inc);
                if self.level.at_most(num(ZERO)) {
                    self.level = num(ZERO);
                    self.stage = AdsrStage::Idle;
                } else {
                    self.stage = AdsrStage::Release;
                }
            },
            AdsrShape::Exponential => {
                self.release_k = exp_k(fpu, self.release_secs, self.sample_rate);
                if self.level.at_most(num(F0_0001)) {
                    self.level = num(ZERO);
                    self.stage = AdsrStage::Idle;
                } else {
                    self.stage = AdsrStage::Release;
                }
            },
        }
    }

    pub open spec fn linear_next<A: Fn(Op, Plain, Plain) -> Plain>(
        self,
        fpu: &Fpu<A>,
        gate_high: bool,
    ) -> Self {
        match self.stage {
            AdsrStage::Idle => self,
            AdsrStage::Attack if !gate_high => self.released(fpu),
            AdsrStage::Attack => self.rising(fpu.add(self.level, self.attack_inc)),
            AdsrStage::Decay if !gate_high => self.released(fpu),
            AdsrStage::Decay => self.settling(fpu.sub(self.level, self.decay_inc), self.sustain),
            AdsrStage::Sustain if !gate_high => AdsrCore { level: self.sustain, ..self }.released(fpu),
            AdsrStage::Sustain => AdsrCore { level: self.sustain, ..self },
            AdsrStage::Release => self.falling(fpu.sub(self.level, self.release_inc), num(ZERO)),
        }
    }

    /// One sample of the linear shape.
    fn tick_linear<A: Fn(Op, Plain, Plain) -> Plain>(&mut self, fpu: &Fpu<A>, gate_high: bool)
        requires
            fpu.valid(),
        ensures
            *final(self) == old(self).linear_next(fpu, gate_high),
    {
        match self.stage {
            AdsrStage::Idle => {},
            AdsrStage::Attack => {
                if !gate_high {
                    self.enter_release(fpu);
                } else {
                    self.level = fpu.add(self.level, self.attack_inc);
                    if num(ONE).at_most(self.level) {
                        self.level = num(ONE);
                        self.stage = AdsrStage::Decay;
                    }
                }
            },
            AdsrStage::Decay => {
                if !gate_high {
                    self.enter_release(fpu);
                } else {
                    self.level = fpu.sub(self.level, self.decay_inc);
                    if self.level.at_most(self.sustain) {
                        self.level = self.sustain;
                        self.stage = AdsrStage::Sustain;
                    }
                }
            },
            AdsrStage::Sustain => {
                self.level = self.sustain;
                if !gate_high {
                    self.enter_release(fpu);
                }
            },
            AdsrStage::Release => {
                self.level = fpu.sub(self.level, self.release_inc);
                if self.level.at_most(num(ZERO)) {
                    self.level = num(ZERO);
                    self.stage = AdsrStage::Idle;
                }
            },
        }
    }

    pub open spec fn exponential_next<A: Fn(Op, Plain, Plain) -> Plain>(
        self,
        fpu: &Fpu<A>,
        gate_high: bool,
    ) -> Self {
        match self.stage {
            AdsrStage::Idle => self,
            AdsrStage::Attack if !gate_high => self.released(fpu),
            AdsrStage::Attack => self.rising(
                fpu.add(self.level, fpu.mul(self.attack_k, fpu.sub(num(F1_2), self.level))),
            ),
            AdsrStage::Decay if !gate_high => self.released(fpu),
            AdsrStage::Decay => self.settling(
                fpu.add(self.level, fpu.mul(self.decay_k, fpu.sub(self.sustain, self.level))),
                fpu.add(self.sustain, num(F0_0001)),
            ),
            AdsrStage::Sustain if !gate_high => AdsrCore { level: self.sustain, ..self }.released(fpu),
            AdsrStage::Sustain => AdsrCore { level: self.sustain, ..self },
            AdsrStage::Release => self.falling(
                fpu.add(self.level, fpu.mul(self.release_k, fpu.sub(num(ZERO), self.level))),
                num(F0_0001),
            ),
        }
    }

    /// One sample of the exponential shape.
    fn tick_exponential<A: Fn(Op, Plain, Plain) -> Plain>(
        &mut self,
        fpu: &Fpu<A>,
        gate_high: bool,
    )
        requires
            fpu.valid(),
        ensures
            *final(self) == old(self).exponential_next(fpu, gate_high),
    {
        match self.stage {
            AdsrStage::Idle => {},
            AdsrStage::Attack => {
                if !gate_high {
                    self.enter_release(fpu);
                } else {
                    self.level = fpu.add(
                        self.level,
                        fpu.mul(self.attack_k, fpu.sub(num(F1_2), self.level)),
                    );
                    if num(ONE).at_most(self.level) {
                        self.level = num(ONE);
                        self.stage = AdsrStage::Decay;
                    }
                }
            },
            AdsrStage::Decay => {
                if !gate_high {
                    self.enter_release(fpu);
                } else {
                    self.level = fpu.add(
                        self.level,
                        fpu.mul(self.decay_k, fpu.sub(self.sustain, self.level)),
                    );
                    if self.level.at_most(fpu.add(self.sustain, num(F0_0001))) {
                        self.level = self.sustain;
                        self.stage = AdsrStage::Sustain;
                    }
                }
            },
            AdsrStage::Sustain => {
                self.level = self.sustain;
                if !gate_high {
                    self.enter_release(fpu);
                }
            },
            AdsrStage::Release => {
                self.level = fpu.add(
                    self.level,
                    fpu.mul(self.release_k, fpu.sub(num(ZERO), self.level)),
                );
                if self.level.at_most(num(F0_0001)) {
                    self.level = num(ZERO);
                    self.stage = AdsrStage::Idle;
                }
            },
        }
    }

    /// The envelope one sample on.
    pub open spec fn ticked<A: Fn(Op, Plain, Plain) -> Plain>(
        self,
        fpu: &Fpu<A>,
        triggered: bool,
        gate_high: bool,
    ) -> Self {
        let from = if triggered {
            AdsrCore { stage: AdsrStage::Attack, ..self }
        } else {
            self
        };
        match self.shape {
            AdsrShape::Linear => from.linear_next(fpu, gate_high),
            AdsrShape::Exponential => from.exponential_next(fpu, gate_high),
        }
    }

    /// One sample. `triggered` fires on the rising-edge sample; `gate_high` stays
    /// true while the note is held. Returns the level clamped to `[0, 1]`.
    pub fn tick<A: Fn(Op, Plain, Plain) -> Plain>(
        &mut self,
        fpu: &Fpu<A>,
        triggered: bool,
        gate_high: bool,
    ) -> (r: Plain)
        requires
            fpu.valid(),
        ensures
            *final(self) == old(self).ticked(fpu, triggered, gate_high),
            r == final(self).level.clamp(num(ZERO), num(ONE)),
    {
        if triggered {
            self.stage = AdsrStage::Attack;
        }
        match self.shape {
            AdsrShape::Linear => self.tick_linear(fpu, gate_high),
            AdsrShape::Exponential => self.tick_exponential(fpu, gate_high),
        }
        self.level.clamp(num(ZERO), num(ONE))
    }

    /// A tick keeps an idle envelope silent.
    pub proof fn lemma_tick_keeps_wf<A: Fn(Op, Plain, Plain) -> Plain>(
        self,
        fpu: &Fpu<A>,
        triggered: bool,
        gate_high: bool,
    )
        requires
            self.wf(),
        ensures
            self.ticked(fpu, triggered, gate_high).wf(),
    {
    }

    /// The same times, sustain and shape at the same rate.
    pub open spec fn same_settings(self, o: AdsrCore) -> bool {
        &&& self.shape == o.shape
        &&& self.attack_inc == o.attack_inc && self.attack_k == o.attack_k
        &&& self.decay_inc == o.decay_inc && self.decay_k == o.decay_k
        &&& self.sustain == o.sustain
        &&& self.release_secs == o.release_secs
        &&& self.sample_rate == o.sample_rate
    }

    /// A tick leaves what the envelope is set to alone.
    pub proof fn lemma_tick_keeps_settings<A: Fn(Op, Plain, Plain) -> Plain>(
        self,
        fpu: &Fpu<A>,
        triggered: bool,
        gate_high: bool,
    )
        ensures
            self.ticked(fpu, triggered, gate_high).same_settings(self),
    {
    }

    /// A held envelope that has settled stays put: without a trigger a sustaining
    /// envelope reads its sustain level for as long as its gate is high.
    pub proof fn lemma_sustain_holds<A: Fn(Op, Plain, Plain) -> Plain>(self, fpu: &Fpu<A>)
        requires
            self.stage == AdsrStage::Sustain,
        ensures
            self.ticked(fpu, false, true) == (AdsrCore { level: self.sustain, ..self }),
    {
    }

    /// An idle envelope stays idle until it is triggered, whatever its gate does.
    pub proof fn lemma_idle_waits<A: Fn(Op, Plain, Plain) -> Plain>(
        self,
        fpu: &Fpu<A>,
        gate_high: bool,
    )
        requires
            self.stage == AdsrStage::Idle,
        ensures
            self.ticked(fpu, false, gate_high) == self,
    {
    }

    /// While its gate is high an envelope that is not releasing never goes idle,
    /// so a held voice is never freed.
    pub proof fn lemma_gate_holds_voice<A: Fn(Op, Plain, Plain) -> Plain>(
        self,
        fpu: &Fpu<A>,
        triggered: bool,
    )
        requires
            triggered || (self.stage != AdsrStage::Idle && self.stage != AdsrStage::Release),
        ensures
            ({
                let next = self.ticked(fpu, triggered, true).stage;
                next != AdsrStage::Idle && next != AdsrStage::Release
            }),
    {
    }

    /// When its gate falls an envelope leaves its held stages in one sample.
    pub proof fn lemma_gate_off_releases<A: Fn(Op, Plain, Plain) -> Plain>(self, fpu: &Fpu<A>)
        ensures
            ({
                let next = self.ticked(fpu, false, false).stage;
                next == AdsrStage::Idle || next == AdsrStage::Release
            }),
    {
    }
}

/// A linear attack climbs by its increment with every sample that the key is held, up to full
/// and no further, and then turns to the decay.
pub proof fn lemma_linear_attack<A: Fn(Op, Plain, Plain) -> Plain>(
    fpu: &Fpu<A>,
    e: AdsrCore,
    r: Plain,
)
    requires
        fpu.rounds(),
        e.shape == AdsrShape::Linear,
        e.level.is_finite() && e.attack_inc.is_finite(),
        r.is_number(),
        r.scaled() == e.level.scaled() + e.attack_inc.scaled(),
    ensures
        ({
            let next = e.ticked(fpu, true, true);
            &&& r.scaled() < plain::unit() ==> next.level.equals(r) && next.stage
                == AdsrStage::Attack
            &&& r.scaled() >= plain::unit() ==> next.level == num(ONE) && next.stage
                == AdsrStage::Decay
            &&& e.stage == AdsrStage::Attack ==> e.ticked(fpu, false, true) == next
        }),
{
    plain::lemma_small_values();
    fpu.lemma_add_side(e.level, e.attack_inc, r);
    plain::lemma_equal_scaled(num(ONE), r);
}

/// A linear decay falls by its increment with every sample that the key is held, down to the
/// sustain level and no further, and then stays there.
pub proof fn lemma_linear_decay<A: Fn(Op, Plain, Plain) -> Plain>(
    fpu: &Fpu<A>,
    e: AdsrCore,
    r: Plain,
)
    requires
        fpu.rounds(),
        e.shape == AdsrShape::Linear && e.stage == AdsrStage::Decay,
        e.level.is_finite() && e.decay_inc.is_finite() && e.sustain.is_finite(),
        r.is_number(),
        r.scaled() == e.level.scaled() - e.decay_inc.scaled(),
    ensures
        ({
            let next = e.ticked(fpu, false, true);
            &&& r.scaled() > e.sustain.scaled() ==> next.level.equals(r) && next.stage
                == AdsrStage::Decay
            &&& r.scaled() <= e.sustain.scaled() ==> next.level == e.sustain && next.stage
                == AdsrStage::Sustain
        }),
{
    fpu.lemma_sub_side(e.level, e.decay_inc, r);
    plain::lemma_equal_scaled(r, e.sustain);
}

/// A linear release falls by its increment with every sample, down to silence, where the
/// envelope goes idle.
pub proof fn lemma_linear_release<A: Fn(Op, Plain, Plain) -> Plain>(
    fpu: &Fpu<A>,
    e: AdsrCore,
    gate: bool,
    r: Plain,
)
    requires
        fpu.rounds(),
        e.shape == AdsrShape::Linear && e.stage == AdsrStage::Release,
        e.level.is_finite() && e.release_inc.is_finite(),
        r.is_number(),
        r.scaled() == e.level.scaled() - e.release_inc.scaled(),
    ensures
        ({
            let next = e.ticked(fpu, false, gate);
            &&& r.scaled() > 0 ==> next.level.equals(r) && next.stage == AdsrStage::Release
            &&& r.scaled() <= 0 ==> next.level == num(ZERO) && next.stage == AdsrStage::Idle
        }),
{
    plain::lemma_small_values();
    fpu.lemma_sub_side(e.level, e.release_inc, r);
    plain::lemma_equal_scaled(r, num(ZERO));
}

/// The release starts from the level that the envelope has: the step is that level over the
/// samples of the release time, wherever it is a number.
pub proof fn lemma_release_from_the_level<A: Fn(Op, Plain, Plain) -> Plain>(
    fpu: &Fpu<A>,
    e: AdsrCore,
    step: Plain,
    r: Plain,
)
    requires
        fpu.rounds(),
        e.shape == AdsrShape::Linear,
        e.stage == AdsrStage::Attack || e.stage == AdsrStage::Decay,
        e.level.is_finite(),
        fpu.mul(e.release_secs, e.sample_rate).is_finite(),
        fpu.mul(e.release_secs, e.sample_rate).scaled() > 0,
        step.is_number() && r.is_number(),
        step.scaled() * fpu.mul(e.release_secs, e.sample_rate).scaled() == e.level.scaled()
            * plain::unit(),
        r.scaled() == e.level.scaled() - step.scaled(),
    ensures
        ({
            let next = e.ticked(fpu, false, false);
            &&& next.release_inc.equals(step)
            &&& r.scaled() > 0 ==> next.level.equals(r) && next.stage == AdsrStage::Release
            &&& r.scaled() <= 0 ==> next.level == num(ZERO) && next.stage == AdsrStage::Idle
        }),
{
    plain::lemma_small_values();
    let samples = fpu.mul(e.release_secs, e.sample_rate);
    fpu.lemma_div_side(e.level, samples, step);
    let inc = fpu.div(e.level, samples);
    plain::lemma_equal_scaled(inc, step);
    fpu.lemma_sub_side(e.level, inc, r);
    plain::lemma_equal_scaled(r, num(ZERO));
}

/// An exponential attack never falls, a decay from above the sustain never rises nor passes
/// under it, and a release never rises.
pub proof fn lemma_exponential_directions<A: Fn(Op, Plain, Plain) -> Plain>(
    fpu: &Fpu<A>,
    e: AdsrCore,
    gate: bool,
)
    requires
        fpu.rounds(),
        e.shape == AdsrShape::Exponential,
        e.level.is_number() && 0 <= e.level.scaled() <= plain::unit(),
        e.sustain.is_finite() && 0 <= e.sustain.scaled() <= e.level.scaled(),
        e.attack_k.is_finite() && 0 <= e.attack_k.scaled() <= plain::unit(),
        e.decay_k.is_finite() && 0 <= e.decay_k.scaled() <= plain::unit(),
        e.release_k.is_finite() && 0 <= e.release_k.scaled() <= plain::unit(),
    ensures
        e.stage == AdsrStage::Attack ==> e.level.at_most(e.ticked(fpu, false, true).level),
        e.stage == AdsrStage::Decay ==> {
            let next = e.ticked(fpu, false, true);
            &&& next.level.at_most(e.level)
            &&& next.stage == AdsrStage::Sustain ==> next.level == e.sustain
        },
        e.stage == AdsrStage::Release ==> e.ticked(fpu, false, gate).level.at_most(e.level),
{
    plain::lemma_small_values();
    let u = plain::unit();
    let l = e.level.scaled();
    plain::lemma_equal_scaled(e.level, num(ONE));
    plain::lemma_equal_scaled(num(ONE), num(F1_2));
    plain::lemma_equal_scaled(num(F1_2), num(TWO));
    plain::lemma_equal_scaled(num(ZERO), e.level);
    plain::lemma_equal_scaled(e.sustain, e.level);
    // Up toward a target above full.
    let up = fpu.sub(num(F1_2), e.level);
    fpu.lemma_sub_side(num(F1_2), e.level, num(ZERO));
    fpu.lemma_sub_side(num(F1_2), e.level, num(TWO));
    plain::lemma_between_finite(num(ZERO), up, num(TWO));
    lemma_share_sign(fpu, e.attack_k, up, num(TWO));
    fpu.lemma_add_side(e.level, fpu.mul(e.attack_k, up), e.level);
    // Down toward the sustain.
    let down = fpu.sub(e.sustain, e.level);
    fpu.lemma_sub_side(e.sustain, e.level, num(ZERO));
    fpu.lemma_sub_side(e.sustain, e.level, num(MINUS_ONE));
    plain::lemma_between_finite(num(MINUS_ONE), down, num(ZERO));
    lemma_share_sign(fpu, e.decay_k, down, num(TWO));
    fpu.lemma_add_side(e.level, fpu.mul(e.decay_k, down), e.level);
    // Down toward silence.
    let off = fpu.sub(num(ZERO), e.level);
    fpu.lemma_sub_side(num(ZERO), e.level, num(ZERO));
    fpu.lemma_sub_side(num(ZERO), e.level, num(MINUS_ONE));
    plain::lemma_between_finite(num(MINUS_ONE), off, num(ZERO));
    lemma_share_sign(fpu, e.release_k, off, num(TWO));
    fpu.lemma_add_side(e.level, fpu.mul(e.release_k, off), e.level);
}

/// A share of a way has its direction.
proof fn lemma_share_sign<A: Fn(Op, Plain, Plain) -> Plain>(
    fpu: &Fpu<A>,
    k: Plain,
    way: Plain,
    most: Plain,
)
    requires
        fpu.rounds(),
        k.is_finite() && 0 <= k.scaled() <= plain::unit(),
        way.is_finite() && most.is_number(),
        -most.scaled() <= way.scaled() <= most.scaled(),
    ensures
        fpu.mul(k, way).is_finite(),
        way.scaled() >= 0 ==> fpu.mul(k, way).scaled() >= 0,
        way.scaled() <= 0 ==> fpu.mul(k, way).scaled() <= 0,
{
    plain::lemma_small_values();
    let (u, s, w, m) = (plain::unit(), k.scaled(), way.scaled(), most.scaled());
    assert(u * m == m * u && 0 * u == 0) by (nonlinear_arith);
    assert((w >= 0 ==> s * w >= 0) && (w <= 0 ==> s * w <= 0)) by (nonlinear_arith)
        requires
            s >= 0,
    ;
    fpu.lemma_mul_within(k, way, u, m, most);
    fpu.lemma_mul_side(k, way, num(ZERO));
    plain::lemma_equal_scaled(num(ZERO), fpu.mul(k, way));
}

/// A longer attack climbs by less, a longer decay falls by less, and a time shorter than the
/// shortest is taken as that. The step of the attack is one over its samples, and that of the
/// decay the way down to the sustain over its own, wherever they are numbers.
pub proof fn lemma_longer_is_slower<A: Fn(Op, Plain, Plain) -> Plain>(
    fpu: &Fpu<A>,
    e: AdsrCore,
    short: Plain,
    long: Plain,
    sustain: Plain,
    release: Plain,
    r: Plain,
    d: Plain,
)
    requires
        fpu.rounds(),
        short.is_finite() && long.is_finite() && e.sample_rate.is_finite(),
        num(F0_0001).at_most(short) && short.at_most(long),
        sustain.is_finite() && 0 <= sustain.scaled() <= plain::unit(),
        e.sample_rate.scaled() > 0,
        fpu.mul(short, e.sample_rate).is_finite() && fpu.mul(short, e.sample_rate).scaled() > 0,
        fpu.mul(long, e.sample_rate).is_finite(),
        r.is_number() && d.is_number(),
    ensures
        ({
            let a = e.with_params(fpu, short, short, sustain, release);
            let b = e.with_params(fpu, long, long, sustain, release);
            let n = fpu.mul(short, e.sample_rate).scaled();
            &&& b.attack_inc.at_most(a.attack_inc)
            &&& b.decay_inc.at_most(a.decay_inc)
            &&& a.sustain == sustain && a.level == e.level && a.stage == e.stage
            &&& r.scaled() * n == plain::unit() * plain::unit() ==> a.attack_inc.equals(r)
            &&& d.scaled() * n == fpu.sub(num(ONE), sustain).scaled() * plain::unit()
                ==> a.decay_inc.equals(d)
            &&& num(F0_0001).at_most(release) ==> a.release_secs == release
        }),
{
    plain::lemma_small_values();
    let (p, q) = (fpu.mul(short, e.sample_rate), fpu.mul(long, e.sample_rate));
    fpu.lemma_scaling_rises(short, long, e.sample_rate);
    plain::lemma_equal_scaled(p, q);
    let u = plain::unit();
    let way = fpu.sub(num(ONE), sustain);
    fpu.lemma_sub_side(num(ONE), sustain, num(ZERO));
    fpu.lemma_sub_side(num(ONE), sustain, num(ONE));
    plain::lemma_between_finite(num(ZERO), way, num(ONE));
    let (w, s, t) = (way.scaled(), p.scaled(), q.scaled());
    assert(w * s <= w * t && u * s <= u * t) by (nonlinear_arith)
        requires
            0 <= w,
            s <= t,
            u > 0,
    ;
    fpu.lemma_div_order(num(ONE), q, num(ONE), p);
    fpu.lemma_div_order(way, q, way, p);
    fpu.lemma_div_side(num(ONE), p, r);
    fpu.lemma_div_side(way, p, d);
}

/// The coefficient of an exponential segment lies in `[0, 1]` and is smaller for a longer time,
/// so long as the unit keeps the order of the two exponentials.
pub proof fn lemma_longer_segment_moves_less<A: Fn(Op, Plain, Plain) -> Plain>(
    fpu: &Fpu<A>,
    short: Plain,
    long: Plain,
    sample_rate: Plain,
)
    requires
        fpu.rounds(),
        short.is_finite() && long.is_finite() && sample_rate.is_finite(),
        short.at_most(long) && sample_rate.scaled() >= 0,
        fpu.mul(short, sample_rate).is_finite() && fpu.mul(long, sample_rate).is_finite(),
        ({
            let (m, n) = (
                fpu.mul(short, sample_rate).max(num(ONE)),
                fpu.mul(long, sample_rate).max(num(ONE)),
            );
            let (a, b) = (fpu.div(num(MINUS_F5), m), fpu.div(num(MINUS_F5), n));
            &&& fpu.exp(a).is_finite() && fpu.exp(b).is_finite()
            &&& a.at_most(b) ==> fpu.exp(a).at_most(fpu.exp(b))
        }),
    ensures
        exp_k(fpu, long, sample_rate).at_most(exp_k(fpu, short, sample_rate)),
        num(ZERO).at_most(exp_k(fpu, long, sample_rate)),
        exp_k(fpu, short, sample_rate).at_most(num(ONE)),
{
    plain::lemma_small_values();
    let u = plain::unit();
    let (m, n) = (
        fpu.mul(short, sample_rate).max(num(ONE)),
        fpu.mul(long, sample_rate).max(num(ONE)),
    );
    fpu.lemma_scaling_rises(short, long, sample_rate);
    plain::lemma_equal_scaled(m, n);
    plain::lemma_equal_scaled(num(ONE), m);
    plain::lemma_neg_scaled(num(F5));
    assert(num(MINUS_F5) == num(F5).neg());
    let (s, t, f) = (m.scaled(), n.scaled(), num(MINUS_F5).scaled());
    assert(f * t <= f * s) by (nonlinear_arith)
        requires
            f <= 0,
            s <= t,
    ;
    fpu.lemma_div_order(num(MINUS_F5), m, num(MINUS_F5), n);
    let (a, b) = (fpu.div(num(MINUS_F5), m), fpu.div(num(MINUS_F5), n));
    plain::lemma_equal_scaled(fpu.exp(a), fpu.exp(b));
    fpu.lemma_sub_order(num(ONE), fpu.exp(b), num(ONE), fpu.exp(a));
}

} // verus!
