//! A host's block: events in, samples and edits out.
use crate::buffers::{self, copy_into, fill_silence};
use crate::fpu::{Fpu, Op};
use crate::local::{self, EditEvent, LocalParams};
use crate::nums::{MINUS_ONE, ONE, ZERO};
use crate::params::{self, ParamRef, TOTAL_PARAMS};
use crate::plain::{num, Plain};
use crate::shared::{self, SharedParams};
use crate::shell::{self, midi_action, sample_range, InputEvent, MidiAction, SampleBound};
use crate::smoothing::Smoothed;
use crate::sync::DEFAULT_TEMPO_BPM;
use crate::synth::{self, LimiterStep, Synth};
use vstd::prelude::*;

verus! {

broadcast use crate::plain::group_by_rank;

/// Events that come before a range of samples.
pub struct Batch {
    pub events: Vec<InputEvent>,
    pub start: SampleBound,
    pub end: SampleBound,
}

/// A rendered range of samples, and what the master limiter has to do with it.
#[derive(Clone, Copy, Debug, PartialEq, Eq, Structural)]
pub struct Span {
    pub start: usize,
    pub end: usize,
    pub limiter: LimiterStep,
}

/// What a block of the host's comes to.
pub struct Outcome {
    /// How many samples of the buffers are the block's.
    pub frames: usize,
    /// What was rendered, in order.
    pub spans: Vec<Span>,
    /// What the host is to be told of the editor's changes.
    pub edits: Vec<EditEvent>,
}

/// One thing to do during a block.
pub enum Action {
    Hear(InputEvent),
    Render(usize, usize),
}

/// What changes during a block.
pub struct Moment {
    pub synth: Synth,
    pub local: LocalParams,
    pub l: Seq<Plain>,
    pub r: Seq<Plain>,
    pub spans: Seq<Span>,
}

/// A batch as a run of actions: its events, then its samples if there are any.
pub open spec fn batch_script(batch: Batch, frames: usize) -> Seq<Action> {
    let start = shell::start_of(batch.start, frames);
    let end = shell::end_of(batch.end, frames);
    let heard = Seq::new(batch.events@.len(), |i: int| Action::Hear(batch.events@[i]));
    if start < end {
        heard.push(Action::Render(start, end))
    } else {
        heard
    }
}

/// The first `k` batches as a run of actions.
pub open spec fn script(batches: Seq<Batch>, frames: usize, k: nat) -> Seq<Action>
    decreases k,
{
    if k == 0 {
        Seq::empty()
    } else {
        script(batches, frames, (k - 1) as nat) + batch_script(batches[k - 1], frames)
    }
}

/// The events in the first `k` batches.
pub open spec fn event_count(batches: Seq<Batch>, k: nat) -> nat
    decreases k,
{
    if k == 0 {
        0
    } else {
        event_count(batches, (k - 1) as nat) + batches[k - 1].events@.len()
    }
}

/// An event heard: notes go to the instrument, automation to the mirror and to the
/// instrument, and of raw MIDI the wheels are heard.
pub open spec fn is_heard<A: Fn(Op, Plain, Plain) -> Plain>(
    fpu: &Fpu<A>,
    synth: &Synth,
    local: &LocalParams,
    event: InputEvent,
    new_synth: &Synth,
    new_local: &LocalParams,
) -> bool {
    match event {
        InputEvent::NoteOn { key, velocity } => {
            &&& Synth::is_note_on(fpu, synth, new_synth, key, velocity)
            &&& *new_local == *local
        },
        InputEvent::NoteOff { key } => {
            &&& Synth::is_note_off(fpu, synth, new_synth, key)
            &&& *new_local == *local
        },
        InputEvent::Param { id, value } => if id < TOTAL_PARAMS {
            &&& Synth::is_param_set(synth, new_synth, id, value)
            &&& LocalParams::is_input(local, new_local, id, value)
        } else {
            *new_synth == *synth && *new_local == *local
        },
        InputEvent::Midi { status, d1, d2 } => {
            &&& *new_synth == (match midi_action(fpu, status, d1, d2) {
                MidiAction::Bend(x) => Synth {
                    bend_norm: x.clamp(num(MINUS_ONE), num(ONE)),
                    ..*synth
                },
                MidiAction::Wheel(x) => Synth {
                    mod_wheel: Smoothed {
                        target: x.clamp(num(ZERO), num(ONE)),
                        ..synth.mod_wheel
                    },
                    ..*synth
                },
                MidiAction::Nothing => *synth,
            })
            &&& *new_local == *local
        },
    }
}

/// One action done.
pub open spec fn is_step<A: Fn(Op, Plain, Plain) -> Plain>(
    fpu: &Fpu<A>,
    pre: Moment,
    action: Action,
    post: Moment,
) -> bool {
    match action {
        Action::Hear(event) => {
            &&& is_heard(fpu, &pre.synth, &pre.local, event, &post.synth, &post.local)
            &&& post.l == pre.l
            &&& post.r == pre.r
            &&& post.spans == pre.spans
        },
        Action::Render(start, end) => {
            &&& post.spans.len() == pre.spans.len() + 1
            &&& post.spans.drop_last() == pre.spans
            &&& post.spans.last().start == start
            &&& post.spans.last().end == end
            &&& Synth::is_rendering(
                fpu,
                &pre.synth,
                &post.synth,
                post.l.subrange(start as int, end as int),
                post.r.subrange(start as int, end as int),
                post.spans.last().limiter,
            )
            &&& post.local == pre.local
            &&& post.l.len() == pre.l.len()
            &&& post.r.len() == pre.r.len()
            &&& post.l.take(start as int) == pre.l.take(start as int)
            &&& post.r.take(start as int) == pre.r.take(start as int)
            &&& post.l.skip(end as int) == pre.l.skip(end as int)
            &&& post.r.skip(end as int) == pre.r.skip(end as int)
        },
    }
}

/// Step `k` of a run.
pub open spec fn step_at<A: Fn(Op, Plain, Plain) -> Plain>(
    fpu: &Fpu<A>,
    trace: Seq<Moment>,
    actions: Seq<Action>,
    k: int,
) -> bool {
    is_step(fpu, trace[k], actions[k], trace[k + 1])
}

/// A run of actions. `trace` is the state before the first and after each.
pub open spec fn is_run<A: Fn(Op, Plain, Plain) -> Plain>(
    fpu: &Fpu<A>,
    trace: Seq<Moment>,
    actions: Seq<Action>,
) -> bool {
    &&& trace.len() == actions.len() + 1
    &&& forall|k: int| 0 <= k < actions.len() ==> #[trigger] step_at(fpu, trace, actions, k)
}

/// A run goes on by one action.
proof fn lemma_run_goes_on<A: Fn(Op, Plain, Plain) -> Plain>(
    fpu: &Fpu<A>,
    trace: Seq<Moment>,
    actions: Seq<Action>,
    action: Action,
    post: Moment,
)
    requires
        is_run(fpu, trace, actions),
        is_step(fpu, trace.last(), action, post),
    ensures
        is_run(fpu, trace.push(post), actions.push(action)),
{
    let (t, a) = (trace.push(post), actions.push(action));
    assert forall|k: int| 0 <= k < a.len() implies #[trigger] step_at(fpu, t, a, k) by {
        if k < actions.len() {
            assert(step_at(fpu, trace, actions, k));
        }
    }
}

/// A processing thread: the instrument, its mirror of the parameters, and its buffers.
pub struct Processor {
    pub synth: Synth,
    pub local: LocalParams,
    pub scratch_l: Vec<Plain>,
    pub scratch_r: Vec<Plain>,
    pub span_l: Vec<Plain>,
    pub span_r: Vec<Plain>,
}

impl Processor {
    pub open spec fn wf<A: Fn(Op, Plain, Plain) -> Plain>(&self, fpu: &Fpu<A>) -> bool {
        &&& self.synth.wf(fpu)
        &&& self.scratch_l@.len() == self.scratch_r@.len()
        &&& self.scratch_l@.len() <= u32::MAX
    }

    /// The state at one moment of a block.
    pub open spec fn moment(&self, spans: Seq<Span>) -> Moment {
        Moment {
            synth: self.synth,
            local: self.local,
            l: self.scratch_l@,
            r: self.scratch_r@,
            spans,
        }
    }

    /// A thread for a sample rate and a largest block: a new instrument, and a mirror of the
    /// store with nothing to tell.
    pub fn new<A: Fn(Op, Plain, Plain) -> Plain>(
        fpu: &Fpu<A>,
        shared: &SharedParams,
        sample_rate: Plain,
        max_frames: u32,
    ) -> (r: Self)
        requires
            fpu.valid(),
            synth::runs_at(fpu, sample_rate),
        ensures
            r.wf(fpu),
            Synth::is_new(fpu, sample_rate, &r.synth),
            r.local.values@ == shared.values@,
            forall|i: int| 0 <= i < TOTAL_PARAMS ==> !#[trigger] r.local.gesture@[i],
            forall|i: int| 0 <= i < TOTAL_PARAMS ==> !#[trigger] r.local.ui_changed@[i],
            forall|i: int| 0 <= i < TOTAL_PARAMS ==> !#[trigger] r.local.host_changed@[i],
            r.scratch_l@ == buffers::zeros(max_frames as nat),
            r.scratch_r@ == buffers::zeros(max_frames as nat),
    {
        let max: usize = max_frames as usize;
        let mut scratch_l: Vec<Plain> = Vec::with_capacity(max);
        let mut scratch_r: Vec<Plain> = Vec::with_capacity(max);
        fill_silence(&mut scratch_l, max);
        fill_silence(&mut scratch_r, max);
        Processor {
            synth: Synth::new(fpu, sample_rate),
            local: LocalParams::new(shared),
            scratch_l,
            scratch_r,
            span_l: Vec::with_capacity(max),
            span_r: Vec::with_capacity(max),
        }
    }

    /// What a block starts from: the editor's changes taken over, the instrument set to the
    /// mirror, the keyboard set up, and the tempo taken if the host has one.
    pub open spec fn is_begun(
        pre: &Processor,
        shared: &SharedParams,
        tempo: Option<Plain>,
        post: &Processor,
    ) -> bool {
        &&& LocalParams::is_fetch(&pre.local, &post.local, shared)
        &&& forall|p: ParamRef| #[trigger] post.synth.params.at(p) == p.desc().clamp(
            post.local.values@[p.clap_id() as int],
        )
        &&& post.synth == (Synth {
            params: post.synth.params,
            key_mode: shared.key_mode,
            split_point: if shared.split_point < 127 {
                shared.split_point
            } else {
                127
            },
            tempo_bpm: match tempo {
                Some(bpm) => if bpm.is_finite() && num(ZERO).less(bpm) {
                    bpm
                } else {
                    num(DEFAULT_TEMPO_BPM)
                },
                None => pre.synth.tempo_bpm,
            },
            ..pre.synth
        })
        &&& post.scratch_l == pre.scratch_l
        &&& post.scratch_r == pre.scratch_r
    }

    /// Begin a block.
    pub fn begin<A: Fn(Op, Plain, Plain) -> Plain>(
        &mut self,
        fpu: &Fpu<A>,
        shared: &SharedParams,
        tempo: Option<Plain>,
    )
        requires
            old(self).wf(fpu),
        ensures
            final(self).wf(fpu),
            Processor::is_begun(old(self), shared, tempo, final(self)),
    {
        self.local.fetch_ui_changes(shared);
        self.local.write_to(&mut self.synth.params);
        self.synth.set_key_mode(shared.key_mode());
        self.synth.set_split_point(shared.split_point());
        if let Some(bpm) = tempo {
            self.synth.set_tempo(bpm);
        }
    }

    /// Hear one event.
    pub fn hear<A: Fn(Op, Plain, Plain) -> Plain>(&mut self, fpu: &Fpu<A>, event: InputEvent)
        requires
            fpu.valid(),
            old(self).wf(fpu),
            old(self).synth.alloc_counter <= u64::MAX - 2,
        ensures
            final(self).wf(fpu),
            is_heard(
                fpu,
                &old(self).synth,
                &old(self).local,
                event,
                &final(self).synth,
                &final(self).local,
            ),
            final(self).synth.alloc_counter <= old(self).synth.alloc_counter + 2,
            final(self).scratch_l == old(self).scratch_l,
            final(self).scratch_r == old(self).scratch_r,
    {
        match event {
            InputEvent::NoteOn { key, velocity } => self.synth.note_on(fpu, key, velocity),
            InputEvent::NoteOff { key } => self.synth.note_off(fpu, key),
            InputEvent::Param { id, value } => {
                if let Some((index, v)) = self.local.apply_input(id, value) {
                    self.synth.set_param(index, v);
                }
            },
            InputEvent::Midi { status, d1, d2 } => match midi_action(fpu, status, d1, d2) {
                MidiAction::Bend(x) => self.synth.set_pitch_bend(x),
                MidiAction::Wheel(x) => self.synth.set_mod_wheel(x),
                MidiAction::Nothing => {},
            },
        }
    }

    /// Render a range of samples.
    fn render<A: Fn(Op, Plain, Plain) -> Plain>(
        &mut self,
        fpu: &Fpu<A>,
        start: usize,
        end: usize,
    ) -> (r: Span)
        requires
            fpu.valid(),
            old(self).wf(fpu),
            start < end <= old(self).scratch_l@.len(),
        ensures
            final(self).wf(fpu),
            final(self).scratch_l@.len() == old(self).scratch_l@.len(),
            final(self).synth.alloc_counter == old(self).synth.alloc_counter,
            forall|spans: Seq<Span>|
                is_step(
                    fpu,
                    #[trigger] old(self).moment(spans),
                    Action::Render(start, end),
                    final(self).moment(spans.push(r)),
                ),
    {
        let n: usize = end - start;
        fill_silence(&mut self.span_l, n);
        fill_silence(&mut self.span_r, n);
        let limiter = self.synth.process(
            fpu,
            self.span_l.as_mut_slice(),
            self.span_r.as_mut_slice(),
        );
        copy_into(&self.span_l, self.scratch_l.as_mut_slice(), start);
        copy_into(&self.span_r, self.scratch_r.as_mut_slice(), start);
        let r = Span { start, end, limiter };
        proof {
            let (l0, r0) = (old(self).scratch_l@, old(self).scratch_r@);
            let (l1, r1) = (self.scratch_l@, self.scratch_r@);
            assert(self.span_l@.take(n as int) =~= self.span_l@);
            assert(self.span_r@.take(n as int) =~= self.span_r@);
            assert(l1.subrange(start as int, end as int) =~= self.span_l@);
            assert(r1.subrange(start as int, end as int) =~= self.span_r@);
            assert(l1.take(start as int) =~= l0.take(start as int));
            assert(r1.take(start as int) =~= r0.take(start as int));
            assert(l1.skip(end as int) =~= l0.skip(end as int));
            assert(r1.skip(end as int) =~= r0.skip(end as int));
            assert forall|spans: Seq<Span>| is_step(
                fpu,
                #[trigger] old(self).moment(spans),
                Action::Render(start, end),
                self.moment(spans.push(r)),
            ) by {
                assert(spans.push(r).drop_last() =~= spans);
            }
        }
        r
    }

    /// Hear every batch of events, and render the samples behind each.
    pub fn run<A: Fn(Op, Plain, Plain) -> Plain>(
        &mut self,
        fpu: &Fpu<A>,
        batches: &Vec<Batch>,
        frames: usize,
    ) -> (spans: Vec<Span>)
        requires
            fpu.valid(),
            old(self).wf(fpu),
            frames <= old(self).scratch_l@.len(),
            old(self).synth.alloc_counter + 2 * event_count(batches@, batches@.len()) <= u64::MAX,
        ensures
            final(self).wf(fpu),
            final(self).scratch_l@.len() == old(self).scratch_l@.len(),
            final(self).synth.alloc_counter <= old(self).synth.alloc_counter + 2 * event_count(
                batches@,
                batches@.len(),
            ),
            exists|trace: Seq<Moment>|
                {
                    &&& #[trigger] is_run(fpu, trace, script(batches@, frames, batches@.len()))
                    &&& trace.first() == old(self).moment(Seq::empty())
                    &&& trace.last() == final(self).moment(spans@)
                },
    {
        let mut spans: Vec<Span> = Vec::with_capacity(batches.len());
        let ghost mut trace: Seq<Moment> = seq![self.moment(Seq::empty())];
        let ghost mut done: Seq<Action> = Seq::empty();
        let count: usize = batches.len();
        let mut b: usize = 0;
        while b < count
            invariant
                fpu.valid(),
                self.wf(fpu),
                b <= count == batches@.len(),
                self.scratch_l@.len() == old(self).scratch_l@.len(),
                frames <= self.scratch_l@.len(),
                self.synth.alloc_counter + 2 * (event_count(batches@, count as nat) - event_count(
                    batches@,
                    b as nat,
                )) <= u64::MAX,
                self.synth.alloc_counter <= old(self).synth.alloc_counter + 2 * event_count(
                    batches@,
                    b as nat,
                ),
                done == script(batches@, frames, b as nat),
                is_run(fpu, trace, done),
                trace.first() == old(self).moment(Seq::empty()),
                trace.last() == self.moment(spans@),
            decreases count - b,
        {
            let batch = &batches[b];
            let n: usize = batch.events.len();
            let ghost base = done;
            let ghost heard = Seq::new(
                batch.events@.len(),
                |i: int| Action::Hear(batch.events@[i]),
            );
            proof {
                lemma_counts_grow(batches@, (b + 1) as nat, count as nat);
                assert(base + heard.take(0) =~= base);
            }
            let mut i: usize = 0;
            while i < n
                invariant
                    fpu.valid(),
                    self.wf(fpu),
                    i <= n == batch.events@.len(),
                    self.scratch_l@.len() == old(self).scratch_l@.len(),
                    heard == Seq::new(
                        batch.events@.len(),
                        |i: int| Action::Hear(batch.events@[i]),
                    ),
                    self.synth.alloc_counter + 2 * (event_count(batches@, count as nat)
                        - event_count(batches@, b as nat) - i) <= u64::MAX,
                    self.synth.alloc_counter <= old(self).synth.alloc_counter + 2 * (event_count(
                        batches@,
                        b as nat,
                    ) + i),
                    event_count(batches@, b as nat) + n <= event_count(batches@, count as nat),
                    done == base + heard.take(i as int),
                    is_run(fpu, trace, done),
                    trace.first() == old(self).moment(Seq::empty()),
                    trace.last() == self.moment(spans@),
                decreases n - i,
            {
                let event = batch.events[i];
                self.hear(fpu, event);
                proof {
                    let now = self.moment(spans@);
                    lemma_run_goes_on(fpu, trace, done, Action::Hear(event), now);
                    trace = trace.push(now);
                    done = done.push(Action::Hear(event));
                    assert(done =~= base + heard.take(i + 1));
                }
                i = i + 1;
            }
            let (start, end): (usize, usize) = sample_range(batch.start, batch.end, frames);
            proof {
                assert(heard.take(n as int) =~= heard);
            }
            if start < end {
                let ghost was = *self;
                let span = self.render(fpu, start, end);
                proof {
                    let now = self.moment(spans@.push(span));
                    assert(trace.last() == was.moment(spans@));
                    lemma_run_goes_on(fpu, trace, done, Action::Render(start, end), now);
                    trace = trace.push(now);
                    done = done.push(Action::Render(start, end));
                }
                spans.push(span);
            }
            proof {
                assert(done =~= base + batch_script(*batch, frames));
            }
            b = b + 1;
        }
        spans
    }

    /// Finish a block: the host's changes go to the store, and the editor's to the host.
    pub fn finish<A: Fn(Op, Plain, Plain) -> Plain>(
        &mut self,
        fpu: &Fpu<A>,
        shared: &mut SharedParams,
        end_time: u32,
    ) -> (edits: Vec<EditEvent>)
        requires
            old(self).wf(fpu),
        ensures
            final(self).wf(fpu),
            Processor::is_finished(
                &old(self).local,
                old(shared),
                end_time,
                &final(self).local,
                final(shared),
                edits@,
            ),
            final(self).synth == old(self).synth,
            final(self).scratch_l == old(self).scratch_l,
            final(self).scratch_r == old(self).scratch_r,
            old(shared).wf() ==> final(shared).wf(),
    {
        self.local.publish(shared);
        self.local.emit(shared, end_time)
    }

    /// What a block leaves behind in the mirror and in the store, and tells the host.
    pub open spec fn is_finished(
        mirror: &LocalParams,
        shared: &SharedParams,
        end_time: u32,
        new_mirror: &LocalParams,
        new_shared: &SharedParams,
        edits: Seq<EditEvent>,
    ) -> bool {
        &&& forall|i: int|
            0 <= i < TOTAL_PARAMS ==> #[trigger] new_shared.values@[i] == (
            if mirror.host_changed@[i] {
                shared::desc_at(i).clamp(mirror.values@[i])
            } else {
                shared.values@[i]
            })
        &&& new_shared.same_setup(shared)
        &&& edits == local::all_edit_events(
            mirror.gesture@,
            shared.gesture@,
            mirror.ui_changed@,
            mirror.values@,
            end_time,
            TOTAL_PARAMS as nat,
        )
        &&& new_mirror.values == mirror.values
        &&& new_mirror.gesture@ == shared.gesture@
        &&& forall|i: int| 0 <= i < TOTAL_PARAMS ==> !#[trigger] new_mirror.ui_changed@[i]
        &&& forall|i: int| 0 <= i < TOTAL_PARAMS ==> !#[trigger] new_mirror.host_changed@[i]
    }

    /// The samples of a block of the host's that fit the buffers.
    pub open spec fn fitting(&self, out_frames: usize) -> usize {
        if out_frames < self.scratch_l@.len() {
            out_frames
        } else {
            self.scratch_l@.len() as usize
        }
    }

    /// A block of the host's: begin, hear and render every batch in order, finish.
    pub fn process<A: Fn(Op, Plain, Plain) -> Plain>(
        &mut self,
        fpu: &Fpu<A>,
        shared: &mut SharedParams,
        tempo: Option<Plain>,
        batches: &Vec<Batch>,
        out_frames: usize,
    ) -> (r: Outcome)
        requires
            fpu.valid(),
            old(self).wf(fpu),
            old(self).synth.alloc_counter + 2 * event_count(batches@, batches@.len()) <= u64::MAX,
        ensures
            final(self).wf(fpu),
            old(shared).wf() ==> final(shared).wf(),
            r.frames == old(self).fitting(out_frames),
            final(self).scratch_l@.len() == old(self).scratch_l@.len(),
            final(self).synth.alloc_counter <= old(self).synth.alloc_counter + 2 * event_count(
                batches@,
                batches@.len(),
            ),
            exists|begun: Processor, trace: Seq<Moment>|
                {
                    &&& #[trigger] Processor::is_begun(old(self), old(shared), tempo, &begun)
                    &&& #[trigger] is_run(
                        fpu,
                        trace,
                        script(batches@, r.frames, batches@.len()),
                    )
                    &&& trace.first() == begun.moment(Seq::empty())
                    &&& trace.last().synth == final(self).synth
                    &&& trace.last().l == final(self).scratch_l@
                    &&& trace.last().r == final(self).scratch_r@
                    &&& trace.last().spans == r.spans@
                    &&& Processor::is_finished(
                        &trace.last().local,
                        old(shared),
                        r.frames as u32,
                        &final(self).local,
                        final(shared),
                        r.edits@,
                    )
                },
    {
        self.begin(fpu, &*shared, tempo);
        let ghost begun = *self;
        let mut frames: usize = out_frames;
        if self.scratch_l.len() < frames {
            frames = self.scratch_l.len();
        }
        let spans = self.run(fpu, batches, frames);
        let ghost ran = *self;
        let ghost trace = choose|trace: Seq<Moment>|
            {
                &&& #[trigger] is_run(fpu, trace, script(batches@, frames, batches@.len()))
                &&& trace.first() == begun.moment(Seq::empty())
                &&& trace.last() == ran.moment(spans@)
            };
        let edits = self.finish(fpu, shared, frames as u32);
        proof {
            assert(Processor::is_begun(old(self), old(shared), tempo, &begun));
            assert(is_run(fpu, trace, script(batches@, frames, batches@.len())));
            assert(trace.last().local == ran.local);
            assert(trace.last().synth == self.synth);
            assert(trace.last().l == self.scratch_l@);
            assert(trace.last().r == self.scratch_r@);
            assert(trace.last().spans == spans@);
        }
        Outcome { frames, spans, edits }
    }

    /// Take in the host's changes outside of a block.
    pub fn flush<A: Fn(Op, Plain, Plain) -> Plain>(
        &mut self,
        fpu: &Fpu<A>,
        shared: &mut SharedParams,
        events: &Vec<InputEvent>,
    )
        requires
            old(self).wf(fpu),
        ensures
            final(self).wf(fpu),
            old(shared).wf() ==> final(shared).wf(),
            final(shared).same_setup(old(shared)),
            forall|i: int|
                0 <= i < TOTAL_PARAMS ==> #[trigger] final(self).local.values@[i] == last_set(
                    events@,
                    i,
                    old(self).local.values@[i],
                ),
            forall|i: int|
                0 <= i < TOTAL_PARAMS ==> #[trigger] final(shared).values@[i] == (if old(
                    self,
                ).local.host_changed@[i] || is_set(events@, i) {
                    shared::desc_at(i).clamp(final(self).local.values@[i])
                } else {
                    old(shared).values@[i]
                }),
            forall|p: ParamRef| #[trigger] final(self).synth.params.at(p) == (if is_set(
                events@,
                p.clap_id() as int,
            ) {
                p.desc().clamp(final(self).local.values@[p.clap_id() as int])
            } else {
                old(self).synth.params.at(p)
            }),
            final(self).synth == (Synth { params: final(self).synth.params, ..old(self).synth }),
            final(self).local.gesture == old(self).local.gesture,
            final(self).local.ui_changed == old(self).local.ui_changed,
            forall|i: int| 0 <= i < TOTAL_PARAMS ==> !#[trigger] final(self).local.host_changed@[i],
            final(self).scratch_l == old(self).scratch_l,
            final(self).scratch_r == old(self).scratch_r,
    {
        let n: usize = events.len();
        let mut i: usize = 0;
        proof {
            assert(events@.take(0) =~= Seq::empty());
        }
        while i < n
            invariant
                self.wf(fpu),
                i <= n == events@.len(),
                self.synth == (Synth { params: self.synth.params, ..old(self).synth }),
                self.local.gesture == old(self).local.gesture,
                self.local.ui_changed == old(self).local.ui_changed,
                self.scratch_l == old(self).scratch_l,
                self.scratch_r == old(self).scratch_r,
                forall|k: int|
                    0 <= k < TOTAL_PARAMS ==> #[trigger] self.local.values@[k] == last_set(
                        events@.take(i as int),
                        k,
                        old(self).local.values@[k],
                    ),
                forall|k: int|
                    0 <= k < TOTAL_PARAMS ==> #[trigger] self.local.host_changed@[k] == (old(
                        self,
                    ).local.host_changed@[k] || is_set(events@.take(i as int), k)),
                forall|p: ParamRef| #[trigger] self.synth.params.at(p) == (if is_set(
                    events@.take(i as int),
                    p.clap_id() as int,
                ) {
                    p.desc().clamp(self.local.values@[p.clap_id() as int])
                } else {
                    old(self).synth.params.at(p)
                }),
            decreases n - i,
        {
            let ghost before = *self;
            let ghost head = events@.take(i as int);
            let event = events[i];
            proof {
                assert(events@.take(i + 1) =~= head.push(event));
                assert(head.push(event).drop_last() =~= head);
            }
            if let InputEvent::Param { id, value } = event {
                if let Some((index, v)) = self.local.apply_input(id, value) {
                    self.synth.set_param(index, v);
                    proof {
                        params::lemma_clap_ids_are_contiguous(id);
                        let p = params::param_ref(id)->0;
                        p.lemma_desc_wf();
                        let d = p.desc();
                        d.lemma_clamp_in_range(value);
                        assert(self.local.values@[id as int] == d.clamp(value));
                    }
                }
            }
            proof {
                assert forall|p: ParamRef| #[trigger] self.synth.params.at(p) == (if is_set(
                    events@.take(i + 1),
                    p.clap_id() as int,
                ) {
                    p.desc().clamp(self.local.values@[p.clap_id() as int])
                } else {
                    old(self).synth.params.at(p)
                }) by {
                    p.lemma_clap_id_inverts();
                    assert(before.synth.params.at(p) == (if is_set(head, p.clap_id() as int) {
                        p.desc().clamp(before.local.values@[p.clap_id() as int])
                    } else {
                        old(self).synth.params.at(p)
                    }));
                }
            }
            i = i + 1;
        }
        proof {
            assert(events@.take(n as int) =~= events@);
        }
        self.local.publish(shared);
    }

    /// Silence the instrument.
    pub fn reset<A: Fn(Op, Plain, Plain) -> Plain>(&mut self, fpu: &Fpu<A>)
        requires
            old(self).wf(fpu),
        ensures
            final(self).wf(fpu),
            Synth::is_reset(&old(self).synth, &final(self).synth),
            final(self).local == old(self).local,
            final(self).scratch_l == old(self).scratch_l,
            final(self).scratch_r == old(self).scratch_r,
    {
        self.synth.reset(fpu);
    }
}

/// Whether any of the events sets a parameter.
pub open spec fn is_set(events: Seq<InputEvent>, id: int) -> bool
    decreases events.len(),
{
    if events.len() == 0 {
        false
    } else {
        (events.last() matches InputEvent::Param { id: at, .. } && at == id) || is_set(
            events.drop_last(),
            id,
        )
    }
}

/// The last value that the events give a parameter, clamped to its range, or the one it had.
pub open spec fn last_set(events: Seq<InputEvent>, id: int, had: Plain) -> Plain
    decreases events.len(),
{
    if events.len() == 0 {
        had
    } else {
        match events.last() {
            InputEvent::Param { id: at, value } => if at == id {
                shared::desc_at(id).clamp(value)
            } else {
                last_set(events.drop_last(), id, had)
            },
            _ => last_set(events.drop_last(), id, had),
        }
    }
}

/// More batches hold more events.
proof fn lemma_counts_grow(batches: Seq<Batch>, i: nat, j: nat)
    requires
        i <= j,
    ensures
        event_count(batches, i) <= event_count(batches, j),
    decreases j,
{
    if i < j {
        lemma_counts_grow(batches, i, (j - 1) as nat);
    }
}

/// The ranges that the first `k` actions render, in order.
pub open spec fn rendered_ranges(actions: Seq<Action>, k: nat) -> Seq<(usize, usize)>
    decreases k,
{
    if k == 0 {
        Seq::empty()
    } else {
        match actions[k - 1] {
            Action::Render(start, end) => rendered_ranges(actions, (k - 1) as nat).push(
                (start, end),
            ),
            Action::Hear(_) => rendered_ranges(actions, (k - 1) as nat),
        }
    }
}

/// The ranges of a run of spans.
pub open spec fn span_ranges(spans: Seq<Span>) -> Seq<(usize, usize)> {
    Seq::new(spans.len(), |i: int| (spans[i].start, spans[i].end))
}

/// A run keeps the sizes of the buffers, and its spans are what it rendered, in order.
pub proof fn lemma_run_reports_what_it_rendered<A: Fn(Op, Plain, Plain) -> Plain>(
    fpu: &Fpu<A>,
    trace: Seq<Moment>,
    actions: Seq<Action>,
    k: nat,
)
    requires
        is_run(fpu, trace, actions),
        k <= actions.len(),
    ensures
        trace[k as int].l.len() == trace[0].l.len(),
        trace[k as int].r.len() == trace[0].r.len(),
        span_ranges(trace[k as int].spans) == span_ranges(trace[0].spans) + rendered_ranges(
            actions,
            k,
        ),
    decreases k,
{
    let (first, last) = (trace[0].spans, trace[k as int].spans);
    if k > 0 {
        lemma_run_reports_what_it_rendered(fpu, trace, actions, (k - 1) as nat);
        assert(step_at(fpu, trace, actions, k - 1));
        let before = trace[k - 1].spans;
        match actions[k - 1] {
            Action::Render(start, end) => {
                assert(span_ranges(last).drop_last() =~= span_ranges(last.drop_last()));
                assert(span_ranges(last) =~= span_ranges(before).push((start, end)));
                assert(span_ranges(last) =~= span_ranges(first) + rendered_ranges(actions, k));
            },
            Action::Hear(_) => {},
        }
    } else {
        assert(span_ranges(first) + rendered_ranges(actions, 0) =~= span_ranges(first));
    }
}

/// A sample that no action of a run renders is left as it was.
pub proof fn lemma_run_writes_only_its_ranges<A: Fn(Op, Plain, Plain) -> Plain>(
    fpu: &Fpu<A>,
    trace: Seq<Moment>,
    actions: Seq<Action>,
    k: nat,
    i: int,
)
    requires
        is_run(fpu, trace, actions),
        k <= actions.len(),
        0 <= i < trace[0].l.len(),
        trace[0].l.len() == trace[0].r.len(),
        forall|j: int|
            0 <= j < actions.len() ==> match #[trigger] actions[j] {
                Action::Render(start, end) => {
                    start < end <= trace[0].l.len() && !(start <= i < end)
                },
                Action::Hear(_) => true,
            },
    ensures
        trace[k as int].l[i] == trace[0].l[i],
        trace[k as int].r[i] == trace[0].r[i],
    decreases k,
{
    if k > 0 {
        lemma_run_reports_what_it_rendered(fpu, trace, actions, (k - 1) as nat);
        lemma_run_writes_only_its_ranges(fpu, trace, actions, (k - 1) as nat, i);
        assert(step_at(fpu, trace, actions, k - 1));
        let (pre, post) = (trace[k - 1], trace[k as int]);
        match actions[k - 1] {
            Action::Render(start, end) => {
                if i < start {
                    assert(post.l.take(start as int)[i] == pre.l.take(start as int)[i]);
                    assert(post.r.take(start as int)[i] == pre.r.take(start as int)[i]);
                } else {
                    assert(post.l.skip(end as int)[i - end] == pre.l.skip(end as int)[i - end]);
                    assert(post.r.skip(end as int)[i - end] == pre.r.skip(end as int)[i - end]);
                }
            },
            Action::Hear(_) => {},
        }
    }
}

} // verus!
