//! A processing thread's mirror of the parameter store, between the engine, the host and
//! the editor.
use crate::params::{self, desc_for_clap_id, param_ref, ParamRef, TOTAL_PARAMS};
use crate::plain::Plain;
use crate::shared::{self, SharedParams};
use crate::values::ParamValues;
use vstd::prelude::*;

verus! {

broadcast use crate::plain::group_by_rank;

/// What is told to the host about an edit.
#[derive(Clone, Copy, Debug, PartialEq, Eq, Structural)]
pub enum EditEvent {
    Begin { id: usize, time: u32 },
    Value { id: usize, time: u32, value: Plain },
    End { id: usize, time: u32 },
}

/// The values and flags of one processing thread.
///
/// The store changes only through the editor or through [`Self::publish`], so what
/// [`Self::fetch_ui_changes`] finds there are the editor's changes alone.
pub struct LocalParams {
    /// Working values, authoritative for this thread.
    pub values: [Plain; TOTAL_PARAMS],
    /// The gestures last told to the host.
    pub gesture: [bool; TOTAL_PARAMS],
    /// Changed by the editor since the last [`Self::emit`].
    pub ui_changed: [bool; TOTAL_PARAMS],
    /// Changed by the host since the last [`Self::publish`]. Only these are written back,
    /// so that a write of the editor in between is never undone.
    pub host_changed: [bool; TOTAL_PARAMS],
}

pub open spec fn spec_differs(stored: Plain, mirrored: Plain) -> bool {
    !stored.equals(mirrored) && !(stored.is_nan() && mirrored.is_nan())
}

/// Whether the store holds another value than the mirror. All NaNs count as one value.
#[verifier::when_used_as_spec(spec_differs)]
pub fn differs(stored: Plain, mirrored: Plain) -> (r: bool)
    ensures
        r == differs(stored, mirrored),
{
    !stored.equals(mirrored) && !(stored.is_nan() && mirrored.is_nan())
}

/// What the host is told of one parameter: whether a gesture was held before (`prev`)
/// and is held now (`cur`), and the value if it changed. A value that changed without
/// a gesture is put into one of its own.
pub open spec fn edit_events(
    id: usize,
    prev: bool,
    cur: bool,
    changed: bool,
    value: Plain,
    end_time: u32,
) -> Seq<EditEvent> {
    let bare = changed && !cur && !prev;
    let begin = if (cur && !prev) || bare {
        seq![EditEvent::Begin { id, time: 0 }]
    } else {
        Seq::empty()
    };
    let middle = if changed {
        seq![EditEvent::Value { id, time: 0, value }]
    } else {
        Seq::empty()
    };
    let end = if (!cur && prev) || bare {
        seq![EditEvent::End { id, time: end_time }]
    } else {
        Seq::empty()
    };
    begin + middle + end
}

/// What the host is told of the first `n` parameters.
pub open spec fn all_edit_events(
    prev: Seq<bool>,
    cur: Seq<bool>,
    changed: Seq<bool>,
    values: Seq<Plain>,
    end_time: u32,
    n: nat,
) -> Seq<EditEvent>
    decreases n,
{
    if n == 0 {
        Seq::empty()
    } else {
        let i = n - 1;
        all_edit_events(prev, cur, changed, values, end_time, i as nat) + edit_events(
            i as usize,
            prev[i],
            cur[i],
            changed[i],
            values[i],
            end_time,
        )
    }
}

/// The gestures opened less those closed in a run of events.
pub open spec fn gesture_balance(events: Seq<EditEvent>) -> int
    decreases events.len(),
{
    if events.len() == 0 {
        0
    } else {
        gesture_balance(events.drop_last()) + match events.last() {
            EditEvent::Begin { .. } => 1int,
            EditEvent::Value { .. } => 0,
            EditEvent::End { .. } => -1,
        }
    }
}

/// What the host is told keeps its gestures in step with the editor's: over the events
/// of one parameter the balance moves from the gesture held before to the one held now.
pub proof fn lemma_gestures_balance(
    id: usize,
    prev: bool,
    cur: bool,
    changed: bool,
    value: Plain,
    end_time: u32,
)
    ensures
        gesture_balance(edit_events(id, prev, cur, changed, value, end_time)) == (if cur {
            1int
        } else {
            0
        }) - (if prev {
            1int
        } else {
            0
        }),
{
    let e = edit_events(id, prev, cur, changed, value, end_time);
    reveal_with_fuel(gesture_balance, 5);
    assert(e.len() <= 3);
    if e.len() > 0 {
        assert(e.drop_last().len() == e.len() - 1);
        if e.len() > 1 {
            assert(e.drop_last().last() == e[e.len() - 2]);
            if e.len() > 2 {
                assert(e.drop_last().drop_last().last() == e[0]);
            }
        }
    }
}

/// A value is only ever told inside a gesture: one that was held already, or one begun
/// just before it.
pub proof fn lemma_values_are_bracketed(
    id: usize,
    prev: bool,
    cur: bool,
    changed: bool,
    value: Plain,
    end_time: u32,
    k: int,
)
    requires
        0 <= k < edit_events(id, prev, cur, changed, value, end_time).len(),
        edit_events(id, prev, cur, changed, value, end_time)[k] is Value,
    ensures
        prev || (k == 1 && edit_events(id, prev, cur, changed, value, end_time)[0] is Begin),
{
}

/// Nothing is told of a parameter that neither changed nor changed its gesture.
pub proof fn lemma_quiet_params_are_silent(
    id: usize,
    held: bool,
    value: Plain,
    end_time: u32,
)
    ensures
        edit_events(id, held, held, false, value, end_time) == Seq::<EditEvent>::empty(),
{
}

impl LocalParams {
    pub fn new(shared: &SharedParams) -> (r: Self)
        ensures
            r.values@ == shared.values@,
            forall|i: int| 0 <= i < TOTAL_PARAMS ==> !#[trigger] r.gesture@[i],
            forall|i: int| 0 <= i < TOTAL_PARAMS ==> !#[trigger] r.ui_changed@[i],
            forall|i: int| 0 <= i < TOTAL_PARAMS ==> !#[trigger] r.host_changed@[i],
    {
        let mut r = LocalParams {
            values: shared.values,
            gesture: [false;TOTAL_PARAMS],
            ui_changed: [false;TOTAL_PARAMS],
            host_changed: [false;TOTAL_PARAMS],
        };
        for i in 0..TOTAL_PARAMS
            invariant
                r.values == shared.values,
                forall|j: int| 0 <= j < i ==> !#[trigger] r.gesture@[j],
                forall|j: int| 0 <= j < i ==> !#[trigger] r.ui_changed@[j],
                forall|j: int| 0 <= j < i ==> !#[trigger] r.host_changed@[j],
        {
            r.gesture[i] = false;
            r.ui_changed[i] = false;
            r.host_changed[i] = false;
        }
        r
    }

    /// The editor's writes taken over from the store and flagged.
    pub open spec fn is_fetch(pre: &LocalParams, post: &LocalParams, store: &SharedParams) -> bool {
        &&& forall|i: int|
            0 <= i < TOTAL_PARAMS ==> #[trigger] post.values@[i] == (if differs(
                store.values@[i],
                pre.values@[i],
            ) {
                store.values@[i]
            } else {
                pre.values@[i]
            })
        &&& forall|i: int|
            0 <= i < TOTAL_PARAMS ==> #[trigger] post.ui_changed@[i] == (pre.ui_changed@[i]
                || differs(store.values@[i], pre.values@[i]))
        &&& post.gesture == pre.gesture
        &&& post.host_changed == pre.host_changed
    }

    /// A host value taken in, clamped to its range as the store will hold it, and flagged;
    /// nothing for an id that stands for nothing.
    pub open spec fn is_input(
        pre: &LocalParams,
        post: &LocalParams,
        id: usize,
        value: Plain,
    ) -> bool {
        &&& id < TOTAL_PARAMS ==> {
            &&& post.values@ == pre.values@.update(
                id as int,
                shared::desc_at(id as int).clamp(value),
            )
            &&& post.host_changed@ == pre.host_changed@.update(id as int, true)
        }
        &&& id >= TOTAL_PARAMS ==> {
            &&& post.values == pre.values
            &&& post.host_changed == pre.host_changed
        }
        &&& post.gesture == pre.gesture
        &&& post.ui_changed == pre.ui_changed
    }

    /// The host's flagged changes written to the store (`before` to `after`), and the flags
    /// taken down.
    pub open spec fn is_publish(
        pre: &LocalParams,
        post: &LocalParams,
        before: &SharedParams,
        after: &SharedParams,
    ) -> bool {
        &&& forall|i: int|
            0 <= i < TOTAL_PARAMS ==> #[trigger] after.values@[i] == (if pre.host_changed@[i] {
                shared::desc_at(i).clamp(pre.values@[i])
            } else {
                before.values@[i]
            })
        &&& after.same_setup(before)
        &&& forall|i: int| 0 <= i < TOTAL_PARAMS ==> !#[trigger] post.host_changed@[i]
        &&& post.values == pre.values
        &&& post.gesture == pre.gesture
        &&& post.ui_changed == pre.ui_changed
    }

    /// Take the editor's writes over from the store, flagged to be told to the host.
    /// Returns whether there were any.
    pub fn fetch_ui_changes(&mut self, shared: &SharedParams) -> (r: bool)
        ensures
            LocalParams::is_fetch(old(self), final(self), shared),
            r == exists|i: int|
                0 <= i < TOTAL_PARAMS && #[trigger] differs(
                    shared.values@[i],
                    old(self).values@[i],
                ),
    {
        let mut any: bool = false;
        for i in 0..TOTAL_PARAMS
            invariant
                self.gesture == old(self).gesture,
                self.host_changed == old(self).host_changed,
                forall|j: int|
                    0 <= j < i ==> #[trigger] self.values@[j] == (if differs(
                        shared.values@[j],
                        old(self).values@[j],
                    ) {
                        shared.values@[j]
                    } else {
                        old(self).values@[j]
                    }),
                forall|j: int|
                    0 <= j < i ==> #[trigger] self.ui_changed@[j] == (old(self).ui_changed@[j]
                        || differs(shared.values@[j], old(self).values@[j])),
                forall|j: int|
                    i <= j < TOTAL_PARAMS ==> #[trigger] self.values@[j] == old(self).values@[j],
                forall|j: int|
                    i <= j < TOTAL_PARAMS ==> #[trigger] self.ui_changed@[j] == old(
                        self,
                    ).ui_changed@[j],
                any == exists|j: int|
                    0 <= j < i && #[trigger] differs(shared.values@[j], old(self).values@[j]),
        {
            let sv = shared.values[i];
            assert(differs(sv, self.values@[i as int]) == differs(
                shared.values@[i as int],
                old(self).values@[i as int],
            ));
            if differs(sv, self.values[i]) {
                self.values[i] = sv;
                self.ui_changed[i] = true;
                any = true;
            }
        }
        any
    }

    /// Take a host value into the mirror, clamped to its range. An id that stands for
    /// nothing is ignored.
    /// Returns what the engine is to be given. It is not told back to the host.
    pub fn apply_input(&mut self, id: usize, value: Plain) -> (r: Option<(usize, Plain)>)
        ensures
            r == (if id < TOTAL_PARAMS {
                Some((id, value))
            } else {
                None
            }),
            LocalParams::is_input(old(self), final(self), id, value),
    {
        proof {
            params::lemma_clap_ids_are_contiguous(id);
        }
        match desc_for_clap_id(id) {
            Some(d) => {
                self.values[id] = d.clamp(value);
                self.host_changed[id] = true;
                Some((id, value))
            },
            None => None,
        }
    }

    /// Copy the working values into a value set, each id to its place.
    pub fn write_to(&self, params: &mut ParamValues)
        ensures
            forall|p: ParamRef| #[trigger] final(params).at(p) == p.desc().clamp(
                self.values@[p.clap_id() as int],
            ),
            old(params).wf() ==> final(params).wf(),
    {
        for id in 0..TOTAL_PARAMS
            invariant
                forall|p: ParamRef| p.clap_id() < id ==> #[trigger] params.at(p) == p.desc().clamp(
                    self.values@[p.clap_id() as int],
                ),
                old(params).wf() ==> params.wf(),
        {
            let ghost before = *params;
            params.set_by_clap_id(id, self.values[id]);
            proof {
                params::lemma_clap_ids_are_contiguous(id);
                assert forall|p: ParamRef| p.clap_id() < id + 1 implies #[trigger] params.at(p)
                    == p.desc().clamp(self.values@[p.clap_id() as int]) by {
                    p.lemma_clap_id_inverts();
                    assert(before.at(p) == before.at(p));
                }
            }
        }
        proof {
            assert forall|p: ParamRef| #[trigger] params.at(p) == p.desc().clamp(
                self.values@[p.clap_id() as int],
            ) by {
                p.lemma_clap_id_inverts();
            }
        }
    }

    /// Write the host's changes to the store, once. Everything else there stays as the
    /// editor left it.
    pub fn publish(&mut self, shared: &mut SharedParams)
        ensures
            LocalParams::is_publish(old(self), final(self), old(shared), final(shared)),
            old(shared).wf() ==> final(shared).wf(),
    {
        for i in 0..TOTAL_PARAMS
            invariant
                forall|j: int|
                    0 <= j < i ==> #[trigger] shared.values@[j] == (if old(self).host_changed@[j] {
                        shared::desc_at(j).clamp(old(self).values@[j])
                    } else {
                        old(shared).values@[j]
                    }),
                forall|j: int|
                    i <= j < TOTAL_PARAMS ==> #[trigger] shared.values@[j] == old(
                        shared,
                    ).values@[j],
                forall|j: int| 0 <= j < i ==> !#[trigger] self.host_changed@[j],
                forall|j: int|
                    i <= j < TOTAL_PARAMS ==> #[trigger] self.host_changed@[j] == old(
                        self,
                    ).host_changed@[j],
                shared.same_setup(old(shared)),
                old(shared).wf() ==> shared.wf(),
                self.values == old(self).values,
                self.gesture == old(self).gesture,
                self.ui_changed == old(self).ui_changed,
        {
            if self.host_changed[i] {
                shared.set(i, self.values[i]);
                self.host_changed[i] = false;
            }
        }
    }

    /// What the host is to be told of the editor's changes since the last time, each in
    /// a gesture. `end_time` is the sample offset of a closing gesture.
    pub fn emit(&mut self, shared: &SharedParams, end_time: u32) -> (r: Vec<EditEvent>)
        ensures
            r@ == all_edit_events(
                old(self).gesture@,
                shared.gesture@,
                old(self).ui_changed@,
                old(self).values@,
                end_time,
                TOTAL_PARAMS as nat,
            ),
            final(self).gesture@ == shared.gesture@,
            forall|i: int| 0 <= i < TOTAL_PARAMS ==> !#[trigger] final(self).ui_changed@[i],
            final(self).values == old(self).values,
            final(self).host_changed == old(self).host_changed,
    {
        let mut out: Vec<EditEvent> = Vec::new();
        for i in 0..TOTAL_PARAMS
            invariant
                out@ == all_edit_events(
                    old(self).gesture@,
                    shared.gesture@,
                    old(self).ui_changed@,
                    old(self).values@,
                    end_time,
                    i as nat,
                ),
                forall|j: int| 0 <= j < i ==> #[trigger] self.gesture@[j] == shared.gesture@[j],
                forall|j: int|
                    i <= j < TOTAL_PARAMS ==> #[trigger] self.gesture@[j] == old(
                        self,
                    ).gesture@[j],
                forall|j: int| 0 <= j < i ==> !#[trigger] self.ui_changed@[j],
                forall|j: int|
                    i <= j < TOTAL_PARAMS ==> #[trigger] self.ui_changed@[j] == old(
                        self,
                    ).ui_changed@[j],
                self.values == old(self).values,
                self.host_changed == old(self).host_changed,
        {
            let prev: bool = self.gesture[i];
            let cur: bool = shared.gesture[i];
            self.gesture[i] = cur;
            let changed: bool = self.ui_changed[i];
            self.ui_changed[i] = false;
            let ghost before = out@;
            let bare: bool = changed && !cur && !prev;
            if (cur && !prev) || bare {
                out.push(EditEvent::Begin { id: i, time: 0 });
            }
            if changed {
                out.push(EditEvent::Value { id: i, time: 0, value: self.values[i] });
            }
            if (!cur && prev) || bare {
                out.push(EditEvent::End { id: i, time: end_time });
            }
            proof {
                assert(out@ =~= before + edit_events(
                    i,
                    prev,
                    cur,
                    changed,
                    old(self).values@[i as int],
                    end_time,
                ));
            }
        }
        assert(self.gesture@ =~= shared.gesture@);
        out
    }
}

/// Host automation is not told back to the host. Whatever value has been taken in and
/// published, the next fetch does not take it for an edit.
pub proof fn lemma_automation_is_not_echoed(
    start: &LocalParams,
    heard: &LocalParams,
    published: &LocalParams,
    fetched: &LocalParams,
    before: &SharedParams,
    after: &SharedParams,
    id: usize,
    value: Plain,
)
    requires
        id < TOTAL_PARAMS,
        LocalParams::is_input(start, heard, id, value),
        LocalParams::is_publish(heard, published, before, after),
        LocalParams::is_fetch(published, fetched, after),
    ensures
        after.values@[id as int] == shared::desc_at(id as int).clamp(value),
        fetched.values@[id as int] == after.values@[id as int],
        fetched.ui_changed@[id as int] == start.ui_changed@[id as int],
{
    params::lemma_clap_ids_are_contiguous(id);
    let p = param_ref(id)->0;
    p.lemma_desc_wf();
    let d = p.desc();
    assert(heard.host_changed@[id as int]);
    assert(heard.values@[id as int] == d.clamp(value));
    d.lemma_clamp_in_range(value);
    assert(after.values@[id as int] == d.clamp(value));
    assert(!differs(after.values@[id as int], published.values@[id as int]));
}

/// From a mirror that agrees with the store, a fetch after any number of host values and
/// one publish finds no edit.
pub proof fn lemma_agreement_survives_automation(
    heard: &LocalParams,
    published: &LocalParams,
    before: &SharedParams,
    after: &SharedParams,
)
    requires
        // what the host has not changed agrees with the store, and what it has is in range
        forall|i: int|
            0 <= i < TOTAL_PARAMS ==> if #[trigger] heard.host_changed@[i] {
                shared::desc_at(i).in_range(heard.values@[i])
            } else {
                !differs(before.values@[i], heard.values@[i])
            },
        LocalParams::is_publish(heard, published, before, after),
    ensures
        forall|i: int|
            0 <= i < TOTAL_PARAMS ==> !#[trigger] differs(after.values@[i], published.values@[i]),
{
    assert forall|i: int| 0 <= i < TOTAL_PARAMS implies !#[trigger] differs(
        after.values@[i],
        published.values@[i],
    ) by {
        if heard.host_changed@[i] {
            params::lemma_clap_ids_are_contiguous(i as usize);
            let p = param_ref(i as usize)->0;
            p.lemma_desc_wf();
            let d = p.desc();
            d.lemma_clamp_in_range(heard.values@[i]);
            assert(after.values@[i] == d.clamp(heard.values@[i]));
        }
    }
}

/// Publishing leaves alone every value that the host has not changed, so a write of the
/// editor is not undone by the mirror's older value.
pub proof fn lemma_editor_writes_survive(
    pre: &LocalParams,
    post: &LocalParams,
    before: &SharedParams,
    after: &SharedParams,
    id: int,
)
    requires
        0 <= id < TOTAL_PARAMS,
        LocalParams::is_publish(pre, post, before, after),
        !pre.host_changed@[id],
    ensures
        after.values@[id] == before.values@[id],
{
}

/// A second publish with nothing new from the host changes nothing, whatever the store
/// holds by then.
pub proof fn lemma_publishes_once(
    first: &LocalParams,
    second: &LocalParams,
    third: &LocalParams,
    a: &SharedParams,
    b: &SharedParams,
    c: &SharedParams,
    d: &SharedParams,
)
    requires
        LocalParams::is_publish(first, second, a, b),
        LocalParams::is_publish(second, third, c, d),
    ensures
        d.values@ == c.values@,
        d.same_setup(c),
{
    assert(d.values@ =~= c.values@);
}

/// What the editor wrote reaches the mirror and is flagged to be told to the host.
pub proof fn lemma_editor_writes_arrive(
    pre: &LocalParams,
    post: &LocalParams,
    store: &SharedParams,
    id: int,
)
    requires
        0 <= id < TOTAL_PARAMS,
        LocalParams::is_fetch(pre, post, store),
        differs(store.values@[id], pre.values@[id]),
    ensures
        post.values@[id] == store.values@[id],
        post.ui_changed@[id],
{
}

} // verus!
