//! The parameter store that the host, the editor and the engine share.
use crate::domain::{KeyMode, Layer, DEFAULT_SPLIT_POINT};
use crate::fpu::{Fpu, Op};
use crate::nums::ZERO;
use crate::params::{
    self, desc_for_clap_id, param_ref, patch_clap_id, ParamDesc, ParamRef, PatchParam, PATCH_COUNT,
    TOTAL_PARAMS,
};
use crate::plain::{num, Plain};
use crate::values::ParamValues;
use vstd::prelude::*;

verus! {

broadcast use crate::plain::group_by_rank;

/// What is saved of an instrument.
#[derive(Clone, Copy)]
pub struct PluginState {
    pub params: ParamValues,
    pub key_mode: KeyMode,
    pub split_point: u8,
}

/// The parameter store: every value by its id, the edit gestures in progress, and the
/// keyboard setup.
pub struct SharedParams {
    pub values: [Plain; TOTAL_PARAMS],
    /// Whether an edit gesture is held on each parameter.
    pub gesture: [bool; TOTAL_PARAMS],
    pub key_mode: KeyMode,
    /// Split point as a MIDI note.
    pub split_point: u8,
}

impl PluginState {
    /// Holds what is saved of a store.
    pub open spec fn saves(&self, store: &SharedParams) -> bool {
        &&& forall|p: ParamRef| #[trigger] self.params.at(p) == p.desc().clamp(
            store.values@[p.clap_id() as int],
        )
        &&& self.key_mode == store.key_mode
        &&& self.split_point == store.split_point
    }
}

/// The range of the parameter with an id.
pub open spec fn desc_at(id: int) -> ParamDesc {
    param_ref(id as usize)->0.desc()
}

impl SharedParams {
    /// Every value is in its parameter's range or a NaN, and the split point is a note.
    pub open spec fn wf(&self) -> bool {
        &&& forall|id: int|
            0 <= id < TOTAL_PARAMS ==> desc_at(id).in_range(#[trigger] self.values@[id])
        &&& self.split_point <= 127
    }

    /// Everything but the values.
    pub open spec fn same_setup(&self, other: &SharedParams) -> bool {
        &&& self.gesture == other.gesture
        &&& self.key_mode == other.key_mode
        &&& self.split_point == other.split_point
    }

    /// Holds what was saved.
    pub open spec fn restores(&self, state: &PluginState) -> bool {
        &&& forall|p: ParamRef| self.values@[p.clap_id() as int] == p.desc().clamp(
            #[trigger] state.params.at(p),
        )
        &&& self.key_mode == state.key_mode
        &&& self.split_point == (if state.split_point < 127 {
            state.split_point
        } else {
            127
        })
    }

    /// One value stored, clamped to its range; nothing for an id that stands for nothing.
    pub open spec fn is_set(
        pre: &SharedParams,
        post: &SharedParams,
        index: usize,
        value: Plain,
    ) -> bool {
        &&& index < TOTAL_PARAMS ==> post.values@ == pre.values@.update(
            index as int,
            desc_at(index as int).clamp(value),
        )
        &&& index >= TOTAL_PARAMS ==> post.values@ == pre.values@
        &&& post.same_setup(pre)
    }

    pub fn new() -> (r: Self)
        ensures
            r.wf(),
            forall|id: int|
                0 <= id < TOTAL_PARAMS ==> #[trigger] r.values@[id] == desc_at(id).default,
            forall|id: int| 0 <= id < TOTAL_PARAMS ==> !#[trigger] r.gesture@[id],
            r.key_mode == KeyMode::Whole,
            r.split_point == DEFAULT_SPLIT_POINT,
    {
        let mut r = SharedParams {
            values: [Plain { bits: ZERO };TOTAL_PARAMS],
            gesture: [false;TOTAL_PARAMS],
            key_mode: KeyMode::default(),
            split_point: DEFAULT_SPLIT_POINT,
        };
        for id in 0..TOTAL_PARAMS
            invariant
                forall|j: int|
                    0 <= j < id ==> #[trigger] r.values@[j] == desc_at(j).default && desc_at(
                        j,
                    ).in_range(r.values@[j]),
                forall|j: int| 0 <= j < id ==> !#[trigger] r.gesture@[j],
                r.key_mode == KeyMode::Whole,
                r.split_point == DEFAULT_SPLIT_POINT,
        {
            proof {
                params::lemma_clap_ids_are_contiguous(id);
            }
            r.gesture[id] = false;
            if let Some(d) = desc_for_clap_id(id) {
                r.values[id] = d.default;
            }
        }
        r
    }

    /// The value with an id.
    pub fn get(&self, index: usize) -> (r: Plain)
        requires
            index < TOTAL_PARAMS,
        ensures
            r == self.values@[index as int],
    {
        self.values[index]
    }

    /// Store a value, clamped to its range. An id that stands for nothing is ignored.
    pub fn set(&mut self, index: usize, value: Plain)
        ensures
            SharedParams::is_set(old(self), final(self), index, value),
            old(self).wf() ==> final(self).wf(),
    {
        proof {
            params::lemma_clap_ids_are_contiguous(index);
        }
        if let Some(d) = desc_for_clap_id(index) {
            proof {
                d.lemma_clamp_in_range(value);
            }
            self.values[index] = d.clamp(value);
        }
    }

    /// The value with an id as a place in its range, zero for an id that stands for
    /// nothing.
    pub fn get_normalized<A: Fn(Op, Plain, Plain) -> Plain>(
        &self,
        fpu: &Fpu<A>,
        index: usize,
    ) -> (r: Plain)
        requires
            fpu.valid(),
        ensures
            index < TOTAL_PARAMS ==> r == desc_at(index as int).to_normalized(
                fpu,
                self.values@[index as int],
            ),
            index >= TOTAL_PARAMS ==> r == num(ZERO),
    {
        match desc_for_clap_id(index) {
            Some(d) => d.to_normalized(fpu, self.values[index]),
            None => num(ZERO),
        }
    }

    /// Store the value at a place in the range.
    pub fn set_normalized<A: Fn(Op, Plain, Plain) -> Plain>(
        &mut self,
        fpu: &Fpu<A>,
        index: usize,
        n: Plain,
    )
        requires
            fpu.valid(),
        ensures
            index < TOTAL_PARAMS ==> final(self).values@ == old(self).values@.update(
                index as int,
                desc_at(index as int).clamp(desc_at(index as int).from_normalized(fpu, n)),
            ),
            index >= TOTAL_PARAMS ==> final(self).values@ == old(self).values@,
            final(self).same_setup(old(self)),
            old(self).wf() ==> final(self).wf(),
    {
        if let Some(d) = desc_for_clap_id(index) {
            self.set(index, d.from_normalized(fpu, n));
        }
    }

    pub fn gesture(&self, index: usize) -> (r: bool)
        requires
            index < TOTAL_PARAMS,
        ensures
            r == self.gesture@[index as int],
    {
        self.gesture[index]
    }

    /// Mark the start or the end of an edit gesture. An id that stands for nothing is
    /// ignored.
    pub fn set_gesture(&mut self, index: usize, active: bool)
        ensures
            index < TOTAL_PARAMS ==> final(self).gesture@ == old(self).gesture@.update(
                index as int,
                active,
            ),
            index >= TOTAL_PARAMS ==> final(self).gesture@ == old(self).gesture@,
            final(self).values == old(self).values,
            final(self).key_mode == old(self).key_mode,
            final(self).split_point == old(self).split_point,
    {
        if index < TOTAL_PARAMS {
            self.gesture[index] = active;
        }
    }

    pub fn key_mode(&self) -> (r: KeyMode)
        ensures
            r == self.key_mode,
    {
        self.key_mode
    }

    /// Set the key mode as it is, without seeding.
    pub fn set_key_mode(&mut self, mode: KeyMode)
        ensures
            *final(self) == (SharedParams { key_mode: mode, ..*old(self) }),
    {
        self.key_mode = mode;
    }

    /// The values with the lower patch a copy of the upper one.
    pub open spec fn seeded(values: Seq<Plain>) -> Seq<Plain> {
        Seq::new(
            TOTAL_PARAMS as nat,
            |id: int|
                if PATCH_COUNT <= id < 2 * PATCH_COUNT {
                    values[id - PATCH_COUNT]
                } else {
                    values[id]
                },
        )
    }

    /// Set the key mode from an edit: leaving the whole keyboard copies the upper patch
    /// to the lower one, so that they start out equal. Moving between the other modes
    /// copies nothing.
    pub fn set_key_mode_seeded(&mut self, mode: KeyMode)
        ensures
            final(self).values@ == (if old(self).key_mode == KeyMode::Whole && mode
                != KeyMode::Whole {
                SharedParams::seeded(old(self).values@)
            } else {
                old(self).values@
            }),
            final(self).key_mode == mode,
            final(self).gesture == old(self).gesture,
            final(self).split_point == old(self).split_point,
            old(self).wf() ==> final(self).wf(),
    {
        if self.key_mode == KeyMode::Whole && mode != KeyMode::Whole {
            self.seed_lower_from_upper();
        }
        self.set_key_mode(mode);
    }

    /// Copy every value of the upper patch to the lower one.
    fn seed_lower_from_upper(&mut self)
        ensures
            final(self).values@ == SharedParams::seeded(old(self).values@),
            final(self).same_setup(old(self)),
            old(self).wf() ==> final(self).wf(),
    {
        for p in 0..PATCH_COUNT
            invariant
                self.same_setup(old(self)),
                forall|id: int|
                    0 <= id < TOTAL_PARAMS ==> #[trigger] self.values@[id] == (if PATCH_COUNT <= id
                        < PATCH_COUNT + p {
                        old(self).values@[id - PATCH_COUNT]
                    } else {
                        old(self).values@[id]
                    }),
        {
            self.values[PATCH_COUNT + p] = self.values[p];
        }
        proof {
            assert(self.values@ =~= SharedParams::seeded(old(self).values@));
            if old(self).wf() {
                assert forall|id: int| 0 <= id < TOTAL_PARAMS implies desc_at(id).in_range(
                    #[trigger] self.values@[id],
                ) by {
                    if PATCH_COUNT <= id < 2 * PATCH_COUNT {
                        lemma_lower_desc(id);
                        assert(desc_at(id - PATCH_COUNT).in_range(
                            old(self).values@[id - PATCH_COUNT],
                        ));
                    } else {
                        assert(desc_at(id).in_range(old(self).values@[id]));
                    }
                }
            }
        }
    }

    pub fn split_point(&self) -> (r: u8)
        ensures
            r == self.split_point,
    {
        self.split_point
    }

    /// Set the split point, held to the highest MIDI note.
    pub fn set_split_point(&mut self, note: u8)
        ensures
            *final(self) == (SharedParams {
                split_point: if note < 127 {
                    note
                } else {
                    127
                },
                ..*old(self)
            }),
            old(self).wf() ==> final(self).wf(),
    {
        self.split_point = if note < 127 {
            note
        } else {
            127
        };
    }

    /// Copy the store into a value set, each id to its place.
    pub fn snapshot_into(&self, params: &mut ParamValues)
        ensures
            forall|p: ParamRef| #[trigger] final(params).at(p) == p.desc().clamp(
                self.values@[p.clap_id() as int],
            ),
            old(params).wf() ==> final(params).wf(),
    {
        for id in 0..TOTAL_PARAMS
            invariant
                forall|p: ParamRef| p.clap_id() < id ==> #[trigger] params.at(p) == p.desc().clamp(
                    self.values@[p.clap_id() as int],
                ),
                old(params).wf() ==> params.wf(),
        {
            let ghost before = *params;
            params.set_by_clap_id(id, self.values[id]);
            proof {
                params::lemma_clap_ids_are_contiguous(id);
                assert forall|p: ParamRef| p.clap_id() < id + 1 implies #[trigger] params.at(p)
                    == p.desc().clamp(self.values@[p.clap_id() as int]) by {
                    p.lemma_clap_id_inverts();
                    assert(before.at(p) == before.at(p));
                }
            }
        }
        proof {
            assert forall|p: ParamRef| #[trigger] params.at(p) == p.desc().clamp(
                self.values@[p.clap_id() as int],
            ) by {
                p.lemma_clap_id_inverts();
            }
        }
    }

    /// What is to be saved.
    pub fn to_state(&self) -> (r: PluginState)
        ensures
            r.saves(self),
            r.params.wf(),
    {
        let mut params = ParamValues::default();
        self.snapshot_into(&mut params);
        PluginState { params, key_mode: self.key_mode, split_point: self.split_point }
    }

    /// Take over what was saved. Gestures in progress stay.
    pub fn restore_from(&mut self, state: &PluginState)
        ensures
            final(self).restores(state),
            final(self).gesture == old(self).gesture,
            old(self).wf() ==> final(self).wf(),
    {
        for id in 0..TOTAL_PARAMS
            invariant
                self.same_setup(old(self)),
                forall|p: ParamRef| p.clap_id() < id ==> self.values@[p.clap_id() as int]
                    == p.desc().clamp(#[trigger] state.params.at(p)),
                old(self).wf() ==> self.wf(),
        {
            let ghost before = self.values@;
            self.set(id, state.params.get_by_clap_id(id));
            proof {
                params::lemma_clap_ids_are_contiguous(id);
                assert forall|p: ParamRef| p.clap_id() < id + 1 implies self.values@[p.clap_id() as int]
                    == p.desc().clamp(#[trigger] state.params.at(p)) by {
                    p.lemma_clap_id_inverts();
                }
            }
        }
        proof {
            assert forall|p: ParamRef| self.values@[p.clap_id() as int] == p.desc().clamp(
                #[trigger] state.params.at(p),
            ) by {
                p.lemma_clap_id_inverts();
            }
        }
        self.set_key_mode(state.key_mode);
        self.set_split_point(state.split_point);
    }
}

impl Default for SharedParams {
    fn default() -> (r: Self)
        ensures
            r.wf(),
            forall|id: int|
                0 <= id < TOTAL_PARAMS ==> #[trigger] r.values@[id] == desc_at(id).default,
            forall|id: int| 0 <= id < TOTAL_PARAMS ==> !#[trigger] r.gesture@[id],
            r.key_mode == KeyMode::Whole,
            r.split_point == DEFAULT_SPLIT_POINT,
    {
        SharedParams::new()
    }
}

/// A parameter of the lower patch has the range of its upper twin.
proof fn lemma_lower_desc(id: int)
    requires
        PATCH_COUNT <= id < 2 * PATCH_COUNT,
    ensures
        desc_at(id) == desc_at(id - PATCH_COUNT),
{
    PatchParam::lemma_from_index_inverts((id - PATCH_COUNT) as usize);
}

/// A value that is stored reads back, clamped to its range; within the range it reads back
/// as it was. No other value moves.
pub proof fn lemma_write_reads_back(
    pre: &SharedParams,
    post: &SharedParams,
    index: usize,
    value: Plain,
    other: int,
)
    requires
        index < TOTAL_PARAMS,
        SharedParams::is_set(pre, post, index, value),
        0 <= other < TOTAL_PARAMS,
    ensures
        post.values@[index as int] == desc_at(index as int).clamp(value),
        desc_at(index as int).in_range(post.values@[index as int]),
        desc_at(index as int).in_range(value) ==> post.values@[index as int] == value,
        other != index ==> post.values@[other] == pre.values@[other],
{
    params::lemma_clap_ids_are_contiguous(index);
    let p = param_ref(index)->0;
    p.lemma_desc_wf();
    let d = p.desc();
    assert(post.values@[index as int] == d.clamp(value));
    d.lemma_clamp_in_range(value);
}

/// What is saved and restored comes back: every value, the key mode and the split
/// point of the store that was saved.
pub proof fn lemma_state_roundtrips(
    saved: &SharedParams,
    state: &PluginState,
    loaded: &SharedParams,
)
    requires
        saved.wf(),
        state.saves(saved),
        loaded.restores(state),
    ensures
        loaded.values@ == saved.values@,
        loaded.key_mode == saved.key_mode,
        loaded.split_point == saved.split_point,
{
    assert forall|id: int| 0 <= id < TOTAL_PARAMS implies loaded.values@[id]
        == saved.values@[id] by {
        params::lemma_clap_ids_are_contiguous(id as usize);
        let p = param_ref(id as usize)->0;
        p.lemma_desc_wf();
        assert(state.params.at(p) == p.desc().clamp(saved.values@[id]));
        assert(desc_at(id).in_range(saved.values@[id]));
    }
    assert(loaded.values@ =~= saved.values@);
}

/// After the copy both patches read the same, and a second copy changes nothing.
pub proof fn lemma_seeding_equalises(values: Seq<Plain>, p: PatchParam)
    requires
        values.len() == TOTAL_PARAMS,
    ensures
        ({
            let after = SharedParams::seeded(values);
            after[patch_clap_id(Layer::Lower, p) as int] == after[patch_clap_id(
                Layer::Upper,
                p,
            ) as int]
        }),
        SharedParams::seeded(SharedParams::seeded(values)) == SharedParams::seeded(values),
{
    p.lemma_index_roundtrips();
    assert(SharedParams::seeded(SharedParams::seeded(values)) =~= SharedParams::seeded(values));
}

} // verus!
