//! Voice allocation: which channels a note lands on.
use crate::CHANNELS_PER_LAYER;
use crate::choices::AssignMode;
use crate::fpu::{Fpu, Op};
use crate::lanes::{splat, Lanes};
use crate::math;
use crate::noise::{self, xorshift64};
use crate::nums::{F0_25, F7, HALF, MINUS_ONE, ONE, TWO, ZERO};
use crate::oscillator::fract;
use crate::plain::{self, num, Plain};
use vstd::prelude::*;

verus! {

broadcast use crate::plain::group_by_rank;

/// The bookkeeping that the allocation reads, one entry per channel.
#[derive(Clone, Copy)]
pub struct AllocView {
    pub active: [bool; CHANNELS_PER_LAYER],
    pub note: [u8; CHANNELS_PER_LAYER],
    /// The pitch that a channel would glide from.
    pub glide_semi: Lanes,
    /// When a channel was last allocated; the lowest is the oldest.
    pub alloc_tick: [u64; CHANNELS_PER_LAYER],
}

/// The bookkeeping that the allocation reads.
#[verifier::ext_equal]
pub struct AllocState {
    pub active: Seq<bool>,
    pub note: Seq<u8>,
    pub glide_semi: Seq<Plain>,
    pub alloc_tick: Seq<u64>,
}

impl View for AllocView {
    type V = AllocState;

    open spec fn view(&self) -> AllocState {
        AllocState {
            active: self.active@,
            note: self.note@,
            glide_semi: self.glide_semi@,
            alloc_tick: self.alloc_tick@,
        }
    }
}

/// One channel to be triggered, with its detune in cents and its start phase.
#[derive(Clone, Copy, Debug, PartialEq, Eq, Structural)]
pub struct Assign {
    pub channel: usize,
    pub detune_cents: Plain,
    pub start_phase: Plain,
}

impl Default for Assign {
    fn default() -> (r: Self)
        ensures
            r == (Assign { channel: 0, detune_cents: num(ZERO), start_phase: num(ZERO) }),
    {
        Assign { channel: 0, detune_cents: num(ZERO), start_phase: num(ZERO) }
    }
}

/// Excludes no channel.
pub const NO_SKIP: usize = usize::MAX;

pub open spec fn spec_glide_distance<A: Fn(Op, Plain, Plain) -> Plain>(
    fpu: &Fpu<A>,
    from: Plain,
    note: u8,
) -> u32 {
    fpu.sub(from, Plain::from_int(note as i64)).abs().bits
}

/// How far a glide from a pitch to a note would go, as a number that orders as the
/// distance does.
#[verifier::when_used_as_spec(spec_glide_distance)]
pub fn glide_distance<A: Fn(Op, Plain, Plain) -> Plain>(
    fpu: &Fpu<A>,
    from: Plain,
    note: u8,
) -> (r: u32)
    requires
        fpu.valid(),
    ensures
        r == glide_distance(fpu, from, note),
{
    fpu.sub(from, Plain::from_int(note as i64)).abs().bits
}

/// Channel `v` already sounds the note.
pub open spec fn sounds(st: AllocState, note: u8, skip: usize, v: int) -> bool {
    v != skip && st.active[v] && st.note[v] == note
}

/// Channel `v` is free.
pub open spec fn is_free(st: AllocState, skip: usize, v: int) -> bool {
    v != skip && !st.active[v]
}

/// Channel `v` can be taken.
pub open spec fn can_steal(skip: usize, v: int) -> bool {
    v != skip
}

/// The channel for a note, other than `skip`: the first that sounds it already; else
/// the free one from which the glide is shortest; else the one allocated longest ago.
/// Ties go to the first.
pub open spec fn is_choice<A: Fn(Op, Plain, Plain) -> Plain>(
    fpu: &Fpu<A>,
    note: u8,
    st: AllocState,
    skip: usize,
    r: usize,
) -> bool {
    let n = CHANNELS_PER_LAYER as int;
    let dist = |v: int| glide_distance(fpu, st.glide_semi[v], note);
    &&& r < n
    &&& if exists|v: int| 0 <= v < n && #[trigger] sounds(st, note, skip, v) {
        &&& sounds(st, note, skip, r as int)
        &&& forall|v: int| 0 <= v < r ==> !#[trigger] sounds(st, note, skip, v)
    } else if exists|v: int| 0 <= v < n && #[trigger] is_free(st, skip, v) {
        &&& is_free(st, skip, r as int)
        &&& forall|v: int|
            0 <= v < n && #[trigger] is_free(st, skip, v) ==> dist(r as int) <= dist(v)
        &&& forall|v: int| 0 <= v < r && #[trigger] is_free(
            st,
            skip,
            v,
        ) ==> dist(r as int) < dist(v)
    } else {
        &&& can_steal(skip, r as int)
        &&& forall|v: int|
            0 <= v < n && #[trigger] can_steal(skip, v) ==> st.alloc_tick[r as int]
                <= st.alloc_tick[v]
        &&& forall|v: int|
            0 <= v < r && #[trigger] can_steal(skip, v) ==> st.alloc_tick[r as int]
                < st.alloc_tick[v]
    }
}

/// The channel for a note.
pub open spec fn chosen<A: Fn(Op, Plain, Plain) -> Plain>(
    fpu: &Fpu<A>,
    note: u8,
    st: AllocState,
    skip: usize,
) -> usize {
    choose|r: usize| is_choice(fpu, note, st, skip, r)
}

/// The rule leaves no doubt about the channel.
pub proof fn lemma_choice_is_unique<A: Fn(Op, Plain, Plain) -> Plain>(
    fpu: &Fpu<A>,
    note: u8,
    st: AllocState,
    skip: usize,
    r: usize,
)
    requires
        is_choice(fpu, note, st, skip, r),
    ensures
        chosen(fpu, note, st, skip) == r,
{
    let s = chosen(fpu, note, st, skip);
    assert(is_choice(fpu, note, st, skip, s));
    let n = CHANNELS_PER_LAYER as int;
    if exists|v: int| 0 <= v < n && #[trigger] sounds(st, note, skip, v) {
        assert(sounds(st, note, skip, r as int) && sounds(st, note, skip, s as int));
    } else if exists|v: int| 0 <= v < n && #[trigger] is_free(st, skip, v) {
        assert(is_free(st, skip, r as int) && is_free(st, skip, s as int));
    } else {
        assert(can_steal(skip, r as int) && can_steal(skip, s as int));
    }
}

/// Pick the channel for a note, other than `skip`.
pub fn allocate_excl<A: Fn(Op, Plain, Plain) -> Plain>(
    fpu: &Fpu<A>,
    note: u8,
    st: &AllocView,
    skip: usize,
) -> (r: usize)
    requires
        fpu.valid(),
    ensures
        is_choice(fpu, note, st@, skip, r),
        r == chosen(fpu, note, st@, skip),
        r < CHANNELS_PER_LAYER,
        r != skip,
{
    let mut best: usize = CHANNELS_PER_LAYER;
    let mut best_distance: u32 = 0;
    let mut oldest: usize = CHANNELS_PER_LAYER;
    for v in 0..CHANNELS_PER_LAYER
        invariant
            fpu.valid(),
            forall|u: int| 0 <= u < v ==> !#[trigger] sounds(st@, note, skip, u),
            best <= CHANNELS_PER_LAYER,
            best == CHANNELS_PER_LAYER ==> forall|u: int|
                0 <= u < v ==> !#[trigger] is_free(st@, skip, u),
            best < CHANNELS_PER_LAYER ==> {
                &&& best < v
                &&& is_free(st@, skip, best as int)
                &&& best_distance == glide_distance(fpu, st@.glide_semi[best as int], note)
                &&& forall|u: int|
                    0 <= u < v && #[trigger] is_free(st@, skip, u) ==> best_distance
                        <= glide_distance(fpu, st@.glide_semi[u], note)
                &&& forall|u: int|
                    0 <= u < best && #[trigger] is_free(st@, skip, u) ==> best_distance
                        < glide_distance(fpu, st@.glide_semi[u], note)
            },
            oldest <= CHANNELS_PER_LAYER,
            oldest == CHANNELS_PER_LAYER ==> forall|u: int|
                0 <= u < v ==> !#[trigger] can_steal(skip, u),
            oldest < CHANNELS_PER_LAYER ==> {
                &&& oldest < v
                &&& can_steal(skip, oldest as int)
                &&& forall|u: int|
                    0 <= u < v && #[trigger] can_steal(skip, u) ==> st@.alloc_tick[oldest as int]
                        <= st@.alloc_tick[u]
                &&& forall|u: int|
                    0 <= u < oldest && #[trigger] can_steal(
                        skip,
                        u,
                    ) ==> st@.alloc_tick[oldest as int]
                        < st@.alloc_tick[u]
            },
    {
        if v != skip && st.active[v] && st.note[v] == note {
            assert(sounds(st@, note, skip, v as int));
            proof {
                lemma_choice_is_unique(fpu, note, st@, skip, v);
            }
            return v;
        }
        if v != skip && !st.active[v] {
            let distance: u32 = glide_distance(fpu, st.glide_semi[v], note);
            if best == CHANNELS_PER_LAYER || distance < best_distance {
                best = v;
                best_distance = distance;
            }
        }
        if v != skip && (oldest == CHANNELS_PER_LAYER || st.alloc_tick[v] < st.alloc_tick[oldest]) {
            oldest = v;
        }
    }
    proof {
        assert(can_steal(skip, if skip == 0 {
            1int
        } else {
            0
        }));
        if best < CHANNELS_PER_LAYER {
            assert(is_free(st@, skip, best as int));
            lemma_choice_is_unique(fpu, note, st@, skip, best);
        } else {
            lemma_choice_is_unique(fpu, note, st@, skip, oldest);
        }
    }
    if best < CHANNELS_PER_LAYER {
        best
    } else {
        oldest
    }
}

/// The channel for a note of a polyphonic patch.
pub fn allocate_one<A: Fn(Op, Plain, Plain) -> Plain>(fpu: &Fpu<A>, note: u8, st: &AllocView) -> (r:
    usize)
    requires
        fpu.valid(),
    ensures
        is_choice(fpu, note, st@, NO_SKIP, r),
        r == chosen(fpu, note, st@, NO_SKIP),
        r < CHANNELS_PER_LAYER,
{
    allocate_excl(fpu, note, st, NO_SKIP)
}

/// Two different channels for a note: the first choice, and the next by the same rule.
pub fn allocate_pair<A: Fn(Op, Plain, Plain) -> Plain>(
    fpu: &Fpu<A>,
    note: u8,
    st: &AllocView,
) -> (r: (
    usize,
    usize,
))
    requires
        fpu.valid(),
    ensures
        r.0 == chosen(fpu, note, st@, NO_SKIP),
        r.1 == chosen(fpu, note, st@, r.0),
        r.0 < CHANNELS_PER_LAYER,
        r.1 < CHANNELS_PER_LAYER,
        r.0 != r.1,
{
    let a: usize = allocate_excl(fpu, note, st, NO_SKIP);
    let b: usize = allocate_excl(fpu, note, st, a);
    (a, b)
}

pub open spec fn spec_unison_spread<A: Fn(Op, Plain, Plain) -> Plain>(
    fpu: &Fpu<A>,
    v: usize,
) -> Plain {
    fpu.sub(fpu.mul(fpu.div(Plain::from_index(v), num(F7)), num(TWO)), num(ONE))
}

/// The detune weight of a channel in a stack, from -1 to 1 across the channels.
#[verifier::when_used_as_spec(spec_unison_spread)]
pub fn unison_spread<A: Fn(Op, Plain, Plain) -> Plain>(fpu: &Fpu<A>, v: usize) -> (r: Plain)
    requires
        fpu.valid(),
    ensures
        r == unison_spread(fpu, v),
{
    fpu.sub(fpu.mul(fpu.div(Plain::from_index(v), num(F7)), num(TWO)), num(ONE))
}

/// The generator after `k` draws.
pub open spec fn drawn(rng: u64, k: nat) -> u64
    decreases k,
{
    if k == 0 {
        rng
    } else {
        noise::xorshifted(drawn(rng, (k - 1) as nat))
    }
}

/// The start phase of a drawn generator state, in `[0, 1)`.
pub open spec fn phase_of<A: Fn(Op, Plain, Plain) -> Plain>(fpu: &Fpu<A>, rng: u64) -> Plain {
    fract(fpu, fpu.mul(fpu.add(noise::noise_sample(fpu, rng), num(ONE)), num(HALF)))
}

/// Draw a random start phase.
pub fn random_phase<A: Fn(Op, Plain, Plain) -> Plain>(fpu: &Fpu<A>, rng: &mut u64) -> (r: Plain)
    requires
        fpu.valid(),
    ensures
        *final(rng) == noise::xorshifted(*old(rng)),
        r == phase_of(fpu, *final(rng)),
{
    let x = xorshift64(fpu, rng);
    fract(fpu, fpu.mul(fpu.add(x, num(ONE)), num(HALF)))
}

/// Which channels a note lands on.
pub struct Plan {
    pub assigns: [Assign; CHANNELS_PER_LAYER],
    pub len: usize,
    /// Compensation of the level of a stack.
    pub level_comp: Plain,
    /// Whether more than one channel sounds the note.
    pub unison: bool,
}

pub open spec fn spec_stack_level<A: Fn(Op, Plain, Plain) -> Plain>(
    fpu: &Fpu<A>,
    len: usize,
) -> Plain {
    fpu.div(num(ONE), fpu.sqrt(Plain::from_index(len)))
}

/// The level compensation of a stack of channels.
#[verifier::when_used_as_spec(spec_stack_level)]
pub fn stack_level<A: Fn(Op, Plain, Plain) -> Plain>(fpu: &Fpu<A>, len: usize) -> (r: Plain)
    requires
        fpu.valid(),
    ensures
        r == stack_level(fpu, len),
{
    fpu.div(num(ONE), fpu.sqrt(Plain::from_index(len)))
}

impl Plan {
    pub open spec fn wf(&self) -> bool {
        self.len <= CHANNELS_PER_LAYER
    }

    /// The assignments of the plan.
    pub open spec fn view(&self) -> Seq<Assign> {
        self.assigns@.take(self.len as int)
    }

    pub fn new<A: Fn(Op, Plain, Plain) -> Plain>(
        fpu: &Fpu<A>,
        assigns: [Assign; CHANNELS_PER_LAYER],
        len: usize,
    ) -> (r: Self)
        requires
            fpu.valid(),
            len <= CHANNELS_PER_LAYER,
        ensures
            r.wf(),
            r@ == assigns@.take(len as int),
            r.len == len,
            r.level_comp == stack_level(fpu, len),
            r.unison == (len > 1),
    {
        Plan { assigns, len, level_comp: stack_level(fpu, len), unison: len > 1 }
    }
}

/// The assignments of a note under a mode. Polyphonic: one channel, untouched. Unison:
/// every channel, detuned across the spread, each at a drawn phase. Solo: the first
/// channel. Twin: two channels at the ends of the spread, the second a quarter cycle on.
pub open spec fn planned<A: Fn(Op, Plain, Plain) -> Plain>(
    fpu: &Fpu<A>,
    mode: AssignMode,
    note: u8,
    unison_detune: Plain,
    st: AllocState,
    rng: u64,
) -> Seq<Assign> {
    match mode {
        AssignMode::Poly => seq![
            Assign {
                channel: chosen(fpu, note, st, NO_SKIP),
                detune_cents: num(ZERO),
                start_phase: num(ZERO),
            },
        ],
        AssignMode::Unison => Seq::new(
            CHANNELS_PER_LAYER as nat,
            |v: int| unison_assign(fpu, v, unison_detune, rng),
        ),
        AssignMode::Solo => seq![
            Assign { channel: 0, detune_cents: num(ZERO), start_phase: num(ZERO) },
        ],
        AssignMode::Twin => {
            let a = chosen(fpu, note, st, NO_SKIP);
            let b = chosen(fpu, note, st, a);
            seq![
                Assign {
                    channel: a,
                    detune_cents: fpu.mul(num(MINUS_ONE), unison_detune),
                    start_phase: num(ZERO),
                },
                Assign {
                    channel: b,
                    detune_cents: fpu.mul(num(ONE), unison_detune),
                    start_phase: num(F0_25),
                },
            ]
        },
    }
}

/// Channel `v` of a unison stack.
pub open spec fn unison_assign<A: Fn(Op, Plain, Plain) -> Plain>(
    fpu: &Fpu<A>,
    v: int,
    unison_detune: Plain,
    rng: u64,
) -> Assign {
    Assign {
        channel: v as usize,
        detune_cents: fpu.mul(unison_spread(fpu, v as usize), unison_detune),
        start_phase: phase_of(fpu, drawn(rng, (v + 1) as nat)),
    }
}

/// The generator after a plan: only unison draws from it.
pub open spec fn rng_after(mode: AssignMode, rng: u64) -> u64 {
    match mode {
        AssignMode::Unison => drawn(rng, CHANNELS_PER_LAYER as nat),
        _ => rng,
    }
}

/// A plan uses at least one channel, all of them real and no two the same.
pub open spec fn well_planned(plan: Seq<Assign>) -> bool {
    &&& 1 <= plan.len() <= CHANNELS_PER_LAYER
    &&& forall|i: int| 0 <= i < plan.len() ==> (#[trigger] plan[i]).channel < CHANNELS_PER_LAYER
    &&& forall|i: int, j: int|
        0 <= i < j < plan.len() ==> (#[trigger] plan[i]).channel != (#[trigger] plan[j]).channel
}

/// Plan a note under a mode: which channels, and how each is detuned and phased.
pub fn plan<A: Fn(Op, Plain, Plain) -> Plain>(
    fpu: &Fpu<A>,
    mode: AssignMode,
    note: u8,
    unison_detune: Plain,
    st: &AllocView,
    rng: &mut u64,
) -> (r: Plan)
    requires
        fpu.valid(),
    ensures
        r.wf(),
        r@ == planned(fpu, mode, note, unison_detune, st@, *old(rng)),
        r@.len() == r.len,
        well_planned(r@),
        r.level_comp == stack_level(fpu, r.len),
        r.unison == (r.len > 1),
        *final(rng) == rng_after(mode, *old(rng)),
{
    let mut assigns: [Assign; CHANNELS_PER_LAYER] = splat(Assign::default());
    match mode {
        AssignMode::Poly => {
            assigns[0] = Assign {
                channel: allocate_one(fpu, note, st),
                detune_cents: num(ZERO),
                start_phase: num(ZERO),
            };
            let r = Plan::new(fpu, assigns, 1);
            assert(r@ =~= planned(fpu, mode, note, unison_detune, st@, *old(rng)));
            r
        },
        AssignMode::Unison => {
            for v in 0..CHANNELS_PER_LAYER
                invariant
                    fpu.valid(),
                    *rng == drawn(*old(rng), v as nat),
                    forall|i: int|
                        0 <= i < v ==> #[trigger] assigns@[i] == unison_assign(
                            fpu,
                            i,
                            unison_detune,
                            *old(rng),
                        ),
            {
                let start_phase = random_phase(fpu, rng);
                assigns[v] = Assign {
                    channel: v,
                    detune_cents: fpu.mul(unison_spread(fpu, v), unison_detune),
                    start_phase,
                };
            }
            let r = Plan::new(fpu, assigns, CHANNELS_PER_LAYER);
            assert(r@ =~= planned(fpu, mode, note, unison_detune, st@, *old(rng)));
            r
        },
        AssignMode::Solo => {
            assigns[0] = Assign { channel: 0, detune_cents: num(ZERO), start_phase: num(ZERO) };
            let r = Plan::new(fpu, assigns, 1);
            assert(r@ =~= planned(fpu, mode, note, unison_detune, st@, *old(rng)));
            r
        },
        AssignMode::Twin => {
            let (a, b): (usize, usize) = allocate_pair(fpu, note, st);
            assigns[0] = Assign {
                channel: a,
                detune_cents: fpu.mul(num(MINUS_ONE), unison_detune),
                start_phase: num(ZERO),
            };
            assigns[1] = Assign {
                channel: b,
                detune_cents: fpu.mul(num(ONE), unison_detune),
                start_phase: num(F0_25),
            };
            let r = Plan::new(fpu, assigns, 2);
            assert(r@ =~= planned(fpu, mode, note, unison_detune, st@, *old(rng)));
            r
        },
    }
}

/// A channel that sounds the note is taken up again.
pub proof fn lemma_sounding_note_is_reused<A: Fn(Op, Plain, Plain) -> Plain>(
    fpu: &Fpu<A>,
    note: u8,
    st: AllocState,
    skip: usize,
    r: usize,
    v: int,
)
    requires
        is_choice(fpu, note, st, skip, r),
        0 <= v < CHANNELS_PER_LAYER,
        sounds(st, note, skip, v),
    ensures
        sounds(st, note, skip, r as int),
{
}

/// While a channel is free, no sounding note is cut off by another.
pub proof fn lemma_no_steal_while_free<A: Fn(Op, Plain, Plain) -> Plain>(
    fpu: &Fpu<A>,
    note: u8,
    st: AllocState,
    skip: usize,
    r: usize,
    v: int,
)
    requires
        is_choice(fpu, note, st, skip, r),
        0 <= v < CHANNELS_PER_LAYER,
        is_free(st, skip, v),
    ensures
        sounds(st, note, skip, r as int) || !st.active[r as int],
{
}

/// When every channel sounds another note, the oldest is stolen.
pub proof fn lemma_oldest_is_stolen<A: Fn(Op, Plain, Plain) -> Plain>(
    fpu: &Fpu<A>,
    note: u8,
    st: AllocState,
    r: usize,
    v: int,
)
    requires
        is_choice(fpu, note, st, NO_SKIP, r),
        forall|u: int|
            0 <= u < CHANNELS_PER_LAYER ==> #[trigger] st.active[u] && st.note[u] != note,
        0 <= v < CHANNELS_PER_LAYER,
    ensures
        st.alloc_tick[r as int] <= st.alloc_tick[v],
{
    assert(can_steal(NO_SKIP, v));
    assert forall|u: int| 0 <= u < CHANNELS_PER_LAYER implies !#[trigger] is_free(
        st,
        NO_SKIP,
        u,
    ) by {
        assert(st.active[u]);
    }
    assert forall|u: int| 0 <= u < CHANNELS_PER_LAYER implies !#[trigger] sounds(
        st,
        note,
        NO_SKIP,
        u,
    ) by {
        assert(st.active[u]);
    }
}

/// The stack of a unison spreads from minus one at its first channel to one at its last, and
/// never back between.
pub proof fn lemma_spread_fans_out<A: Fn(Op, Plain, Plain) -> Plain>(
    fpu: &Fpu<A>,
    v: usize,
    w: usize,
)
    requires
        fpu.rounds(),
        v <= w <= 7,
    ensures
        unison_spread(fpu, v).at_most(unison_spread(fpu, w)),
        unison_spread(fpu, 0) == num(MINUS_ONE),
        unison_spread(fpu, 7) == num(ONE),
        num(MINUS_ONE).at_most(unison_spread(fpu, v)),
        unison_spread(fpu, w).at_most(num(ONE)),
{
    plain::lemma_small_values();
    vstd::arithmetic::power2::lemma2_to64();
    plain::lemma_whole_value(F7, 7, 21);
    lemma_spread_part(fpu, v);
    lemma_spread_part(fpu, w);
    lemma_spread_part(fpu, 0);
    lemma_spread_part(fpu, 7);
    plain::lemma_index_order(v, w);
    let u = plain::unit();
    let (a, b) = (
        fpu.div(Plain::from_index(v), num(F7)),
        fpu.div(Plain::from_index(w), num(F7)),
    );
    let (s, t) = (v as int, w as int);
    assert((s * u) * (7 * u) <= (t * u) * (7 * u)) by (nonlinear_arith)
        requires
            s <= t,
            u > 0,
    ;
    fpu.lemma_div_order(Plain::from_index(v), num(F7), Plain::from_index(w), num(F7));
    math::lemma_spread_order(fpu, a, b);
    let (z, o) = (
        fpu.div(Plain::from_index(0), num(F7)),
        fpu.div(Plain::from_index(7), num(F7)),
    );
    math::lemma_spread_ends(fpu, z, o);
    math::lemma_spread_order(fpu, z, a);
    math::lemma_spread_order(fpu, b, o);
}

/// The place of a channel in its stack.
proof fn lemma_spread_part<A: Fn(Op, Plain, Plain) -> Plain>(fpu: &Fpu<A>, v: usize)
    requires
        fpu.rounds(),
        v <= 7,
    ensures
        ({
            let a = fpu.div(Plain::from_index(v), num(F7));
            &&& Plain::from_index(v).is_finite()
            &&& Plain::from_index(v).scaled() == v * plain::unit()
            &&& math::is_phase(a)
            &&& v == 0 ==> a.is_zero()
            &&& v == 7 ==> a == num(ONE)
        }),
{
    plain::lemma_small_values();
    vstd::arithmetic::power2::lemma2_to64();
    plain::lemma_whole_value(F7, 7, 21);
    plain::lemma_count_exists(v as int);
    plain::lemma_exact_count(v as int);
    let x = Plain::from_index(v);
    let (u, n) = (plain::unit(), v as int);
    assert(0 * (7 * u) <= (n * u) * u && (n * u) * u <= u * (7 * u)) by (nonlinear_arith)
        requires
            0 <= n <= 7,
            u > 0,
    ;
    fpu.lemma_div_side(x, num(F7), num(ZERO));
    fpu.lemma_div_side(x, num(F7), num(ONE));
    let a = fpu.div(x, num(F7));
    plain::lemma_between_finite(num(ZERO), a, num(ONE));
    assert(n == 0 ==> (n * u) * u == 0 * (7 * u)) by (nonlinear_arith);
    assert(n == 7 ==> (n * u) * u == u * (7 * u)) by (nonlinear_arith);
}

/// The two channels of a twin are detuned apart by the same amount, one down and one up, and
/// the second starts a quarter of a cycle on.
pub proof fn lemma_twins_part<A: Fn(Op, Plain, Plain) -> Plain>(
    fpu: &Fpu<A>,
    note: u8,
    detune: Plain,
    st: AllocState,
    rng: u64,
)
    requires
        fpu.rounds(),
        detune.is_number(),
    ensures
        ({
            let p = planned(fpu, AssignMode::Twin, note, detune, st, rng);
            &&& p.len() == 2
            &&& p[1].detune_cents.equals(detune)
            &&& p[0].detune_cents.rank() == -detune.rank()
            &&& 4 * (p[1].start_phase.scaled() - p[0].start_phase.scaled()) == plain::unit()
        }),
{
    plain::lemma_small_values();
    fpu.lemma_all_of(detune);
    fpu.lemma_mul_turns(num(ONE), detune);
    assert(num(ONE).neg() == num(MINUS_ONE));
    let p = planned(fpu, AssignMode::Twin, note, detune, st, rng);
    assert(p[0].detune_cents == fpu.mul(num(MINUS_ONE), detune));
    assert(p[1].detune_cents == fpu.mul(num(ONE), detune));
}

/// A unison is detuned from the whole amount down at its first channel to the whole amount up at
/// its last, in order and nowhere further. A polyphonic or solo note is not detuned.
pub proof fn lemma_unison_fans_out<A: Fn(Op, Plain, Plain) -> Plain>(
    fpu: &Fpu<A>,
    note: u8,
    detune: Plain,
    st: AllocState,
    rng: u64,
    v: int,
    w: int,
)
    requires
        fpu.rounds(),
        detune.is_number() && detune.scaled() >= 0,
        0 <= v <= w < 8,
    ensures
        ({
            let p = planned(fpu, AssignMode::Unison, note, detune, st, rng);
            &&& p.len() == 8
            &&& p[v].detune_cents.at_most(p[w].detune_cents)
            &&& p[0].detune_cents.rank() == -detune.rank()
            &&& p[7].detune_cents.equals(detune)
            &&& p[v].channel == v
        }),
        planned(fpu, AssignMode::Poly, note, detune, st, rng)[0].detune_cents == num(ZERO),
        planned(fpu, AssignMode::Solo, note, detune, st, rng)[0].detune_cents == num(ZERO),
{
    plain::lemma_small_values();
    lemma_spread_fans_out(fpu, v as usize, w as usize);
    lemma_spread_fans_out(fpu, 0, v as usize);
    lemma_spread_fans_out(fpu, w as usize, 7);
    let p = planned(fpu, AssignMode::Unison, note, detune, st, rng);
    let (a, b) = (unison_spread(fpu, v as usize), unison_spread(fpu, w as usize));
    plain::lemma_between_finite(num(MINUS_ONE), a, num(ONE));
    plain::lemma_between_finite(num(MINUS_ONE), b, num(ONE));
    fpu.lemma_scaling_rises(a, b, detune);
    fpu.lemma_all_of(detune);
    fpu.lemma_mul_turns(num(ONE), detune);
    assert(num(ONE).neg() == num(MINUS_ONE));
    assert(p[v] == unison_assign(fpu, v, detune, rng));
    assert(p[w] == unison_assign(fpu, w, detune, rng));
    assert(p[0] == unison_assign(fpu, 0, detune, rng));
    assert(p[7] == unison_assign(fpu, 7, detune, rng));
}

/// A drawn start phase lies in the cycle.
pub proof fn lemma_drawn_phase_in_cycle<A: Fn(Op, Plain, Plain) -> Plain>(fpu: &Fpu<A>, rng: u64)
    requires
        fpu.rounds(),
    ensures
        ({
            let x = fpu.mul(fpu.add(noise::noise_sample(fpu, rng), num(ONE)), num(HALF));
            &&& math::is_phase(x)
            &&& x.less(num(ONE)) && !x.negative() ==> phase_of(fpu, rng).rank() == x.rank()
                || !x.is_number()
        }),
{
    plain::lemma_small_values();
    let u = plain::unit();
    noise::lemma_noise_bounds(fpu, rng);
    let n = noise::noise_sample(fpu, rng);
    plain::lemma_between_finite(num(MINUS_ONE), n, num(ONE));
    let a = fpu.add(n, num(ONE));
    fpu.lemma_add_side(n, num(ONE), num(ZERO));
    fpu.lemma_add_side(n, num(ONE), num(TWO));
    plain::lemma_between_finite(num(ZERO), a, num(TWO));
    let (s, h) = (a.scaled(), num(HALF).scaled());
    assert(0 * u <= s * h && s * h <= u * u) by (nonlinear_arith)
        requires
            0 <= s <= 2 * u,
            2 * h == u,
            u > 0,
    ;
    fpu.lemma_mul_side(a, num(HALF), num(ZERO));
    fpu.lemma_mul_side(a, num(HALF), num(ONE));
    let x = fpu.mul(a, num(HALF));
    plain::lemma_between_finite(num(ZERO), x, num(ONE));
    if x.less(num(ONE)) && !x.negative() && x.is_number() {
        plain::lemma_fraction_floor(x);
        fpu.lemma_nothing_added(x, num(ZERO));
    }
}

/// A single channel is not turned down, and a larger stack is no louder, so long as the unit
/// keeps one and the order of two counts in its square roots.
pub proof fn lemma_stacks_are_turned_down<A: Fn(Op, Plain, Plain) -> Plain>(
    fpu: &Fpu<A>,
    m: usize,
    n: usize,
)
    requires
        fpu.rounds(),
        1 <= m <= n <= 8,
        ({
            let (a, b) = (
                fpu.sqrt(Plain::from_index(m)),
                fpu.sqrt(Plain::from_index(n)),
            );
            &&& a.is_finite() && b.is_finite() && a.scaled() > 0
            &&& Plain::from_index(m).at_most(Plain::from_index(n)) ==> a.at_most(b)
            &&& m == 1 ==> a == num(ONE)
        }),
    ensures
        stack_level(fpu, n).at_most(stack_level(fpu, m)),
        m == 1 ==> stack_level(fpu, m) == num(ONE),
{
    plain::lemma_small_values();
    plain::lemma_index_order(m, n);
    let (a, b) = (fpu.sqrt(Plain::from_index(m)), fpu.sqrt(Plain::from_index(n)));
    plain::lemma_equal_scaled(a, b);
    let (s, t, u) = (a.scaled(), b.scaled(), plain::unit());
    assert(u * s <= u * t) by (nonlinear_arith)
        requires
            s <= t,
            u > 0,
    ;
    fpu.lemma_div_order(num(ONE), b, num(ONE), a);
    if m == 1 {
        fpu.lemma_div_side(num(ONE), a, num(ONE));
    }
}

/// The distance of a glide is the size of the difference, wherever that is a number.
pub proof fn lemma_glide_distance<A: Fn(Op, Plain, Plain) -> Plain>(
    fpu: &Fpu<A>,
    from: Plain,
    note: u8,
    d: Plain,
)
    requires
        fpu.rounds(),
        from.is_finite(),
        d.is_number() && d.scaled() >= 0,
        d.scaled() == from.scaled() - note * plain::unit() || d.scaled() == note * plain::unit()
            - from.scaled(),
    ensures
        glide_distance(fpu, from, note) == d.abs().bits,
{
    let n = Plain::from_int(note as i64);
    plain::lemma_count_exists(note as int);
    plain::lemma_exact_count(note as int);
    plain::lemma_neg_scaled(d);
    fpu.lemma_sub_side(from, n, d);
    fpu.lemma_sub_side(from, n, d.neg());
    plain::lemma_equal_scaled(fpu.sub(from, n), d);
    plain::lemma_equal_scaled(fpu.sub(from, n), d.neg());
}

} // verus!
