//! What a plugin host asks and tells, in plain values.
use crate::fpu::{Fpu, Op};
use crate::nums::{F127, F8192, ONE, ZERO};
use crate::params::{desc_for_clap_id, module_for_clap_id, DisplayText, ParamKind, TOTAL_PARAMS};
use crate::plain::{self, num, Plain};
use crate::shared::SharedParams;
use crate::text::{self, decimal_text, push_text};
use vstd::prelude::*;
use vstd::string::StrSliceExecFns;

verus! {

broadcast use crate::plain::group_by_rank;

/// A host's note, automation or raw MIDI event, in plain values.
#[derive(Clone, Copy, Debug, PartialEq, Eq, Structural)]
pub enum InputEvent {
    NoteOn { key: u8, velocity: Plain },
    NoteOff { key: u8 },
    Param { id: usize, value: Plain },
    Midi { status: u8, d1: u8, d2: u8 },
}

/// One end of the range of samples that a batch of events stands before.
#[derive(Clone, Copy, Debug, PartialEq, Eq, Structural)]
pub enum SampleBound {
    Included(usize),
    Excluded(usize),
    Unbounded,
}

/// What a raw MIDI message asks for.
#[derive(Clone, Copy, Debug, PartialEq, Eq, Structural)]
pub enum MidiAction {
    /// Pitch bend in `[-1, 1]`.
    Bend(Plain),
    /// Modulation wheel in `[0, 1]`.
    Wheel(Plain),
    Nothing,
}

pub open spec fn spec_bend_word(d1: u8, d2: u8) -> u16 {
    ((d2 as u16) << 7) | (d1 as u16)
}

/// The 14-bit word of a pitch bend.
#[verifier::when_used_as_spec(spec_bend_word)]
pub fn bend_word(d1: u8, d2: u8) -> (r: u16)
    ensures
        r == bend_word(d1, d2),
{
    ((d2 as u16) << 7) | (d1 as u16)
}

/// Of two data bytes, the second is the high one.
pub proof fn lemma_bend_word_is_positional(d1: u8, d2: u8)
    requires
        d1 < 128,
        d2 < 128,
    ensures
        bend_word(d1, d2) == 128 * d2 + d1,
        bend_word(d1, d2) < 16384,
{
    assert(((d2 as u16) << 7) | (d1 as u16) == 128 * d2 + d1) by (bit_vector)
        requires
            d1 < 128,
            d2 < 128,
    ;
}

pub open spec fn spec_midi_action<A: Fn(Op, Plain, Plain) -> Plain>(
    fpu: &Fpu<A>,
    status: u8,
    d1: u8,
    d2: u8,
) -> MidiAction {
    if status & 0xf0 == 0xe0 {
        MidiAction::Bend(
            fpu.div(fpu.sub(Plain::from_int(bend_word(d1, d2) as i64), num(F8192)), num(F8192)),
        )
    } else if status & 0xf0 == 0xb0 && d1 == 1 {
        MidiAction::Wheel(fpu.div(Plain::from_int(d2 as i64), num(F127)))
    } else {
        MidiAction::Nothing
    }
}

/// Read a raw MIDI message: a pitch bend, the modulation wheel (controller 1), or
/// nothing that matters. The channel makes no difference.
#[verifier::when_used_as_spec(spec_midi_action)]
pub fn midi_action<A: Fn(Op, Plain, Plain) -> Plain>(
    fpu: &Fpu<A>,
    status: u8,
    d1: u8,
    d2: u8,
) -> (r: MidiAction)
    requires
        fpu.valid(),
    ensures
        r == midi_action(fpu, status, d1, d2),
{
    if status & 0xf0 == 0xe0 {
        MidiAction::Bend(
            fpu.div(fpu.sub(Plain::from_int(bend_word(d1, d2) as i64), num(F8192)), num(F8192)),
        )
    } else if status & 0xf0 == 0xb0 && d1 == 1 {
        MidiAction::Wheel(fpu.div(Plain::from_int(d2 as i64), num(F127)))
    } else {
        MidiAction::Nothing
    }
}

/// The channel nibble of a message makes no difference.
pub proof fn lemma_channel_is_ignored<A: Fn(Op, Plain, Plain) -> Plain>(
    fpu: &Fpu<A>,
    status: u8,
    channel: u8,
    d1: u8,
    d2: u8,
)
    requires
        channel < 16,
    ensures
        midi_action(fpu, (status & 0xf0) | channel, d1, d2) == midi_action(fpu, status, d1, d2),
{
    assert(((status & 0xf0) | channel) & 0xf0 == status & 0xf0) by (bit_vector)
        requires
            channel < 16,
    ;
}

/// The first sample at or after a lower bound, at most `frames`.
pub open spec fn start_of(bound: SampleBound, frames: usize) -> usize {
    let n = match bound {
        SampleBound::Included(n) => n as int,
        SampleBound::Excluded(n) => n + 1,
        SampleBound::Unbounded => 0,
    };
    if n < frames {
        n as usize
    } else {
        frames
    }
}

/// The sample just behind an upper bound, at most `frames`.
pub open spec fn end_of(bound: SampleBound, frames: usize) -> usize {
    let n = match bound {
        SampleBound::Included(n) => n + 1,
        SampleBound::Excluded(n) => n as int,
        SampleBound::Unbounded => frames as int,
    };
    if n < frames {
        n as usize
    } else {
        frames
    }
}

fn capped(n: usize, up: bool, frames: usize) -> (r: usize)
    ensures
        r == (if n + (if up {
            1int
        } else {
            0
        }) < frames {
            (n + (if up {
                1int
            } else {
                0
            })) as usize
        } else {
            frames
        }),
{
    if n >= frames {
        frames
    } else if up {
        n + 1
    } else {
        n
    }
}

/// The samples to render behind a batch of events: from the first to just behind the
/// last, both at most `frames`.
pub fn sample_range(start: SampleBound, end: SampleBound, frames: usize) -> (r: (usize, usize))
    ensures
        r == (start_of(start, frames), end_of(end, frames)),
        r.0 <= frames,
        r.1 <= frames,
{
    let from: usize = match start {
        SampleBound::Included(n) => capped(n, false, frames),
        SampleBound::Excluded(n) => capped(n, true, frames),
        SampleBound::Unbounded => 0,
    };
    let to: usize = match end {
        SampleBound::Included(n) => capped(n, true, frames),
        SampleBound::Excluded(n) => capped(n, false, frames),
        SampleBound::Unbounded => frames,
    };
    (from, to)
}

/// Consecutive batches, one up to a sample and one from it on, cover the samples without
/// a gap and without an overlap.
pub proof fn lemma_batches_meet(n: usize, frames: usize)
    ensures
        end_of(SampleBound::Excluded(n), frames) == start_of(SampleBound::Included(n), frames),
        start_of(SampleBound::Unbounded, frames) == 0,
        end_of(SampleBound::Unbounded, frames) == frames,
{
}

/// What the host is told about a parameter.
#[derive(Clone, Copy, Debug)]
pub struct ParamInfo {
    pub id: usize,
    pub stepped: bool,
    pub name: &'static str,
    pub module: &'static str,
    pub min: Plain,
    pub max: Plain,
    pub default: Plain,
}

/// Describe the parameter with an id. Everything that is not continuous is stepped.
pub fn get_info(id: usize) -> (r: Option<ParamInfo>)
    ensures
        r is Some <==> id < TOTAL_PARAMS,
        r matches Some(info) ==> {
            let d = desc_for_clap_id(id)->0;
            info == ParamInfo {
                id,
                stepped: !(d.kind is Float),
                name: d.label,
                module: module_for_clap_id(id),
                min: d.min,
                max: d.max,
                default: d.default,
            }
        },
{
    match desc_for_clap_id(id) {
        Some(d) => {
            let stepped: bool = match d.kind {
                ParamKind::Float { .. } => false,
                _ => true,
            };
            Some(
                ParamInfo {
                    id,
                    stepped,
                    name: d.label,
                    module: module_for_clap_id(id),
                    min: d.min,
                    max: d.max,
                    default: d.default,
                },
            )
        },
        None => None,
    }
}

/// The stored value of a parameter, if the id stands for one.
pub fn get_value(shared: &SharedParams, id: usize) -> (r: Option<Plain>)
    ensures
        id < TOTAL_PARAMS ==> r == Some(shared.values@[id as int]),
        id >= TOTAL_PARAMS ==> r is None,
{
    if id < TOTAL_PARAMS {
        Some(shared.get(id))
    } else {
        None
    }
}

/// How a value of a parameter is shown, if the id stands for one.
pub fn value_to_text(id: usize, value: Plain) -> (r: Option<DisplayText>)
    ensures
        r is Some <==> id < TOTAL_PARAMS,
        r matches Some(t) ==> t == desc_for_clap_id(id)->0.display(value),
{
    match desc_for_clap_id(id) {
        Some(d) => Some(d.display(value)),
        None => None,
    }
}

/// The text of a value. `rounded` is the number of a decimal, rounded to its places.
pub open spec fn shown(text: DisplayText, rounded: Seq<char>) -> Seq<char> {
    match text {
        DisplayText::Word(word) => word@,
        DisplayText::Whole { count, unit } => text::decimal(count as int) + seq![' '] + unit@,
        DisplayText::Decimal { unit, .. } => if unit@.len() == 0 {
            rounded
        } else {
            rounded + seq![' '] + unit@
        },
    }
}

/// The text of a value: a word, a whole number before its unit, or a decimal before its unit if
/// it has one.
pub fn show(text: DisplayText, rounded: Vec<char>) -> (r: Vec<char>)
    ensures
        r@ == shown(text, rounded@),
{
    match text {
        DisplayText::Word(word) => {
            let mut r: Vec<char> = Vec::new();
            push_text(&mut r, word);
            assert(r@ =~= word@);
            r
        },
        DisplayText::Whole { count, unit } => {
            let mut r = decimal_text(count);
            r.push(' ');
            push_text(&mut r, unit);
            assert(r@ =~= text::decimal(count as int) + seq![' '] + unit@);
            r
        },
        DisplayText::Decimal { unit, .. } => {
            let mut r = rounded;
            if unit.unicode_len() > 0 {
                r.push(' ');
                push_text(&mut r, unit);
                assert(r@ =~= rounded@ + seq![' '] + unit@);
            }
            r
        },
    }
}

pub open spec fn spec_is_numeric(c: char) -> bool {
    ('0' <= c && c <= '9') || c == '.' || c == '-'
}

/// Whether a character can be part of a number.
#[verifier::when_used_as_spec(spec_is_numeric)]
pub fn is_numeric(c: char) -> (r: bool)
    ensures
        r == is_numeric(c),
{
    ('0' <= c && c <= '9') || c == '.' || c == '-'
}

/// The longest numeric beginning of a text.
pub open spec fn numeric_prefix(s: Seq<char>) -> Seq<char>
    decreases s.len(),
{
    if s.len() > 0 && is_numeric(s[0]) {
        seq![s[0]] + numeric_prefix(s.skip(1))
    } else {
        Seq::empty()
    }
}

/// The leading number of a text without surrounding space: what stands before any
/// unit.
pub fn numeric_token(text: &str) -> (r: Vec<char>)
    ensures
        r@ == numeric_prefix(text@),
        forall|i: int| 0 <= i < r@.len() ==> is_numeric(#[trigger] r@[i]),
        r@.len() <= text@.len(),
        r@.len() < text@.len() ==> !is_numeric(text@[r@.len() as int]),
{
    let n: usize = text.unicode_len();
    let mut r: Vec<char> = Vec::new();
    let mut i: usize = 0;
    proof {
        assert(Seq::<char>::empty() + numeric_prefix(text@.skip(0)) =~= numeric_prefix(text@)) by {
            assert(text@.skip(0) =~= text@);
        }
    }
    while i < n && is_numeric(text.get_char(i))
        invariant
            i <= n == text@.len(),
            r@.len() == i,
            forall|j: int| 0 <= j < i ==> is_numeric(#[trigger] r@[j]),
            r@ + numeric_prefix(text@.skip(i as int)) == numeric_prefix(text@),
        decreases n - i,
    {
        let c = text.get_char(i);
        let ghost before = r@;
        let ghost rest = text@.skip(i as int);
        r.push(c);
        i = i + 1;
        proof {
            assert(rest[0] == c);
            assert(rest.skip(1) =~= text@.skip(i as int));
            assert(before.push(c) + numeric_prefix(text@.skip(i as int)) =~= before + (seq![c]
                + numeric_prefix(text@.skip(i as int))));
        }
    }
    proof {
        assert(numeric_prefix(text@.skip(i as int)) =~= Seq::empty());
        assert(r@ + Seq::empty() =~= r@);
    }
    r
}

/// A pitch bend is its word counted from the middle, over the half range: nothing in the middle,
/// minus one at the bottom, and just under one at the top.
pub proof fn lemma_bend_value<A: Fn(Op, Plain, Plain) -> Plain>(
    fpu: &Fpu<A>,
    status: u8,
    d1: u8,
    d2: u8,
    r: Plain,
)
    requires
        fpu.rounds(),
        status & 0xf0 == 0xe0,
        d1 < 128 && d2 < 128,
        r.is_number(),
        r.scaled() * 8192 == (128 * d2 + d1 - 8192) * plain::unit(),
    ensures
        midi_action(fpu, status, d1, d2) matches MidiAction::Bend(b) && b.equals(r),
{
    lemma_bend_word_is_positional(d1, d2);
    plain::lemma_small_values();
    vstd::arithmetic::power2::lemma2_to64();
    plain::lemma_whole_value(F8192, 8192, 10);
    let n = 128 * d2 + d1;
    let word = Plain::from_int(n as i64);
    plain::lemma_count_exists(n as int);
    plain::lemma_exact_count(n as int);
    let m = if n >= 8192 {
        n - 8192
    } else {
        8192 - n
    };
    let c = plain::count(false, m as int);
    plain::lemma_count_exists(m as int);
    plain::lemma_exact_count(m as int);
    crate::math::lemma_whole_is_number(c, m as int);
    plain::lemma_neg_scaled(c);
    let way = if n >= 8192 {
        c
    } else {
        c.neg()
    };
    let u = plain::unit();
    assert((n as int) * u - 8192 * u == (n - 8192) * u && (8192 - n) * u == -((n - 8192) * u))
        by (nonlinear_arith);
    fpu.lemma_sub_side(word, num(F8192), way);
    let d = fpu.sub(word, num(F8192));
    plain::lemma_equal_scaled(d, way);
    let s = r.scaled();
    assert(s * (8192 * u) == (s * 8192) * u) by (nonlinear_arith);
    fpu.lemma_div_side(d, num(F8192), r);
}

/// The modulation wheel runs from nothing to one and never back.
pub proof fn lemma_wheel_rises<A: Fn(Op, Plain, Plain) -> Plain>(
    fpu: &Fpu<A>,
    status: u8,
    low: u8,
    high: u8,
)
    requires
        fpu.rounds(),
        status & 0xf0 == 0xb0,
        low <= high <= 127,
    ensures
        ({
            let a = midi_action(fpu, status, 1, low);
            let b = midi_action(fpu, status, 1, high);
            &&& a is Wheel && b is Wheel
            &&& a->Wheel_0.at_most(b->Wheel_0)
            &&& low == 0 ==> a->Wheel_0.is_zero()
            &&& high == 127 ==> b->Wheel_0 == num(ONE)
        }),
{
    assert(status & 0xf0 != 0xe0) by (bit_vector)
        requires
            status & 0xf0 == 0xb0,
    ;
    plain::lemma_small_values();
    vstd::arithmetic::power2::lemma2_to64();
    plain::lemma_whole_value(F127, 127, 17);
    let (x, y) = (Plain::from_int(low as i64), Plain::from_int(high as i64));
    plain::lemma_count_exists(low as int);
    plain::lemma_exact_count(low as int);
    plain::lemma_count_exists(high as int);
    plain::lemma_exact_count(high as int);
    let u = plain::unit();
    let (s, t) = (low as int, high as int);
    assert((s * u) * (127 * u) <= (t * u) * (127 * u)) by (nonlinear_arith)
        requires
            s <= t,
            u > 0,
    ;
    fpu.lemma_div_order(x, num(F127), y, num(F127));
    if low == 0 {
        assert((s * u) * u == 0 * (127 * u)) by (nonlinear_arith)
            requires
                s == 0,
        ;
        fpu.lemma_div_side(x, num(F127), num(ZERO));
    }
    if high == 127 {
        assert((t * u) * u == u * (127 * u)) by (nonlinear_arith)
            requires
                t == 127,
        ;
        fpu.lemma_div_side(y, num(F127), num(ONE));
    }
}

/// Other messages ask for nothing.
pub proof fn lemma_other_messages_ask_nothing<A: Fn(Op, Plain, Plain) -> Plain>(
    fpu: &Fpu<A>,
    status: u8,
    d1: u8,
    d2: u8,
)
    ensures
        status & 0xf0 != 0xe0 && (status & 0xf0 != 0xb0 || d1 != 1) ==> midi_action(
            fpu,
            status,
            d1,
            d2,
        ) is Nothing,
{
}

} // verus!
