//! What a host sees: its events, its blocks, its parameters.
use vxn1::domain::{KeyMode, Layer};
use vxn1::fpu::{Fpu, Op};
use vxn1::local::EditEvent;
use vxn1::params::{
    global_clap_id, patch_clap_id, DisplayText, GlobalParam, PatchParam, TOTAL_PARAMS,
};
use vxn1::plain::Plain;
use vxn1::processor::{Batch, Processor};
use vxn1::shared::SharedParams;
use vxn1::shell::{
    bend_word, get_info, get_value, midi_action, numeric_token, sample_range, show, value_to_text,
    InputEvent, MidiAction, SampleBound,
};
use vxn1::synth::LimiterStep;
use vxn1::text::decimal_text;

type Unit = Fpu<fn(Op, Plain, Plain) -> Plain>;

/// Hardware arithmetic, with results too small to be normal flushed to zero.
fn hardware(op: Op, a: Plain, b: Plain) -> Plain {
    let x = f32::from_bits(a.bits);
    let y = f32::from_bits(b.bits);
    let r = match op {
        Op::Add => x + y,
        Op::Subtract => x - y,
        Op::Multiply => x * y,
        Op::Divide => x / y,
        Op::Power => x.powf(y),
        Op::SquareRoot => x.sqrt(),
        Op::Exponential => x.exp(),
        Op::Logarithm => x.ln(),
        Op::Sine => x.sin(),
        Op::Cosine => x.cos(),
        Op::Tangent => x.tan(),
    };
    if r.is_nan() {
        Plain { bits: 0x7fc0_0000 }
    } else if r.is_subnormal() {
        Plain { bits: r.to_bits() & 0x8000_0000 }
    } else {
        Plain { bits: r.to_bits() }
    }
}

fn unit() -> Unit {
    Fpu { alu: hardware }
}

fn plain(x: f32) -> Plain {
    Plain { bits: x.to_bits() }
}

fn float(x: Plain) -> f32 {
    f32::from_bits(x.bits)
}

fn store() -> SharedParams {
    SharedParams::new()
}

fn processor(shared: &SharedParams, max_frames: u32) -> Processor {
    Processor::new(&unit(), shared, plain(48_000.0), max_frames)
}

fn quiet(frames: usize) -> Vec<Batch> {
    vec![Batch {
        events: vec![],
        start: SampleBound::Included(0),
        end: SampleBound::Excluded(frames),
    }]
}

fn all_zero(x: &[Plain]) -> bool {
    x.iter().all(|s| float(*s) == 0.0)
}

fn text(chars: Vec<char>) -> String {
    chars.into_iter().collect()
}

#[test]
fn bend_words_put_the_second_byte_high() {
    assert_eq!(bend_word(0, 0), 0);
    assert_eq!(bend_word(1, 0), 1);
    assert_eq!(bend_word(0, 1), 128);
    assert_eq!(bend_word(127, 127), 16_383);
    assert_eq!(bend_word(5, 9), 128 * 9 + 5);
}

#[test]
fn midi_bend_is_centred_and_signed() {
    let u = unit();
    assert_eq!(midi_action(&u, 0xe0, 0, 64), MidiAction::Bend(plain(0.0)));
    assert_eq!(midi_action(&u, 0xe0, 0, 0), MidiAction::Bend(plain(-1.0)));
    assert_eq!(midi_action(&u, 0xe0, 127, 127), MidiAction::Bend(plain(8191.0 / 8192.0)));
}

#[test]
fn midi_channel_makes_no_difference() {
    let u = unit();
    for channel in 0..16u8 {
        assert_eq!(midi_action(&u, 0xe0 | channel, 3, 70), midi_action(&u, 0xe0, 3, 70));
        assert_eq!(midi_action(&u, 0xb0 | channel, 1, 70), midi_action(&u, 0xb0, 1, 70));
    }
}

#[test]
fn midi_wheel_is_controller_one_alone() {
    let u = unit();
    assert_eq!(midi_action(&u, 0xb0, 1, 127), MidiAction::Wheel(plain(1.0)));
    assert_eq!(midi_action(&u, 0xb0, 1, 0), MidiAction::Wheel(plain(0.0)));
    assert_eq!(midi_action(&u, 0xb0, 7, 127), MidiAction::Nothing);
    assert_eq!(midi_action(&u, 0x90, 60, 100), MidiAction::Nothing);
    assert_eq!(midi_action(&u, 0xf8, 1, 2), MidiAction::Nothing);
}

#[test]
fn sample_ranges_are_capped() {
    assert_eq!(
        sample_range(SampleBound::Included(3), SampleBound::Excluded(9), 64),
        (3, 9)
    );
    assert_eq!(
        sample_range(SampleBound::Excluded(3), SampleBound::Included(9), 64),
        (4, 10)
    );
    assert_eq!(sample_range(SampleBound::Unbounded, SampleBound::Unbounded, 64), (0, 64));
    assert_eq!(
        sample_range(SampleBound::Included(70), SampleBound::Excluded(90), 64),
        (64, 64)
    );
    assert_eq!(
        sample_range(SampleBound::Excluded(usize::MAX), SampleBound::Included(usize::MAX), 64),
        (64, 64)
    );
}

#[test]
fn adjacent_batches_meet() {
    for n in [0usize, 1, 31, 63, 64, 100] {
        let (_, end) = sample_range(SampleBound::Unbounded, SampleBound::Excluded(n), 64);
        let (start, _) = sample_range(SampleBound::Included(n), SampleBound::Unbounded, 64);
        assert_eq!(end, start);
    }
}

#[test]
fn info_covers_exactly_the_ids() {
    for id in 0..TOTAL_PARAMS {
        let info = get_info(id).unwrap();
        assert_eq!(info.id, id);
        assert!(float(info.min) < float(info.max));
        assert!(float(info.min) <= float(info.default));
        assert!(float(info.default) <= float(info.max));
    }
    assert!(get_info(TOTAL_PARAMS).is_none());
    assert!(get_info(usize::MAX).is_none());
}

#[test]
fn selectors_and_switches_are_stepped() {
    let cutoff = patch_clap_id(Layer::Lower, PatchParam::Cutoff);
    let mode = patch_clap_id(Layer::Upper, PatchParam::AssignMode);
    let chorus = global_clap_id(GlobalParam::ChorusOn);
    assert!(!get_info(cutoff).unwrap().stepped);
    assert_eq!(get_info(cutoff).unwrap().module, "Lower");
    assert!(get_info(mode).unwrap().stepped);
    assert_eq!(get_info(mode).unwrap().module, "Upper");
    assert!(get_info(chorus).unwrap().stepped);
}

#[test]
fn values_are_read_by_id() {
    let mut s = store();
    s.set(3, plain(0.25));
    assert_eq!(get_value(&s, 3), Some(s.get(3)));
    assert!(get_value(&s, TOTAL_PARAMS).is_none());
}

#[test]
fn texts_follow_the_kind() {
    let mode = patch_clap_id(Layer::Upper, PatchParam::AssignMode);
    let chorus = global_clap_id(GlobalParam::ChorusOn);
    let cutoff = patch_clap_id(Layer::Upper, PatchParam::Cutoff);
    assert!(matches!(value_to_text(mode, plain(0.0)), Some(DisplayText::Word("Poly"))));
    assert!(matches!(value_to_text(mode, plain(1.0)), Some(DisplayText::Word("Unison"))));
    assert!(matches!(value_to_text(chorus, plain(1.0)), Some(DisplayText::Word("On"))));
    assert!(matches!(value_to_text(chorus, plain(0.0)), Some(DisplayText::Word("Off"))));
    match value_to_text(cutoff, plain(440.5)) {
        Some(DisplayText::Decimal { value, places, unit }) => {
            assert_eq!(float(value), 440.5);
            assert_eq!(places, 2);
            assert_eq!(unit, "Hz");
        }
        _ => panic!("a cutoff is a decimal"),
    }
    assert!(value_to_text(TOTAL_PARAMS, plain(0.0)).is_none());
}

#[test]
fn numeric_tokens_stop_at_the_unit() {
    assert_eq!(text(numeric_token("440 Hz")), "440");
    assert_eq!(text(numeric_token("-3.5dB")), "-3.5");
    assert_eq!(text(numeric_token("12")), "12");
    assert_eq!(text(numeric_token("")), "");
    assert_eq!(text(numeric_token("On")), "");
    assert_eq!(text(numeric_token("\u{bd} beat")), "");
}

#[test]
fn notes_sound_from_their_own_sample() {
    let mut shared = store();
    shared.set(global_clap_id(GlobalParam::ChorusOn), plain(0.0));
    let mut p = processor(&shared, 256);
    let batches = vec![
        Batch {
            events: vec![],
            start: SampleBound::Included(0),
            end: SampleBound::Excluded(100),
        },
        Batch {
            events: vec![InputEvent::NoteOn { key: 60, velocity: plain(1.0) }],
            start: SampleBound::Included(100),
            end: SampleBound::Unbounded,
        },
    ];
    let out = p.process(&unit(), &mut shared, None, &batches, 256);
    assert_eq!(out.frames, 256);
    assert_eq!(out.spans.len(), 2);
    assert_eq!((out.spans[0].start, out.spans[0].end), (0, 100));
    assert_eq!((out.spans[1].start, out.spans[1].end), (100, 256));
    assert!(all_zero(&p.scratch_l[..100]));
    assert!(!all_zero(&p.scratch_l[100..]));
    assert_eq!(p.synth.active_count(), 1);
}

#[test]
fn batches_without_samples_render_nothing() {
    let mut shared = store();
    let mut p = processor(&shared, 64);
    let batches = vec![Batch {
        events: vec![InputEvent::NoteOn { key: 60, velocity: plain(1.0) }],
        start: SampleBound::Included(64),
        end: SampleBound::Unbounded,
    }];
    let out = p.process(&unit(), &mut shared, None, &batches, 64);
    assert_eq!(out.spans.len(), 0);
    assert_eq!(p.synth.active_count(), 1);
}

#[test]
fn blocks_are_held_to_the_buffers() {
    let mut shared = store();
    let mut p = processor(&shared, 64);
    let out = p.process(&unit(), &mut shared, None, &quiet(200), 200);
    assert_eq!(out.frames, 64);
    assert_eq!((out.spans[0].start, out.spans[0].end), (0, 64));
    let out = p.process(&unit(), &mut shared, None, &quiet(10), 10);
    assert_eq!(out.frames, 10);
}

#[test]
fn automation_is_published_and_not_echoed() {
    let mut shared = store();
    let mut p = processor(&shared, 64);
    let cutoff = patch_clap_id(Layer::Upper, PatchParam::Cutoff);
    let batches = vec![Batch {
        events: vec![InputEvent::Param { id: cutoff, value: plain(1234.0) }],
        start: SampleBound::Included(0),
        end: SampleBound::Unbounded,
    }];
    let out = p.process(&unit(), &mut shared, None, &batches, 64);
    assert!(out.edits.is_empty());
    assert_eq!(float(shared.get(cutoff)), 1234.0);
    assert_eq!(float(p.synth.params().get_by_clap_id(cutoff)), 1234.0);
    let out = p.process(&unit(), &mut shared, None, &quiet(64), 64);
    assert!(out.edits.is_empty());
}

#[test]
fn automation_of_no_parameter_is_ignored() {
    let mut shared = store();
    let mut p = processor(&shared, 64);
    let before: Vec<Plain> = shared.values.to_vec();
    let batches = vec![Batch {
        events: vec![InputEvent::Param { id: TOTAL_PARAMS, value: plain(1.0) }],
        start: SampleBound::Included(0),
        end: SampleBound::Unbounded,
    }];
    let out = p.process(&unit(), &mut shared, None, &batches, 64);
    assert!(out.edits.is_empty());
    assert_eq!(before, shared.values.to_vec());
}

#[test]
fn edits_are_told_in_a_gesture_of_their_own() {
    let mut shared = store();
    let mut p = processor(&shared, 64);
    let cutoff = patch_clap_id(Layer::Upper, PatchParam::Cutoff);
    shared.set(cutoff, plain(777.0));
    let out = p.process(&unit(), &mut shared, None, &quiet(64), 64);
    assert_eq!(
        out.edits,
        vec![
            EditEvent::Begin { id: cutoff, time: 0 },
            EditEvent::Value { id: cutoff, time: 0, value: plain(777.0) },
            EditEvent::End { id: cutoff, time: 64 },
        ]
    );
    assert_eq!(float(p.synth.params().get_by_clap_id(cutoff)), 777.0);
    let out = p.process(&unit(), &mut shared, None, &quiet(64), 64);
    assert!(out.edits.is_empty());
}

#[test]
fn held_gestures_bracket_their_values() {
    let mut shared = store();
    let mut p = processor(&shared, 64);
    let cutoff = patch_clap_id(Layer::Upper, PatchParam::Cutoff);
    shared.set_gesture(cutoff, true);
    let out = p.process(&unit(), &mut shared, None, &quiet(64), 64);
    assert_eq!(out.edits, vec![EditEvent::Begin { id: cutoff, time: 0 }]);
    shared.set(cutoff, plain(500.0));
    let out = p.process(&unit(), &mut shared, None, &quiet(64), 64);
    assert_eq!(out.edits, vec![EditEvent::Value { id: cutoff, time: 0, value: plain(500.0) }]);
    shared.set_gesture(cutoff, false);
    let out = p.process(&unit(), &mut shared, None, &quiet(64), 64);
    assert_eq!(out.edits, vec![EditEvent::End { id: cutoff, time: 64 }]);
}

#[test]
fn tempo_is_kept_when_the_host_has_none() {
    let mut shared = store();
    let mut p = processor(&shared, 64);
    p.process(&unit(), &mut shared, Some(plain(90.0)), &quiet(64), 64);
    assert_eq!(float(p.synth.tempo_bpm), 90.0);
    p.process(&unit(), &mut shared, None, &quiet(64), 64);
    assert_eq!(float(p.synth.tempo_bpm), 90.0);
    p.process(&unit(), &mut shared, Some(plain(f32::NAN)), &quiet(64), 64);
    assert_eq!(float(p.synth.tempo_bpm), 120.0);
    p.process(&unit(), &mut shared, Some(plain(-4.0)), &quiet(64), 64);
    assert_eq!(float(p.synth.tempo_bpm), 120.0);
}

#[test]
fn keyboard_setup_follows_the_store() {
    let mut shared = store();
    let mut p = processor(&shared, 64);
    shared.set_key_mode(KeyMode::Split);
    shared.set_split_point(48);
    let batches = vec![Batch {
        events: vec![
            InputEvent::NoteOn { key: 47, velocity: plain(1.0) },
            InputEvent::NoteOn { key: 48, velocity: plain(1.0) },
            InputEvent::NoteOn { key: 90, velocity: plain(1.0) },
        ],
        start: SampleBound::Included(0),
        end: SampleBound::Unbounded,
    }];
    p.process(&unit(), &mut shared, None, &batches, 64);
    assert_eq!(p.synth.lower.active_count(), 1);
    assert_eq!(p.synth.upper.active_count(), 2);
}

#[test]
fn wheels_reach_the_instrument() {
    let mut shared = store();
    let mut p = processor(&shared, 64);
    p.hear(&unit(), InputEvent::Midi { status: 0xe2, d1: 0, d2: 0 });
    p.hear(&unit(), InputEvent::Midi { status: 0xb5, d1: 1, d2: 127 });
    assert_eq!(float(p.synth.bend_norm), -1.0);
    assert_eq!(float(p.synth.mod_wheel.target), 1.0);
    let out = p.process(&unit(), &mut shared, None, &quiet(64), 64);
    assert!(out.edits.is_empty());
}

#[test]
fn flush_takes_the_last_value() {
    let mut shared = store();
    let mut p = processor(&shared, 64);
    let cutoff = patch_clap_id(Layer::Upper, PatchParam::Cutoff);
    let events = vec![
        InputEvent::Param { id: cutoff, value: plain(300.0) },
        InputEvent::NoteOn { key: 60, velocity: plain(1.0) },
        InputEvent::Param { id: cutoff, value: plain(1.0e9) },
    ];
    p.flush(&unit(), &mut shared, &events);
    let top = float(PatchParam::Cutoff.desc().max);
    assert_eq!(float(shared.get(cutoff)), top);
    assert_eq!(float(p.synth.params().get_by_clap_id(cutoff)), top);
    assert_eq!(p.synth.active_count(), 0);
}

#[test]
fn reset_silences_and_keeps_the_settings() {
    let mut shared = store();
    let mut p = processor(&shared, 64);
    p.hear(&unit(), InputEvent::NoteOn { key: 60, velocity: plain(1.0) });
    p.process(&unit(), &mut shared, Some(plain(99.0)), &quiet(64), 64);
    assert_eq!(p.synth.active_count(), 1);
    p.reset(&unit());
    assert_eq!(p.synth.active_count(), 0);
    assert_eq!(float(p.synth.tempo_bpm), 99.0);
    p.process(&unit(), &mut shared, None, &quiet(64), 64);
    assert_eq!(p.synth.active_count(), 0);
}

#[test]
fn limiter_is_reset_each_time_it_comes_on() {
    let mut shared = store();
    let mut p = processor(&shared, 64);
    let limiter = global_clap_id(GlobalParam::LimiterOn);
    shared.set(limiter, plain(0.0));
    let out = p.process(&unit(), &mut shared, None, &quiet(64), 64);
    assert_eq!(out.spans[0].limiter, LimiterStep::Bypass);
    shared.set(limiter, plain(1.0));
    let out = p.process(&unit(), &mut shared, None, &quiet(64), 64);
    assert_eq!(out.spans[0].limiter, LimiterStep::ResetAndRun);
    let out = p.process(&unit(), &mut shared, None, &quiet(64), 64);
    assert_eq!(out.spans[0].limiter, LimiterStep::Run);
    shared.set(limiter, plain(0.0));
    let out = p.process(&unit(), &mut shared, None, &quiet(64), 64);
    assert_eq!(out.spans[0].limiter, LimiterStep::Bypass);
}

#[test]
fn untouched_samples_keep_what_they_held() {
    let mut shared = store();
    let mut p = processor(&shared, 64);
    for x in p.scratch_l.iter_mut() {
        *x = plain(7.0);
    }
    let batches = vec![Batch {
        events: vec![],
        start: SampleBound::Included(10),
        end: SampleBound::Excluded(20),
    }];
    p.process(&unit(), &mut shared, None, &batches, 64);
    assert!(p.scratch_l[..10].iter().all(|x| float(*x) == 7.0));
    assert!(all_zero(&p.scratch_l[10..20]));
    assert!(p.scratch_l[20..].iter().all(|x| float(*x) == 7.0));
}

#[test]
fn new_threads_hold_a_new_instrument() {
    let mut shared = store();
    shared.set(patch_clap_id(Layer::Upper, PatchParam::Resonance), plain(0.75));
    let p = processor(&shared, 64);
    assert_eq!(float(p.synth.sample_rate), 48_000.0);
    assert_eq!(p.synth.active_count(), 0);
    for v in 0..8 {
        assert_eq!(p.synth.upper.gated_note(v), None);
        assert_eq!(p.synth.lower.gated_note(v), None);
    }
    assert_eq!(float(p.synth.bend_norm), 0.0);
    assert_eq!(float(p.synth.mod_wheel.value), 0.0);
    assert_eq!(float(p.synth.mod_wheel.target), 0.0);
    assert_eq!(p.synth.key_mode(), KeyMode::Whole);
    assert_eq!(p.synth.split_point, 60);
    assert_eq!(float(p.synth.tempo_bpm), 120.0);
    assert_eq!(p.synth.alloc_counter, 0);
    assert_eq!(p.synth.rr_layer, 0);
    assert_eq!(p.synth.last_os, 1);
    assert!(!p.synth.limiter_was_on);
    assert!(all_zero(&p.scratch_l) && all_zero(&p.scratch_r));
    let resonance = patch_clap_id(Layer::Upper, PatchParam::Resonance);
    assert_eq!(float(p.local.values[resonance]), 0.75);
    assert_eq!(
        p.synth.params.upper.get(PatchParam::Resonance),
        PatchParam::Resonance.desc().default
    );
}

#[test]
fn new_threads_play_alike() {
    let u = unit();
    let events = vec![InputEvent::NoteOn { key: 57, velocity: plain(0.9) }];
    let mut heard = vec![];
    for _ in 0..2 {
        let mut shared = store();
        let mut p = processor(&shared, 512);
        let batches = vec![Batch {
            events: events.clone(),
            start: SampleBound::Unbounded,
            end: SampleBound::Unbounded,
        }];
        p.process(&u, &mut shared, None, &batches, 512);
        assert!(!all_zero(&p.scratch_l));
        assert!(p.synth.alloc_counter <= 2);
        heard.push(p.scratch_l.clone());
    }
    assert_eq!(heard[0], heard[1]);
}

#[test]
fn flush_leaves_nothing_to_publish() {
    let u = unit();
    let mut shared = store();
    let mut p = processor(&shared, 64);
    let cutoff = patch_clap_id(Layer::Upper, PatchParam::Cutoff);
    p.flush(&u, &mut shared, &vec![InputEvent::Param { id: cutoff, value: plain(555.0) }]);
    assert!(p.local.host_changed.iter().all(|c| !c));
    assert_eq!(float(shared.get(cutoff)), 555.0);
    shared.set(cutoff, plain(777.0));
    p.process(&u, &mut shared, None, &quiet(64), 64);
    assert_eq!(float(shared.get(cutoff)), 777.0);
}

#[test]
fn values_are_shown_before_their_units() {
    for (n, s) in [
        (0, "0"),
        (7, "7"),
        (10, "10"),
        (-24, "-24"),
        (i64::MAX, "9223372036854775807"),
        (i64::MIN, "-9223372036854775808"),
    ] {
        assert_eq!(text(decimal_text(n)), s);
        let whole = DisplayText::Whole { count: n, unit: "st" };
        assert_eq!(text(show(whole, vec![])), format!("{n} st"));
    }
    assert_eq!(text(show(DisplayText::Word("Saw"), vec![])), "Saw");
    let number = || "1.50".chars().collect::<Vec<char>>();
    let with = DisplayText::Decimal { value: plain(1.5), places: 2, unit: "Hz" };
    assert_eq!(text(show(with, number())), "1.50 Hz");
    let without = DisplayText::Decimal { value: plain(1.5), places: 2, unit: "" };
    assert_eq!(text(show(without, number())), "1.50");
}
