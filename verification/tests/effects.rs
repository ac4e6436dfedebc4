use midi_patcher::midi::{MidiMessage, OutputEvent};
use midi_patcher::effects::effect::{Effect, Job, JobStep, MonoGroup};
use midi_patcher::effects::control_forwarder::ControlForwarder;
use midi_patcher::effects::midi_forwarder::MidiForwarder;
use midi_patcher::effects::control_multiplier::ControlMultiplier;
use midi_patcher::effects::control_to_pitch_forwarder::ControlToPitchForwarder;
use midi_patcher::effects::pedal_button::PedalButton;
use midi_patcher::effects::control_sequence_stepper::ControlSequenceStepper;
use midi_patcher::effects::note_sequencer::NoteSequencer;
use midi_patcher::effects::control_sequencer::ControlSequencer;
use midi_patcher::effects::sweep_down::SweepDown;
use midi_patcher::effects::harmony_drum::HarmonyDrum;
use midi_patcher::effects::button_melody::{ButtonMelody, HarmonyButtonMelody, melody_note, elapsed_since};
use midi_patcher::effects::button_melody_sustaining::ButtonMelodySustaining;
use midi_patcher::utils::midi_filter::MidiFilter;

const MS: u64 = 1_000_000;

fn msg(status: u8, data1: u8, data2: u8) -> MidiMessage {
    MidiMessage { status, data1, data2 }
}

fn messages(events: &[OutputEvent]) -> Vec<(String, MidiMessage, bool)> {
    events.iter().map(|e| (e.output.clone(), e.message, e.visualize)).collect()
}

#[test]
fn control_forwarder_forwards_value_of_input_device() {
    let mut f = ControlForwarder::new("Pedal", "synth", 74);
    let out = f.on_midi_event("Pedal Board", msg(0xB0, 4, 99), 0);
    assert_eq!(messages(&out), vec![("synth".to_string(), msg(0xB0, 74, 99), false)]);
    assert!(f.on_midi_event("Keys", msg(0xB0, 4, 99), 0).is_empty());
    assert!(!f.is_running());
    assert_eq!(f.mono_group(), MonoGroup::Ungrouped);
}

#[test]
fn midi_forwarder_forwards_filtered_messages() {
    let mut f = MidiForwarder::new(MidiFilter::notes("Keys"), "synth");
    let out = f.on_midi_event("Keys", msg(0x90, 60, 100), 0);
    assert_eq!(messages(&out), vec![("synth".to_string(), msg(0x90, 60, 100), false)]);
    assert!(f.on_midi_event("Keys", msg(0xB0, 60, 100), 0).is_empty());
    assert!(f.on_midi_event("Pads", msg(0x90, 60, 100), 0).is_empty());
}

#[test]
fn control_multiplier_sends_product_over_128() {
    let mut m = ControlMultiplier::new(MidiFilter::control("A", 1), MidiFilter::control("B", 2), "synth", 74);
    let out = m.on_midi_event("A", msg(0xB0, 1, 100), 0);
    assert_eq!(messages(&out), vec![("synth".to_string(), msg(0xB0, 74, 0), false)]);
    let out = m.on_midi_event("B", msg(0xB0, 2, 64), 0);
    assert_eq!(messages(&out), vec![("synth".to_string(), msg(0xB0, 74, 50), false)]);
    let out = m.on_midi_event("B", msg(0xB0, 2, 127), 0);
    assert_eq!(messages(&out), vec![("synth".to_string(), msg(0xB0, 74, 99), false)]);
    assert!(m.on_midi_event("C", msg(0xB0, 2, 127), 0).is_empty());
}

#[test]
fn control_to_pitch_forwarder_sends_pitch_wheel() {
    let mut f = ControlToPitchForwarder::new("Pedal", "synth");
    let out = f.on_midi_event("Pedal", msg(0xB0, 4, 70), 0);
    assert_eq!(messages(&out), vec![("synth".to_string(), msg(0xE0, 0, 70), false)]);
    assert!(f.on_midi_event("Keys", msg(0xB0, 4, 70), 0).is_empty());
}

#[test]
fn pedal_button_plays_once_per_press() {
    let mut p = PedalButton::new("Pedal", "drums", 36);
    assert!(p.on_midi_event("Pedal", msg(0xB0, 4, 100), 0).is_empty());
    let out = p.on_midi_event("Pedal", msg(0xB0, 4, 121), 0);
    assert_eq!(
        messages(&out),
        vec![
            ("Pedal".to_string(), msg(0xB0, 74, 121), false),
            ("drums".to_string(), msg(0x90, 36, 127), true),
            ("drums".to_string(), msg(0x80, 36, 0x40), true),
        ]
    );
    assert!(p.on_midi_event("Pedal", msg(0xB0, 4, 127), 0).is_empty());
    assert!(p.on_midi_event("Pedal", msg(0xB0, 4, 120), 0).is_empty());
    assert_eq!(p.on_midi_event("Pedal", msg(0xB0, 4, 125), 0).len(), 3);
}

#[test]
fn control_sequence_stepper_cycles_and_resets() {
    let mut s = ControlSequenceStepper::new("synth", 74, &[10, 20, 30]).with_reset_filter(MidiFilter::note("Keys", 60));
    assert_eq!(s.mono_group(), MonoGroup::ControlIndex(74));
    let mut values = Vec::new();
    for _ in 0..4 {
        let o = s.start(msg(0x90, 1, 100), 0);
        assert!(o.job.is_none());
        values.push(messages(&o.messages)[0].1.data2);
    }
    assert_eq!(values, vec![10, 20, 30, 10]);
    assert!(s.on_midi_event("Keys", msg(0x90, 60, 100), 0).is_empty());
    let o = s.start(msg(0x90, 1, 100), 0);
    assert_eq!(messages(&o.messages), vec![("synth".to_string(), msg(0xB0, 74, 10), false)]);
}

#[test]
fn note_sequencer_hands_over_its_notes() {
    let mut s = NoteSequencer::new("synth", vec![45, 57], 200 * MS, 0x7f);
    assert!(!s.is_running());
    let o = s.start(msg(0x90, 43, 100), 0);
    assert!(s.is_running());
    assert!(o.messages.is_empty());
    match o.job {
        Some(Job::Steps { steps, finally }) => {
            assert!(finally.is_empty());
            assert_eq!(steps.len(), 12);
            match &steps[0] {
                JobStep::Send(e) => assert_eq!(e.message, msg(0x90, 45, 0x7f)),
                _ => panic!("first step plays the note"),
            }
            assert!(matches!(steps[1], JobStep::Sleep(d) if d == 50 * MS));
            match &steps[2] {
                JobStep::Send(e) => assert_eq!(e.message, msg(0x80, 45, 0x40)),
                _ => panic!("third step stops the note"),
            }
            assert!(matches!(steps[3], JobStep::CheckStop));
            assert!(matches!(steps[4], JobStep::Sleep(d) if d == 150 * MS));
            assert!(matches!(steps[5], JobStep::CheckStop));
            match &steps[6] {
                JobStep::Send(e) => assert_eq!(e.message, msg(0x90, 57, 0x7f)),
                _ => panic!("second note"),
            }
        },
        _ => panic!("a note sequencer starts a job"),
    }
    assert!(s.stop().is_empty());
    assert!(!s.is_running());
    assert_eq!(s.mono_group(), MonoGroup::Note);
}

#[test]
fn control_sequencer_ends_on_stop_value() {
    let mut s = ControlSequencer::new("synth", 74, vec![30, 100], 30, 500 * MS);
    assert_eq!(s.mono_group(), MonoGroup::ControlIndex(74));
    let o = s.start(msg(0x90, 48, 100), 0);
    assert!(s.is_running());
    match o.job {
        Some(Job::Steps { steps, finally }) => {
            assert_eq!(steps.len(), 6);
            match &steps[3] {
                JobStep::Send(e) => assert_eq!(e.message, msg(0xB0, 74, 100)),
                _ => panic!("fourth step sends the second value"),
            }
            assert!(matches!(steps[4], JobStep::Sleep(d) if d == 500 * MS));
            assert_eq!(messages(&finally), vec![("synth".to_string(), msg(0xB0, 74, 30), false)]);
        },
        _ => panic!("a control sequencer starts a job"),
    }
    s.stop();
    assert!(!s.is_running());
}

#[test]
fn sweep_down_starts_at_trigger_velocity() {
    let mut s = SweepDown::new("synth", 30, 74);
    let o = s.start(msg(0x90, 50, 90), 0);
    assert!(s.is_running());
    match o.job {
        Some(Job::Sweep { output, control_index, velocity, min_value }) => {
            assert_eq!(output, "synth");
            assert_eq!((control_index, velocity, min_value), (74, 90, 30));
        },
        _ => panic!("a sweep down starts a sweep"),
    }
    s.stop();
    assert!(!s.is_running());
}

#[test]
fn harmony_drum_plays_interval_over_harmony_note() {
    let mut d = HarmonyDrum::new("Keys", "drums", (36, 60), vec![0, 7], 100 * MS, 50 * MS, 1000 * MS, 0);
    assert!(d.on_midi_event("Keys", msg(0x90, 40, 100), 0).is_empty());
    let o = d.start(msg(0x99, 36, 90), 100 * MS);
    assert_eq!(messages(&o.messages), vec![("drums".to_string(), msg(0x90, 40, 90), true)]);
    match o.job {
        Some(Job::Steps { steps, .. }) => {
            assert!(matches!(steps[0], JobStep::Sleep(d) if d == 100 * MS));
            match &steps[1] {
                JobStep::Send(e) => assert_eq!(e.message, msg(0x80, 40, 0x40)),
                _ => panic!("the job ends the note"),
            }
        },
        _ => panic!("a drum note is ended by a job"),
    }
    // A bounce plays nothing.
    let o = d.start(msg(0x99, 36, 90), 110 * MS);
    assert!(o.messages.is_empty() && o.job.is_none());
    let o = d.start(msg(0x99, 36, 90), 300 * MS);
    assert_eq!(o.messages[0].message, msg(0x90, 47, 90));
    // After a long pause the intervals start over.
    let o = d.start(msg(0x99, 36, 90), 2000 * MS);
    assert_eq!(o.messages[0].message, msg(0x90, 40, 90));
    // Notes outside the range do not change the harmony note.
    d.on_midi_event("Keys", msg(0x90, 70, 100), 0);
    let o = d.start(msg(0x99, 36, 90), 2200 * MS);
    assert_eq!(o.messages[0].message, msg(0x90, 47, 90));
}

#[test]
fn melody_notes_wrap_as_bytes() {
    assert_eq!(melody_note(7, 48), 55);
    assert_eq!(melody_note(-12, 48), 36);
    assert_eq!(melody_note(-1, 0), 255);
    assert_eq!(elapsed_since(5, 12), 7);
    assert_eq!(elapsed_since(12, 5), 0);
}

#[test]
fn button_melody_plays_next_note_per_press() {
    let mut b = ButtonMelody::new("Pads", vec![36, 38], "synth", vec![0, 7, 12], 48, 1000 * MS, 0);
    let out = b.on_midi_event("Pads", msg(0x90, 36, 100), 10 * MS);
    assert_eq!(messages(&out), vec![("synth".to_string(), msg(0x90, 48, 100), true)]);
    let out = b.on_midi_event("Pads", msg(0x80, 36, 64), 20 * MS);
    assert_eq!(messages(&out), vec![("synth".to_string(), msg(0x80, 48, 0x40), true)]);
    let out = b.on_midi_event("Pads", msg(0x90, 38, 100), 30 * MS);
    assert_eq!(out[0].message, msg(0x90, 55, 100));
    // Other buttons are ignored.
    assert!(b.on_midi_event("Pads", msg(0x90, 40, 100), 40 * MS).is_empty());
    // A pause longer than the reset duration starts the melody over.
    let out = b.on_midi_event("Pads", msg(0x90, 36, 100), 3000 * MS);
    assert_eq!(out[0].message, msg(0x90, 48, 100));
    let stopped = b.stop();
    assert_eq!(messages(&stopped), vec![("synth".to_string(), msg(0x80, 48, 0x40), true)]);
    assert!(b.stop().is_empty());
}

#[test]
fn button_melody_reset_filter_starts_over() {
    let mut b = ButtonMelody::new("Pads", vec![36], "synth", vec![0, 7], 48, 1000 * MS, 0)
        .with_reset_filter(MidiFilter::note("Keys", 21));
    b.on_midi_event("Pads", msg(0x90, 36, 100), 1 * MS);
    b.on_midi_event("Keys", msg(0x90, 21, 100), 2 * MS);
    let out = b.on_midi_event("Pads", msg(0x90, 36, 100), 3 * MS);
    assert_eq!(out.last().unwrap().message, msg(0x90, 48, 100));
}

#[test]
fn harmony_button_melody_follows_harmony_input() {
    let melody = ButtonMelody::new("Pads", vec![36], "synth", vec![0, 4], 0, 1000 * MS, 0);
    let mut h = HarmonyButtonMelody::new(MidiFilter::notes("Keys"), Some(MidiFilter::note("Pads", 40)), vec![melody], false);
    assert!(h.on_midi_event("Pads", msg(0x90, 36, 100), 1 * MS).is_empty());
    assert!(h.on_midi_event("Keys", msg(0x90, 50, 100), 2 * MS).is_empty());
    let out = h.on_midi_event("Pads", msg(0x90, 36, 100), 3 * MS);
    assert_eq!(out[0].message, msg(0x90, 50, 100));
    let out = h.on_midi_event("Pads", msg(0x90, 40, 100), 4 * MS);
    assert_eq!(messages(&out), vec![("synth".to_string(), msg(0x80, 50, 0x40), true)]);
    assert!(h.on_midi_event("Pads", msg(0x90, 36, 100), 5 * MS).is_empty());
}

#[test]
fn sustaining_melody_holds_each_note_until_the_next() {
    let mut b = ButtonMelodySustaining::new("Pads", 36, 38, "synth", vec![48, 55], 1000 * MS, 50 * MS, 0);
    let out = b.on_midi_event("Pads", msg(0x90, 36, 100), 100 * MS);
    assert_eq!(messages(&out), vec![("synth".to_string(), msg(0x90, 48, 100), true)]);
    // A bounce is ignored.
    assert!(b.on_midi_event("Pads", msg(0x90, 36, 100), 110 * MS).is_empty());
    let out = b.on_midi_event("Pads", msg(0x90, 36, 100), 200 * MS);
    assert_eq!(
        messages(&out),
        vec![
            ("synth".to_string(), msg(0x90, 55, 100), true),
            ("synth".to_string(), msg(0x80, 48, 0x40), true),
        ]
    );
    let out = b.on_midi_event("Pads", msg(0x90, 38, 100), 300 * MS);
    assert_eq!(messages(&out), vec![("synth".to_string(), msg(0x80, 55, 0x40), true)]);
}

#[test]
fn stepper_cycles_over_many_rounds() {
    let mut s = ControlSequenceStepper::new("synth", 18, &[64, 95]);
    let mut values = Vec::new();
    for k in 0..7u8 {
        let o = s.start(msg(0x90, k, k), k as u64);
        values.push(o.messages[0].message.data2);
    }
    assert_eq!(values, vec![64, 95, 64, 95, 64, 95, 64]);
}

#[test]
fn drum_intervals_cycle_over_accepted_starts() {
    let mut d = HarmonyDrum::new("Keys", "drums", (36, 60), vec![0, 4, 7], 10 * MS, 50 * MS, 1000 * MS, 0);
    let mut played = Vec::new();
    for t in [100u64, 120, 200, 300, 400, 500] {
        let o = d.start(msg(0x99, 36, 90), t * MS);
        played.push(o.messages.first().map(|e| e.message.data1));
    }
    assert_eq!(played, vec![Some(48), None, Some(52), Some(55), Some(48), Some(52)]);
}
