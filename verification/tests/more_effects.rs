use std::collections::HashMap;
use midi_patcher::midi::MidiMessage;
use midi_patcher::effects::effect::Effect;
use midi_patcher::effects::pedal_melody::PedalMelody;
use midi_patcher::effects::button_melody::ButtonMultiMelody;
use midi_patcher::effects::any_effect::AnyEffect;
use midi_patcher::effects::control_forwarder::ControlForwarder;

const MS: u64 = 1_000_000;

fn msg(status: u8, data1: u8, data2: u8) -> MidiMessage {
    MidiMessage { status, data1, data2 }
}

fn notes(out: &[midi_patcher::midi::OutputEvent]) -> Vec<MidiMessage> {
    out.iter().map(|e| e.message).collect()
}

#[test]
fn pedal_melody_changes_note_with_pedal() {
    let mut p = PedalMelody::new("Pedal", "synth", &[72, 74, 76]);
    // Fully pressed: the first note.
    assert_eq!(notes(&p.on_midi_event("Pedal", msg(0xB0, 4, 127), 0)), vec![msg(0x90, 72, 127)]);
    // The same note again sends nothing.
    assert!(p.on_midi_event("Pedal", msg(0xB0, 4, 125), 0).is_empty());
    // Half way: the middle note on, the first off.
    assert_eq!(notes(&p.on_midi_event("Pedal", msg(0xB0, 4, 60), 0)), vec![msg(0x90, 74, 127), msg(0x80, 72, 0x40)]);
    // Released: the last note.
    assert_eq!(notes(&p.on_midi_event("Pedal", msg(0xB0, 4, 0), 0)), vec![msg(0x90, 76, 127), msg(0x80, 74, 0x40)]);
    // Other devices are ignored.
    assert!(p.on_midi_event("Keys", msg(0xB0, 4, 127), 0).is_empty());
}

#[test]
fn pedal_melody_of_one_note_stops_on_release() {
    let mut p = PedalMelody::new_with_treshholds("Pedal", "synth", &[60], 1, 127);
    assert_eq!(notes(&p.on_midi_event("Pedal", msg(0xB0, 4, 126), 0)), vec![msg(0x90, 60, 127)]);
    assert_eq!(notes(&p.on_midi_event("Pedal", msg(0xB0, 4, 3), 0)), vec![msg(0x80, 60, 0x40)]);
}

#[test]
fn multi_melody_plays_the_melody_of_its_base_note() {
    let mut by_base: HashMap<i8, Vec<i8>> = HashMap::new();
    by_base.insert(48, vec![0, 4]);
    by_base.insert(50, vec![3]);
    let mut m = ButtonMultiMelody::new("Pads", vec![36], "synth", by_base, 48, 1000 * MS, 0);
    assert_eq!(notes(&m.on_midi_event("Pads", msg(0x90, 36, 90), 1 * MS)), vec![msg(0x90, 48, 90)]);
    assert_eq!(notes(&m.on_midi_event("Pads", msg(0x80, 36, 0), 2 * MS)), vec![msg(0x80, 48, 0x40)]);
    assert_eq!(notes(&m.on_midi_event("Pads", msg(0x90, 36, 90), 3 * MS)), vec![msg(0x90, 52, 90)]);
    assert_eq!(notes(&m.stop()), vec![msg(0x80, 52, 0x40)]);
}

#[test]
fn multi_melody_without_melody_for_base_note_is_silent() {
    let mut m = ButtonMultiMelody::new("Pads", vec![36], "synth", HashMap::new(), 48, 1000 * MS, 0);
    assert!(m.on_midi_event("Pads", msg(0x90, 36, 90), 1 * MS).is_empty());
}

#[test]
fn any_effect_dispatches_to_its_effect() {
    let mut e = AnyEffect::ControlForwarder(ControlForwarder::new("Pedal", "synth", 74));
    assert!(e.can_handle("Pedal", msg(0xB0, 1, 5), 0));
    assert_eq!(notes(&e.on_midi_event("Pedal", msg(0xB0, 1, 5), 0)), vec![msg(0xB0, 74, 5)]);
    assert!(!e.is_running());
}
