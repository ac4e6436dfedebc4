use midi_patcher::midi::{
    MidiMessage, is_note_on, is_note_off, is_control_change, send_midi, control_change, pitch_wheel,
    play_note_on, play_note_off, no_events, byte_in, same_name, name_contains,
};
use midi_patcher::virtual_midi::{all_notes_off, find_output_port};

fn msg(status: u8, data1: u8, data2: u8) -> MidiMessage {
    MidiMessage { status, data1, data2 }
}

#[test]
fn note_on_is_first_channel_or_sounding_drum_channel() {
    assert!(is_note_on(msg(0x90, 60, 100)));
    assert!(is_note_on(msg(0x90, 60, 0)));
    assert!(is_note_on(msg(0x99, 36, 1)));
    assert!(!is_note_on(msg(0x99, 36, 0)));
    assert!(!is_note_on(msg(0x91, 60, 100)));
    assert!(!is_note_on(msg(0x80, 60, 64)));
}

#[test]
fn note_off_is_first_or_drum_channel() {
    assert!(is_note_off(msg(0x80, 60, 64)));
    assert!(is_note_off(msg(0x89, 36, 0)));
    assert!(!is_note_off(msg(0x81, 60, 64)));
    assert!(!is_note_off(msg(0x90, 60, 0)));
}

#[test]
fn control_change_is_any_channel() {
    assert!(is_control_change(msg(0xB0, 74, 10)));
    assert!(is_control_change(msg(0xBF, 74, 10)));
    assert!(!is_control_change(msg(0xAF, 74, 10)));
    assert!(!is_control_change(msg(0xC0, 74, 10)));
}

#[test]
fn output_events_carry_their_messages() {
    let e = send_midi("synth", msg(0xE0, 1, 2));
    assert_eq!(e.output, "synth");
    assert_eq!(e.message, msg(0xE0, 1, 2));
    assert!(!e.visualize);

    let e = control_change("synth", 74, 99);
    assert_eq!(e.message, msg(0xB0, 74, 99));
    assert!(!e.visualize);

    let e = pitch_wheel("synth", 0, 64);
    assert_eq!(e.message, msg(0xE0, 0, 64));
    assert!(!e.visualize);

    let e = play_note_on("synth", 60, 127);
    assert_eq!(e.message, msg(0x90, 60, 127));
    assert!(e.visualize);

    let e = play_note_off("synth", 60);
    assert_eq!(e.message, msg(0x80, 60, 0x40));
    assert!(e.visualize);

    assert!(no_events().is_empty());
}

#[test]
fn byte_membership() {
    assert!(byte_in(&[1, 2, 3], 2));
    assert!(!byte_in(&[1, 2, 3], 4));
    assert!(!byte_in(&[], 0));
}

#[test]
fn names_and_substrings() {
    assert!(same_name("USB MIDI", "USB MIDI"));
    assert!(!same_name("USB MIDI", "USB MIDl"));
    assert!(!same_name("USB", "USB MIDI"));
    assert!(name_contains("Arturia KeyStep 32", "KeyStep"));
    assert!(name_contains("KeyStep", "KeyStep"));
    assert!(name_contains("anything", ""));
    assert!(!name_contains("Key", "KeyStep"));
    assert!(!name_contains("Arturia KeyStep", "keystep"));
}

#[test]
fn all_notes_off_message() {
    assert_eq!(all_notes_off(), msg(176, 123, 0));
}

#[test]
fn output_port_is_first_containing_name() {
    let ports = vec!["Midi Through".to_string(), "microKORG XL".to_string(), "microKORG 2".to_string()];
    assert_eq!(find_output_port(&ports, "microKORG"), Some(1));
    assert_eq!(find_output_port(&ports, "Through"), Some(0));
    assert_eq!(find_output_port(&ports, "Nord"), None);
    assert_eq!(find_output_port(&vec![], "Nord"), None);
}
