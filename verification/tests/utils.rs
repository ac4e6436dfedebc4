use midi_patcher::utils;
use midi_patcher::utils::midi_filter::{MidiFilter, FilterType};
use midi_patcher::trigger::Trigger;
use midi_patcher::midi::MidiMessage;
use midi_patcher::songs;

fn msg(status: u8, data1: u8, data2: u8) -> MidiMessage {
    MidiMessage { status, data1, data2 }
}

#[test]
fn repeats_a_pattern() {
    assert_eq!(utils::repeated(&[45u8, 57], 3), vec![45, 57, 45, 57, 45, 57]);
    assert_eq!(utils::repeated(&[1u8, 2], 0), Vec::<u8>::new());
    assert_eq!(utils::repeated::<u8>(&[], 4), Vec::<u8>::new());
}

#[test]
fn transposes_notes() {
    assert_eq!(utils::add(vec![45, 47, 53], 24), vec![69, 71, 77]);
    assert_eq!(utils::add(vec![], 12), Vec::<u8>::new());
    assert_eq!(utils::add(vec![200], 55), vec![255]);
}

#[test]
fn concatenates_parts_in_order() {
    assert_eq!(utils::concat(vec![vec![1u8, 2], vec![], vec![3]]), vec![1, 2, 3]);
    assert_eq!(utils::concat(Vec::<Vec<u8>>::new()), Vec::<u8>::new());
}

#[test]
fn song_add_transposes_signed_intervals() {
    assert_eq!(songs::add(vec![-12, 0, 7], 48), vec![36, 48, 55]);
    assert_eq!(songs::add(vec![100], 100), vec![200]);
}

#[test]
fn note_filter_matches_one_note_of_device() {
    let f = MidiFilter::note("KeyStep", 60);
    assert!(f.matches("Arturia KeyStep 32", msg(0x90, 60, 100)));
    assert!(f.matches("Arturia KeyStep 32", msg(0x80, 60, 64)));
    assert!(!f.matches("Arturia KeyStep 32", msg(0x90, 61, 100)));
    assert!(!f.matches("Nord", msg(0x90, 60, 100)));
    assert!(!f.matches("Arturia KeyStep 32", msg(0xB0, 60, 100)));
}

#[test]
fn notes_filters_match_real_notes() {
    let notes = MidiFilter::notes("Pad");
    assert!(notes.matches("Pad", msg(0x90, 10, 1)));
    assert!(notes.matches("Pad", msg(0x80, 127, 1)));
    assert!(!notes.matches("Pad", msg(0x90, 9, 1)));
    assert!(!notes.matches("Pad", msg(0x90, 128, 1)));
    let on = MidiFilter::notes_on("Pad");
    assert!(on.matches("Pad", msg(0x90, 60, 1)));
    assert!(!on.matches("Pad", msg(0x80, 60, 1)));
}

#[test]
fn control_filter_matches_its_controller() {
    let f = MidiFilter::control("Pedal", 4);
    assert_eq!(f.filter_type, FilterType::Control(4));
    assert!(f.matches("Pedal Board", msg(0xB0, 4, 127)));
    assert!(!f.matches("Pedal Board", msg(0xB0, 5, 127)));
    assert!(!f.matches("Pedal Board", msg(0x90, 4, 127)));
    let d = f.duplicate();
    assert!(d.matches("Pedal Board", msg(0xB0, 4, 0)));
}

#[test]
fn trigger_fires_on_its_note_on() {
    let t = Trigger::new("KeyStep", 43);
    assert!(t.is_triggered("Arturia KeyStep 32", msg(0x90, 43, 100)));
    assert!(!t.is_triggered("Arturia KeyStep 32", msg(0x80, 43, 64)));
    assert!(!t.is_triggered("Arturia KeyStep 32", msg(0x90, 44, 100)));
    assert!(!t.is_triggered("Nord", msg(0x90, 43, 100)));
    assert!(t.same_as(&t.duplicate()));
    assert!(!t.same_as(&Trigger::new("KeyStep", 44)));
}

#[test]
fn never_trigger_does_not_fire_on_real_devices() {
    let t = Trigger::never();
    assert!(!t.is_triggered("Arturia KeyStep 32", msg(0x90, 0, 100)));
    assert!(t.is_triggered("NEVER!", msg(0x90, 0, 100)));
}
