use midi_patcher::midi::MidiMessage;
use midi_patcher::midi_beat_tracker::MidiBeatTracker;
use midi_patcher::utils::midi_filter::MidiFilter;
use midi_patcher::watch::{WatchEvent, get_changed_files};
use midi_patcher::config::Config;

const MS: u64 = 1_000_000;

fn msg(status: u8, data1: u8, data2: u8) -> MidiMessage {
    MidiMessage { status, data1, data2 }
}

#[test]
fn beat_follows_times_between_beats_near_the_default() {
    let mut t = MidiBeatTracker::new(MidiFilter::note("Drums", 36), 600 * MS);
    assert_eq!(t.beat_duration(), 600 * MS);
    t.on_midi_event("Drums", msg(0x90, 36, 100), 1000 * MS);
    assert_eq!(t.beat_duration(), 600 * MS);
    t.on_midi_event("Drums", msg(0x90, 36, 100), 1500 * MS);
    assert_eq!(t.beat_duration(), 500 * MS);
    // Too short a time since the last beat is not taken.
    t.on_midi_event("Drums", msg(0x90, 36, 100), 1800 * MS);
    assert_eq!(t.beat_duration(), 500 * MS);
    // Nor one of the default or longer.
    t.on_midi_event("Drums", msg(0x90, 36, 100), 2400 * MS);
    assert_eq!(t.beat_duration(), 500 * MS);
    // Messages the filter rejects are no beats.
    t.on_midi_event("Drums", msg(0x90, 38, 100), 2850 * MS);
    t.on_midi_event("Drums", msg(0x90, 36, 100), 2850 * MS);
    assert_eq!(t.beat_duration(), 450 * MS);
}

#[test]
fn changed_files_are_the_created_ones_in_order() {
    let events = vec![
        WatchEvent::Create("patches/a.risp".to_string()),
        WatchEvent::Other,
        WatchEvent::Create("patches/b.risp".to_string()),
    ];
    assert_eq!(get_changed_files(&events), vec!["patches/a.risp".to_string(), "patches/b.risp".to_string()]);
    assert!(get_changed_files(&vec![WatchEvent::Other]).is_empty());
}

#[test]
fn default_config() {
    let c = Config::get_default();
    assert!(c.view);
    assert_eq!(c.selected_patch, "");
}
