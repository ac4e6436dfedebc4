use midi_patcher::effects::effect::Effect;
use midi_patcher::midi::MidiMessage;
use midi_patcher::trigger::Trigger;
use midi_patcher::patch::{Patch, PatchAction, PatchError, MidiLightPatch};
use midi_patcher::effects::any_effect::AnyEffect;
use midi_patcher::effects::note_sequencer::NoteSequencer;
use midi_patcher::effects::control_sequencer::ControlSequencer;
use midi_patcher::effects::control_forwarder::ControlForwarder;
use midi_patcher::effects::button_melody::ButtonMelody;
use midi_patcher::effects::effect::Job;
use midi_patcher::patcher::{route_message, find_patch_by_program, find_patch_by_name, MidiRoute};

const MS: u64 = 1_000_000;

fn msg(status: u8, data1: u8, data2: u8) -> MidiMessage {
    MidiMessage { status, data1, data2 }
}

fn seq(notes: Vec<u8>) -> AnyEffect {
    AnyEffect::NoteSequencer(NoteSequencer::new("synth", notes, 200 * MS, 0x7f))
}

fn song() -> Patch {
    Patch::new(
        "Song",
        vec![
            (Trigger::new("Keys", 43), seq(vec![45, 57])),
            (Trigger::new("Keys", 45), seq(vec![48, 60])),
            (Trigger::new("Keys", 48), AnyEffect::ControlSequencer(ControlSequencer::new("synth", 74, vec![30, 100], 30, 500 * MS))),
            (Trigger::never(), AnyEffect::ControlForwarder(ControlForwarder::new("Pedal", "synth", 7))),
        ],
        3,
        None,
    )
}

/// A summary of actions: the kind, and the effect index where there is one.
fn kinds(acts: &[PatchAction]) -> Vec<(char, usize)> {
    acts.iter().map(|a| match a {
        PatchAction::Send(es) => ('S', es.len()),
        PatchAction::Reconfigure(_) => ('R', 0),
        PatchAction::StopJob(i) => ('X', *i),
        PatchAction::StartJob(i, _) => ('J', *i),
    }).collect()
}

#[test]
fn trigger_starts_its_effect() {
    let mut p = song();
    let acts = p.on_midi_event("Keys", msg(0x90, 43, 100), 0).unwrap();
    assert_eq!(kinds(&acts), vec![('J', 0)]);
    match &acts[0] {
        PatchAction::StartJob(_, Job::Steps { steps, .. }) => assert_eq!(steps.len(), 12),
        _ => panic!("the sequencer's job starts"),
    }
}

#[test]
fn mono_group_stops_the_running_effect_of_its_group() {
    let mut p = song();
    p.on_midi_event("Keys", msg(0x90, 43, 100), 0).unwrap();
    p.on_midi_event("Keys", msg(0x90, 48, 100), 0).unwrap();
    let acts = p.on_midi_event("Keys", msg(0x90, 45, 100), 0).unwrap();
    // The note sequencer of the same group stops; the control sequencer runs on.
    assert_eq!(kinds(&acts), vec![('X', 0), ('J', 1)]);
    let acts = p.stop_running_effects();
    assert_eq!(kinds(&acts), vec![('X', 1), ('X', 2)]);
    assert!(p.stop_running_effects().is_empty());
}

#[test]
fn retrigger_restarts_the_effect() {
    let mut p = song();
    p.on_midi_event("Keys", msg(0x90, 43, 100), 0).unwrap();
    let acts = p.on_midi_event("Keys", msg(0x90, 43, 100), 0).unwrap();
    assert_eq!(kinds(&acts), vec![('X', 0), ('J', 0)]);
}

#[test]
fn every_effect_sees_the_events() {
    let mut p = song();
    let acts = p.on_midi_event("Pedal", msg(0xB0, 4, 99), 0).unwrap();
    assert_eq!(kinds(&acts), vec![('S', 1)]);
    match &acts[0] {
        PatchAction::Send(es) => assert_eq!(es[0].message, msg(0xB0, 7, 99)),
        _ => panic!("the forwarder sends"),
    }
    assert!(p.on_midi_event("Keys", msg(0x80, 43, 0), 0).unwrap().is_empty());
}

#[test]
fn failing_effect_is_reported() {
    let melody = ButtonMelody::new("Pads", vec![36], "synth", vec![], 48, 1000 * MS, 0);
    let mut p = Patch::new_simple("Broken", vec![AnyEffect::ButtonMelody(melody)], 0);
    assert!(!p.can_handle_event("Pads", msg(0x90, 36, 100), 0));
    assert_eq!(p.on_midi_event("Pads", msg(0x90, 36, 100), 0).err(), Some(PatchError::EffectFailure));
    assert!(p.can_handle_event("Keys", msg(0x90, 36, 100), 0));
}

#[test]
fn patch_identity_and_light_show() {
    let light = MidiLightPatch {
        stream: true, blink: false, flash: false, ripples: false, push: false, fish: true, river: false,
        stream_center: false, max_note: 100,
    };
    let p = Patch::new("Lit", vec![], 9, Some(light));
    assert_eq!(p.name(), "Lit");
    assert_eq!(p.program(), 9);
    let acts = p.init();
    assert_eq!(acts.len(), 1);
    assert!(matches!(acts[0], PatchAction::Reconfigure(l) if l == light));
    assert!(song().init().is_empty());
}

#[test]
fn update_restarts_effects_of_running_triggers() {
    let mut p = song();
    p.on_midi_event("Keys", msg(0x90, 43, 90), 0).unwrap();
    let new_version = Patch::new(
        "Song v2",
        vec![
            (Trigger::new("Keys", 45), seq(vec![1])),
            (Trigger::new("Keys", 43), seq(vec![2, 3])),
        ],
        4,
        None,
    );
    let acts = p.update_from(new_version, 10 * MS).unwrap();
    assert_eq!(kinds(&acts), vec![('X', 0), ('J', 1)]);
    assert_eq!(p.name(), "Song v2");
    assert_eq!(p.program(), 4);
    match &acts[1] {
        PatchAction::StartJob(_, Job::Steps { steps, .. }) => assert_eq!(steps.len(), 12),
        _ => panic!("the new effect of the running trigger starts"),
    }
}

#[test]
fn routes_messages() {
    assert_eq!(route_message(msg(248, 0, 0), true), MidiRoute::Ignore);
    assert_eq!(route_message(msg(192, 5, 0), true), MidiRoute::SelectProgram(5));
    assert_eq!(route_message(msg(192, 5, 0), false), MidiRoute::Forward);
    assert_eq!(route_message(msg(0x90, 5, 1), true), MidiRoute::Forward);
}

#[test]
fn finds_first_patch_by_program_and_name() {
    let patches = vec![
        Patch::new_simple("A", vec![], 1),
        Patch::new_simple("B", vec![], 2),
        Patch::new_simple("A", vec![], 2),
    ];
    assert_eq!(find_patch_by_program(&patches, 2), Some(1));
    assert_eq!(find_patch_by_program(&patches, 7), None);
    assert_eq!(find_patch_by_name(&patches, "A"), Some(0));
    assert_eq!(find_patch_by_name(&patches, "C"), None);
}

#[test]
fn test_song_plays_its_chorus() {
    let mut p = midi_patcher::songs::create_test_song();
    assert_eq!(p.name(), "Test");
    assert_eq!(p.program(), 0);
    let acts = p.on_midi_event("USB", msg(0x90, 43, 100), 0).unwrap();
    assert_eq!(kinds(&acts), vec![('J', 0), ('J', 1)]);
    match &acts[0] {
        PatchAction::StartJob(_, Job::Steps { steps, .. }) => {
            // Six notes per repeat of the chorus' 32 notes, six times.
            assert_eq!(steps.len(), 6 * 32 * 6);
        },
        _ => panic!("the chorus starts"),
    }
    match &acts[1] {
        PatchAction::StartJob(_, Job::Steps { steps, .. }) => {
            assert_eq!(steps.len(), 6 * 500);
            match &steps[0] {
                midi_patcher::effects::effect::JobStep::Send(e) => assert_eq!(e.message, msg(0x90, 69, 0x7f)),
                _ => panic!("the wild run starts with its first note"),
            }
        },
        _ => panic!("the wild run starts"),
    }
}

#[test]
fn restart_of_running_sequencer_stops_its_job_first() {
    let mut s = NoteSequencer::new("synth", vec![1], 200 * MS, 0x7f);
    assert!(s.can_start(msg(0x90, 1, 1), 0));
    let first = s.start(msg(0x90, 1, 1), 0);
    assert!(!first.stops_previous);
    assert!(s.can_start(msg(0x90, 1, 1), 0));
    let second = s.start(msg(0x90, 1, 1), 0);
    assert!(second.stops_previous);
    assert!(second.job.is_some());
    assert!(s.is_running());
    s.stop();
    assert!(!s.is_running());
    assert!(!s.start(msg(0x90, 1, 1), 0).stops_previous);
}

#[test]
fn built_in_songs_in_order() {
    let ps = midi_patcher::songs::built_in_patches("HandSonic", "Express", "K-Board", 0);
    let names: Vec<&str> = ps.iter().map(|p| p.name()).collect();
    assert_eq!(names, vec!["Test", "HarmonyTest", "liebeslieder", "sicherheitskopie", "liebt uns", "system"]);
    let programs: Vec<u8> = ps.iter().map(|p| p.program()).collect();
    assert_eq!(programs, vec![0, 45, 27, 30, 18, 18]);
}

#[test]
fn liebt_uns_pedal_plays_to_pedal_note() {
    let mut p = midi_patcher::songs::liebt_uns("HandSonic", "Express", "K-Board", 0);
    let acts = p.on_midi_event("Express", msg(0xB0, 4, 127), 0).unwrap();
    match &acts[0] {
        PatchAction::Send(es) => {
            assert_eq!(es[0].output, "PEDAL_NOTE");
            assert_eq!(es[0].message, msg(0x90, 72, 127));
        },
        _ => panic!("the pedal melody plays"),
    }
}

#[test]
fn harmony_drum_test_song_drum_follows_harmony() {
    let mut p = midi_patcher::songs::create_harmony_drum_test_song("Express", 0);
    p.on_midi_event("USB", msg(0x90, 40, 100), 0).unwrap();
    let acts = p.on_midi_event("SamplePad", msg(0x90, 51, 90), 10 * MS).unwrap();
    match &acts[0] {
        PatchAction::Send(es) => assert_eq!(es[0].message, msg(0x90, 47, 90)),
        _ => panic!("the drum plays"),
    }
}
