use midi_patcher::midi::MidiMessage;
use midi_patcher::patch::{Patch, PatchAction, MidiLightPatch};
use midi_patcher::effects::effect::{Job, JobStep};
use midi_patcher::effects::any_effect::AnyEffect;
use midi_patcher::risp_value::{RispValue, LoadError, ValueKind, get, get_bool, get_int, get_string, get_vector, flatten_ints};
use midi_patcher::config::Config;
use midi_patcher::load_patches::{
    config_from_value, patch_from_value, patch_of_value, patch_bindings, to_lights, lights_valid,
    to_trigger_effect_pair, CUTOFF, OSC2_SEMITONE,
};
use risp::types::RispType;

fn value_of(r: RispType) -> RispValue {
    match r {
        RispType::Nil => RispValue::Nil,
        RispType::Bool(b) => RispValue::Bool(b),
        RispType::Int(i) => RispValue::Int(i),
        RispType::Str(s) => RispValue::Str(s),
        RispType::List(l) => RispValue::List(l.into_iter().map(value_of).collect()),
        RispType::Vector(v) => RispValue::Vector(v.into_iter().map(value_of).collect()),
        RispType::Map(m) => RispValue::Table(m.into_iter().map(|(k, v)| (k, value_of(v))).collect()),
        RispType::Keyword(s) => RispValue::Keyword(s),
        RispType::Symbol(s) => RispValue::Symbol(s),
        RispType::Function(_) | RispType::RispFunction(_) => RispValue::Function,
    }
}

fn load_config_from_code(code: &str) -> Result<Config, LoadError> {
    let mut env = risp::core::create_core_environment();
    let v = risp::eval_risp_script(code, &mut env).map_err(LoadError::Script)?;
    config_from_value(&value_of(v))
}

fn load_patch_from_code(code: &str) -> Result<Patch, LoadError> {
    let mut env = risp::core::create_core_environment();
    for (name, value) in patch_bindings() {
        env.set(name, RispType::Int(value));
    }
    let v = risp::eval_risp_script(code, &mut env).map_err(LoadError::Script)?;
    patch_of_value(&value_of(v))
}

#[test]
fn patch_scripts_find_the_controllers_bound() {
    assert_eq!(patch_bindings(), vec![("CUTOFF", 74), ("OSC2_SEMITONE", 18)]);
}

#[test]
fn unreadable_light_show_is_reported_where_reading_meets_it() {
    let v = table(vec![
        ("name", RispValue::Str("x".to_string())),
        ("effects", ints(&[])),
        ("lights", table(vec![("flash", RispValue::Int(1))])),
    ]);
    assert!(matches!(patch_of_value(&v), Err(LoadError::InvalidLights)));
    let no_name = table(vec![("effects", ints(&[])), ("lights", RispValue::Int(1))]);
    assert!(matches!(patch_of_value(&no_name), Err(LoadError::MissingName)));
    let fine = table(vec![("name", RispValue::Str("x".to_string())), ("effects", ints(&[]))]);
    assert_eq!(patch_of_value(&fine).ok().unwrap().name(), "x");
}

const MS: u64 = 1_000_000;

fn msg(status: u8, data1: u8, data2: u8) -> MidiMessage {
    MidiMessage { status, data1, data2 }
}

fn table(entries: Vec<(&str, RispValue)>) -> RispValue {
    RispValue::Table(entries.into_iter().map(|(k, v)| (k.to_string(), v)).collect())
}

fn ints(xs: &[i64]) -> RispValue {
    RispValue::Vector(xs.iter().map(|&x| RispValue::Int(x)).collect())
}

fn start_job(patch: &mut Patch, device: &str, note: u8) -> Job {
    let acts = patch.on_midi_event(device, msg(0x90, note, 100), 0).unwrap();
    for a in acts {
        if let PatchAction::StartJob(_, job) = a {
            return job;
        }
    }
    panic!("no job started");
}

fn sent_data(steps: &[JobStep]) -> Vec<(u8, u8, u8)> {
    steps.iter().filter_map(|s| match s {
        JobStep::Send(e) => Some((e.message.status, e.message.data1, e.message.data2)),
        _ => None,
    }).collect()
}

fn sleeps(steps: &[JobStep]) -> Vec<u64> {
    steps.iter().filter_map(|s| match s {
        JobStep::Sleep(d) => Some(*d),
        _ => None,
    }).collect()
}

#[test]
fn reads_table_entries_by_kind() {
    let v = table(vec![
        ("flag", RispValue::Bool(true)),
        ("n", RispValue::Int(7)),
        ("s", RispValue::Str("x".to_string())),
        ("v", ints(&[1, 2])),
    ]);
    assert_eq!(get_bool(&v, "flag").ok(), Some(Some(true)));
    assert_eq!(get_int(&v, "n").ok(), Some(Some(7)));
    assert_eq!(get_string(&v, "s").ok(), Some(Some("x".to_string())));
    assert_eq!(get_vector(&v, "v").ok().unwrap().unwrap().len(), 2);
    assert_eq!(get_int(&v, "missing").ok(), Some(None));
    assert!(matches!(get_int(&v, "flag"), Err(LoadError::Expected(ValueKind::Int))));
    assert!(matches!(get_bool(&v, "n"), Err(LoadError::Expected(ValueKind::Bool))));
    assert!(matches!(get_string(&v, "n"), Err(LoadError::Expected(ValueKind::Str))));
    assert!(matches!(get_vector(&v, "n"), Err(LoadError::Expected(ValueKind::Vector))));
    assert!(matches!(get(&RispValue::Int(1), "n"), Err(LoadError::Expected(ValueKind::Table))));
}

#[test]
fn flattens_nested_vectors_of_integers() {
    let v = RispValue::Vector(vec![RispValue::Int(1), ints(&[2, 3]), RispValue::Vector(vec![ints(&[4]), RispValue::Int(5)])]);
    assert_eq!(flatten_ints(&v).ok(), Some(vec![1, 2, 3, 4, 5]));
    assert_eq!(flatten_ints(&ints(&[])).ok(), Some(vec![]));
    let bad = RispValue::Vector(vec![RispValue::Int(1), RispValue::Bool(true)]);
    assert!(matches!(flatten_ints(&bad), Err(LoadError::Expected(ValueKind::Int))));
    assert!(matches!(flatten_ints(&RispValue::Int(1)), Err(LoadError::Expected(ValueKind::Vector))));
}

#[test]
fn config_defaults_and_values() {
    let c = load_config_from_code("{:view false :selected_patch \"Amazon\"}").ok().unwrap();
    assert!(!c.view);
    assert_eq!(c.selected_patch, "Amazon");
    let c = load_config_from_code("{}").ok().unwrap();
    assert!(c.view);
    assert_eq!(c.selected_patch, "");
    assert!(matches!(load_config_from_code("{:view 1}"), Err(LoadError::Expected(ValueKind::Bool))));
    assert!(matches!(load_config_from_code("(+ 1"), Err(LoadError::Script(_))));
    let c = config_from_value(&table(vec![("selected_patch", RispValue::Str("Test".to_string()))])).ok().unwrap();
    assert!(c.view);
    assert_eq!(c.selected_patch, "Test");
}

#[test]
fn light_show_defaults_and_truncates() {
    let v = table(vec![("stream", RispValue::Bool(true)), ("river", RispValue::Bool(true)), ("max_note", RispValue::Int(300))]);
    assert!(lights_valid(&v));
    let l = to_lights(&v);
    assert_eq!(
        l,
        MidiLightPatch {
            stream: true, blink: false, flash: false, ripples: false, push: false, fish: false, river: true,
            stream_center: false, max_note: 44,
        }
    );
    assert_eq!(to_lights(&table(vec![])).max_note, 128);
    assert!(!lights_valid(&table(vec![("blink", RispValue::Int(1))])));
    assert!(!lights_valid(&RispValue::Int(1)));
}

#[test]
fn entry_errors() {
    let no_trigger = table(vec![("noteSequencer", table(vec![("notes", ints(&[1]))]))]);
    assert!(matches!(to_trigger_effect_pair(&no_trigger, 200), Err(LoadError::MissingTrigger)));
    let strange = table(vec![("trigger", RispValue::Bool(true))]);
    assert!(matches!(to_trigger_effect_pair(&strange, 200), Err(LoadError::StrangeTrigger)));
    let three = table(vec![("trigger", ints(&[1, 2, 3]))]);
    assert!(matches!(to_trigger_effect_pair(&three, 200), Err(LoadError::StrangeTrigger)));
    let no_effect = table(vec![("trigger", RispValue::Int(43))]);
    assert!(matches!(to_trigger_effect_pair(&no_effect, 200), Err(LoadError::MissingEffect)));
    let no_notes = table(vec![("trigger", RispValue::Int(43)), ("noteSequencer", table(vec![]))]);
    assert!(matches!(to_trigger_effect_pair(&no_notes, 200), Err(LoadError::MissingNotes)));
    let no_index = table(vec![("trigger", RispValue::Int(43)), ("sweepDown", table(vec![]))]);
    assert!(matches!(to_trigger_effect_pair(&no_index, 200), Err(LoadError::MissingControlIndex)));
    let no_stop = table(vec![
        ("trigger", RispValue::Int(43)),
        ("controlSequencer", table(vec![("control_index", RispValue::Int(74)), ("values", ints(&[1]))])),
    ]);
    assert!(matches!(to_trigger_effect_pair(&no_stop, 200), Err(LoadError::MissingStopValue)));
    let too_long = table(vec![
        ("trigger", RispValue::Int(43)),
        ("noteSequencer", table(vec![("notes", ints(&[1])), ("time_per_note", RispValue::Int(-1))])),
    ]);
    assert!(matches!(to_trigger_effect_pair(&too_long, 200), Err(LoadError::TimeOutOfRange)));
}

#[test]
fn entry_builds_its_effect() {
    let entry = table(vec![
        ("trigger", RispValue::Vector(vec![RispValue::Str("Pads".to_string()), RispValue::Int(36)])),
        ("noteSequencer", table(vec![("notes", RispValue::Vector(vec![ints(&[45, 57]), RispValue::Int(316)]))])),
    ]);
    let (trigger, effect) = to_trigger_effect_pair(&entry, 100).ok().unwrap();
    assert!(trigger.is_triggered("Pads", msg(0x90, 36, 1)));
    assert!(!trigger.is_triggered("USB", msg(0x90, 36, 1)));
    assert!(matches!(effect, AnyEffect::NoteSequencer(_)));
    let mut p = Patch::new("p", vec![(trigger, effect)], 0, None);
    match start_job(&mut p, "Pads", 36) {
        Job::Steps { steps, .. } => {
            assert_eq!(sent_data(&steps), vec![(0x90, 45, 0x7f), (0x80, 45, 0x40), (0x90, 57, 0x7f), (0x80, 57, 0x40), (0x90, 60, 0x7f), (0x80, 60, 0x40)]);
            assert_eq!(sleeps(&steps)[0], 25 * MS);
        },
        _ => panic!("a note sequence"),
    }
}

const AMAZON: &str = r#"
(def chorus [45 57])
{:name "Amazon"
 :program 5
 :time_per_note 100
 :effects [{:trigger 43 :noteSequencer {:notes [chorus 60]}}
           {:trigger ["Pads" 36] :sweepDown {:control_index CUTOFF}}
           {:trigger 48 :controlSequencer {:control_index OSC2_SEMITONE :stop_value 64 :values [1 2 3] :time_per_note 50}}]
 :lights {:stream true :max_note 100}}
"#;

#[test]
fn loads_a_patch_script() {
    let mut p = load_patch_from_code(AMAZON).ok().unwrap();
    assert_eq!(p.name(), "Amazon");
    assert_eq!(p.program(), 5);
    let init = p.init();
    assert!(matches!(init[0], PatchAction::Reconfigure(l) if l.stream && !l.blink && l.max_note == 100));
    match start_job(&mut p, "USB", 43) {
        Job::Steps { steps, .. } => {
            assert_eq!(sent_data(&steps).len(), 6);
            assert_eq!(sleeps(&steps)[0], 25 * MS);
            assert_eq!(sleeps(&steps)[1], 75 * MS);
        },
        _ => panic!("a note sequence"),
    }
    match start_job(&mut p, "Pads", 36) {
        Job::Sweep { control_index, min_value, velocity, .. } => {
            assert_eq!((control_index, min_value, velocity), (CUTOFF, 30, 100));
        },
        _ => panic!("a sweep"),
    }
    match start_job(&mut p, "USB", 48) {
        Job::Steps { steps, finally } => {
            assert_eq!(sent_data(&steps), vec![(0xB0, OSC2_SEMITONE, 1), (0xB0, OSC2_SEMITONE, 2), (0xB0, OSC2_SEMITONE, 3)]);
            assert_eq!(sleeps(&steps), vec![50 * MS, 50 * MS, 50 * MS]);
            assert_eq!(finally[0].message, msg(0xB0, OSC2_SEMITONE, 64));
        },
        _ => panic!("a control sequence"),
    }
}

#[test]
fn patch_defaults() {
    let mut p = load_patch_from_code("{:name \"Plain\" :effects [{:trigger 43 :noteSequencer {:notes [1]}}]}").ok().unwrap();
    assert_eq!(p.program(), 0);
    assert!(p.init().is_empty());
    match start_job(&mut p, "USB", 43) {
        Job::Steps { steps, .. } => assert_eq!(sleeps(&steps), vec![50 * MS, 150 * MS]),
        _ => panic!("a note sequence"),
    }
}

#[test]
fn patch_errors() {
    assert!(matches!(load_patch_from_code("{:effects []}"), Err(LoadError::MissingName)));
    assert!(matches!(load_patch_from_code("{:name \"x\"}"), Err(LoadError::MissingEffects)));
    assert!(matches!(load_patch_from_code("{:name \"x\" :effects [{:trigger 1}]}"), Err(LoadError::MissingEffect)));
    assert!(matches!(load_patch_from_code("{:name \"x\" :effects [] :lights {:stream 1}}"), Err(LoadError::InvalidLights)));
    assert!(matches!(load_patch_from_code("{:name 1 :effects [] :lights {:stream 1}}"), Err(LoadError::Expected(ValueKind::Str))));
    assert!(matches!(load_patch_from_code("[1 2"), Err(LoadError::Script(_))));
    let v = table(vec![("name", RispValue::Str("x".to_string())), ("effects", ints(&[1]))]);
    assert!(matches!(patch_from_value(&v), Err(LoadError::Expected(ValueKind::Table))));
}
