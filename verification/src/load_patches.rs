//! Reading the configuration and patches from the values of their risp
//! scripts.
use vstd::prelude::*;
use crate::config::Config;
use crate::trigger::Trigger;
use crate::midi_devices::{DEFAULT_IN_DEVICE, DEFAULT_OUT_DEVICE};
use crate::patch::{Patch, Slot, MidiLightPatch};
use crate::effects::effect::Effect;
use crate::effects::any_effect::AnyEffect;
use crate::effects::note_sequencer::NoteSequencer;
use crate::effects::sweep_down::SweepDown;
use crate::effects::control_sequencer::ControlSequencer;
use crate::risp_value::{
    RispValue, LoadError, ValueKind, get, get_bool, get_int, get_string, get_vector,
    flatten_ints, get_spec, get_bool_spec, get_int_spec, get_str_spec, get_vector_spec, str_of, int_of, flatten_ints_spec,
};

verus! {

/// The cutoff controller of the synthesizer, bound as `CUTOFF` in patches.
pub const CUTOFF: u8 = 74;

/// The controller of the second oscillator's semitone, bound as
/// `OSC2_SEMITONE` in patches.
pub const OSC2_SEMITONE: u8 = 18;

/// The time per note of a patch that gives none, in milliseconds.
pub const DEFAULT_TIME_PER_NOTE: i64 = 200;

/// The longest time per note, in milliseconds, whose nanoseconds the
/// sequencers can hold.
pub const MAX_TIME_PER_NOTE_MS: u64 = 6148914691236;

pub open spec fn unwrap_or<T>(o: Option<T>, d: T) -> T {
    match o {
        Some(x) => x,
        None => d,
    }
}

/// The configuration of an evaluated configuration script: `view` (on if
/// absent) and `selected_patch` (empty if absent).
pub open spec fn config_spec(v: RispValue) -> Result<(bool, Seq<char>), LoadError> {
    match get_bool_spec(v, "view"@) {
        Err(e) => Err(e),
        Ok(view) => match get_str_spec(v, "selected_patch"@) {
            Err(e) => Err(e),
            Ok(selected) => Ok((unwrap_or(view, true), unwrap_or(selected, Seq::empty()))),
        },
    }
}

pub fn config_from_value(v: &RispValue) -> (r: Result<Config, LoadError>)
    ensures
        match config_spec(*v) {
            Ok((view, selected)) => r matches Ok(c) && c.view == view && c.selected_patch@ == selected,
            Err(e) => r matches Err(e2) && e2 == e,
        },
{
    proof {
        reveal_strlit("view");
        reveal_strlit("selected_patch");
    }
    let default_config = Config::get_default();
    let view = match get_bool(v, "view") {
        Err(e) => return Err(e),
        Ok(view) => view,
    };
    let selected = match get_string(v, "selected_patch") {
        Err(e) => return Err(e),
        Ok(selected) => selected,
    };
    Ok(Config {
        view: match view {
            Some(b) => b,
            None => default_config.view,
        },
        selected_patch: match selected {
            Some(s) => s,
            None => default_config.selected_patch,
        },
    })
}

/// A light show value can be read: a table whose switches are absent or
/// booleans and whose highest note is absent or an integer.
pub open spec fn lights_ok(v: RispValue) -> bool {
    &&& get_bool_spec(v, "stream"@) is Ok
    &&& get_bool_spec(v, "blink"@) is Ok
    &&& get_bool_spec(v, "flash"@) is Ok
    &&& get_bool_spec(v, "ripples"@) is Ok
    &&& get_bool_spec(v, "push"@) is Ok
    &&& get_bool_spec(v, "fish"@) is Ok
    &&& get_bool_spec(v, "river"@) is Ok
    &&& get_bool_spec(v, "stream_center"@) is Ok
    &&& get_int_spec(v, "max_note"@) is Ok
}

/// The light show of a value: each switch off if absent, the highest note
/// 128 if absent, kept to its lowest eight bits.
pub open spec fn lights_spec(v: RispValue) -> MidiLightPatch {
    MidiLightPatch {
        stream: unwrap_or(get_bool_spec(v, "stream"@)->Ok_0, false),
        blink: unwrap_or(get_bool_spec(v, "blink"@)->Ok_0, false),
        flash: unwrap_or(get_bool_spec(v, "flash"@)->Ok_0, false),
        ripples: unwrap_or(get_bool_spec(v, "ripples"@)->Ok_0, false),
        push: unwrap_or(get_bool_spec(v, "push"@)->Ok_0, false),
        fish: unwrap_or(get_bool_spec(v, "fish"@)->Ok_0, false),
        river: unwrap_or(get_bool_spec(v, "river"@)->Ok_0, false),
        stream_center: unwrap_or(get_bool_spec(v, "stream_center"@)->Ok_0, false),
        max_note: unwrap_or(get_int_spec(v, "max_note"@)->Ok_0, 128i64) as u8,
    }
}

fn switch(v: &RispValue, key: &str) -> (b: bool)
    requires
        get_bool_spec(*v, key@) is Ok,
    ensures
        b == unwrap_or(get_bool_spec(*v, key@)->Ok_0, false),
{
    match get_bool(v, key) {
        Ok(Some(b)) => b,
        _ => false,
    }
}

pub fn to_lights(lights_risp: &RispValue) -> (l: MidiLightPatch)
    requires
        lights_ok(*lights_risp),
    ensures
        l == lights_spec(*lights_risp),
{
    proof {
        reveal_strlit("stream");
        reveal_strlit("blink");
        reveal_strlit("flash");
        reveal_strlit("ripples");
        reveal_strlit("push");
        reveal_strlit("fish");
        reveal_strlit("river");
        reveal_strlit("stream_center");
        reveal_strlit("max_note");
    }
    let max_note: i64 = match get_int(lights_risp, "max_note") {
        Ok(Some(n)) => n,
        _ => 128,
    };
    MidiLightPatch {
        stream: switch(lights_risp, "stream"),
        blink: switch(lights_risp, "blink"),
        flash: switch(lights_risp, "flash"),
        ripples: switch(lights_risp, "ripples"),
        push: switch(lights_risp, "push"),
        fish: switch(lights_risp, "fish"),
        river: switch(lights_risp, "river"),
        stream_center: switch(lights_risp, "stream_center"),
        max_note: #[verifier::truncate] (max_note as u8),
    }
}

/// Whether a light show value can be read.
pub fn lights_valid(lights_risp: &RispValue) -> (b: bool)
    ensures
        b == lights_ok(*lights_risp),
{
    proof {
        reveal_strlit("stream");
        reveal_strlit("blink");
        reveal_strlit("flash");
        reveal_strlit("ripples");
        reveal_strlit("push");
        reveal_strlit("fish");
        reveal_strlit("river");
        reveal_strlit("stream_center");
        reveal_strlit("max_note");
    }
    get_bool(lights_risp, "stream").is_ok() && get_bool(lights_risp, "blink").is_ok()
        && get_bool(lights_risp, "flash").is_ok() && get_bool(lights_risp, "ripples").is_ok()
        && get_bool(lights_risp, "push").is_ok() && get_bool(lights_risp, "fish").is_ok()
        && get_bool(lights_risp, "river").is_ok() && get_bool(lights_risp, "stream_center").is_ok()
        && get_int(lights_risp, "max_note").is_ok()
}

/// What a patch entry asks for.
pub enum EffectSpec {
    NoteSequence { notes: Seq<u8>, time_per_note: u64 },
    SweepDown { min_value: u8, control_index: u8 },
    ControlSequence { control_index: u8, stop_value: u8, values: Seq<u8>, time_per_note: u64 },
}

/// What a patch entry asks for: the trigger and the effect.
pub struct PairSpec {
    pub trigger: (Seq<char>, u8),
    pub effect: EffectSpec,
}

/// Integers as note bytes, each kept to its lowest eight bits.
pub open spec fn bytes_of(xs: Seq<i64>) -> Seq<u8> {
    Seq::new(xs.len(), |i: int| xs[i] as u8)
}

/// A time per note in milliseconds as nanoseconds; too long a time is an
/// error.
pub open spec fn time_spec(ms: i64) -> Result<u64, LoadError> {
    if (ms as u64) <= MAX_TIME_PER_NOTE_MS {
        Ok(((ms as u64) * 1_000_000) as u64)
    } else {
        Err(LoadError::TimeOutOfRange)
    }
}

/// The trigger of an entry: a note of the default input, or a pair of a
/// device and a note.
pub open spec fn trigger_spec(t: RispValue) -> Result<(Seq<char>, u8), LoadError> {
    match t {
        RispValue::Int(n) => Ok((DEFAULT_IN_DEVICE@, n as u8)),
        RispValue::Vector(args) => if args@.len() == 2 {
            match str_of(args@[0]) {
                Err(e) => Err(e),
                Ok(device) => match int_of(args@[1]) {
                    Err(e) => Err(e),
                    Ok(n) => Ok((device, n as u8)),
                },
            }
        } else {
            Err(LoadError::StrangeTrigger)
        },
        _ => Err(LoadError::StrangeTrigger),
    }
}

pub open spec fn note_sequence_spec(ns: RispValue, default_time_per_note: i64) -> Result<EffectSpec, LoadError> {
    match get_int_spec(ns, "time_per_note"@) {
        Err(e) => Err(e),
        Ok(t) => match time_spec(unwrap_or(t, default_time_per_note)) {
            Err(e) => Err(e),
            Ok(time) => match get_spec(ns, "notes"@) {
                Err(e) => Err(e),
                Ok(None) => Err(LoadError::MissingNotes),
                Ok(Some(nv)) => match flatten_ints_spec(nv) {
                    Err(e) => Err(e),
                    Ok(xs) => Ok(EffectSpec::NoteSequence { notes: bytes_of(xs), time_per_note: time }),
                },
            },
        },
    }
}

pub open spec fn sweep_down_spec(sd: RispValue) -> Result<EffectSpec, LoadError> {
    match get_int_spec(sd, "min_value"@) {
        Err(e) => Err(e),
        Ok(min) => match get_int_spec(sd, "control_index"@) {
            Err(e) => Err(e),
            Ok(None) => Err(LoadError::MissingControlIndex),
            Ok(Some(ci)) => Ok(EffectSpec::SweepDown { min_value: unwrap_or(min, 30i64) as u8, control_index: ci as u8 }),
        },
    }
}

pub open spec fn control_sequence_spec(cs: RispValue, default_time_per_note: i64) -> Result<EffectSpec, LoadError> {
    match get_int_spec(cs, "control_index"@) {
        Err(e) => Err(e),
        Ok(None) => Err(LoadError::MissingControlIndex),
        Ok(Some(ci)) => match get_int_spec(cs, "stop_value"@) {
            Err(e) => Err(e),
            Ok(None) => Err(LoadError::MissingStopValue),
            Ok(Some(stop)) => match get_int_spec(cs, "time_per_note"@) {
                Err(e) => Err(e),
                Ok(t) => match time_spec(unwrap_or(t, default_time_per_note)) {
                    Err(e) => Err(e),
                    Ok(time) => match get_spec(cs, "values"@) {
                        Err(e) => Err(e),
                        Ok(None) => Err(LoadError::MissingNotes),
                        Ok(Some(vv)) => match flatten_ints_spec(vv) {
                            Err(e) => Err(e),
                            Ok(xs) => Ok(EffectSpec::ControlSequence {
                                control_index: ci as u8,
                                stop_value: stop as u8,
                                values: bytes_of(xs),
                                time_per_note: time,
                            }),
                        },
                    },
                },
            },
        },
    }
}

/// What an entry `{:trigger .. :noteSequencer ..}` (or `:sweepDown`, or
/// `:controlSequencer`) asks for; the first of these keys present decides.
pub open spec fn pair_spec(input: RispValue, default_time_per_note: i64) -> Result<PairSpec, LoadError> {
    match get_spec(input, "trigger"@) {
        Err(e) => Err(e),
        Ok(None) => Err(LoadError::MissingTrigger),
        Ok(Some(t)) => match trigger_spec(t) {
            Err(e) => Err(e),
            Ok(trigger) => match get_spec(input, "noteSequencer"@) {
                Err(e) => Err(e),
                Ok(Some(ns)) => match note_sequence_spec(ns, default_time_per_note) {
                    Err(e) => Err(e),
                    Ok(effect) => Ok(PairSpec { trigger, effect }),
                },
                Ok(None) => match get_spec(input, "sweepDown"@) {
                    Err(e) => Err(e),
                    Ok(Some(sd)) => match sweep_down_spec(sd) {
                        Err(e) => Err(e),
                        Ok(effect) => Ok(PairSpec { trigger, effect }),
                    },
                    Ok(None) => match get_spec(input, "controlSequencer"@) {
                        Err(e) => Err(e),
                        Ok(Some(cs)) => match control_sequence_spec(cs, default_time_per_note) {
                            Err(e) => Err(e),
                            Ok(effect) => Ok(PairSpec { trigger, effect }),
                        },
                        Ok(None) => Err(LoadError::MissingEffect),
                    },
                },
            },
        },
    }
}

/// The slot is what the entry asks for: its trigger, and a fresh effect of
/// the asked kind for the default output.
pub open spec fn realizes(slot: Slot, p: PairSpec) -> bool {
    &&& slot.0@ == p.trigger
    &&& slot.1.inv()
    &&& !slot.1.running()
    &&& match p.effect {
        EffectSpec::NoteSequence { notes, time_per_note } => slot.1 matches AnyEffect::NoteSequencer(s)
            && s.output_device() == DEFAULT_OUT_DEVICE@ && s.notes() == notes && s.velocity() == 0x7f
            && s.time_per_note() == time_per_note,
        EffectSpec::SweepDown { min_value, control_index } => slot.1 matches AnyEffect::SweepDown(s)
            && s.output_device() == DEFAULT_OUT_DEVICE@ && s.min_value() == min_value && s.control_index() == control_index,
        EffectSpec::ControlSequence { control_index, stop_value, values, time_per_note } => slot.1 matches AnyEffect::ControlSequencer(s)
            && s.output_device() == DEFAULT_OUT_DEVICE@ && s.control_index() == control_index && s.stop_value() == stop_value
            && s.values() == values && s.time_per_note() == time_per_note,
    }
}

fn read_time(v: &RispValue, default_time_per_note: i64) -> (r: Result<u64, LoadError>)
    ensures
        match get_int_spec(*v, "time_per_note"@) {
            Err(e) => r matches Err(e2) && e2 == e,
            Ok(t) => r == time_spec(unwrap_or(t, default_time_per_note)),
        },
{
    proof {
        reveal_strlit("time_per_note");
    }
    let ms: i64 = match get_int(v, "time_per_note") {
        Err(e) => return Err(e),
        Ok(Some(t)) => t,
        Ok(None) => default_time_per_note,
    };
    let ms_unsigned: u64 = #[verifier::truncate] (ms as u64);
    if ms_unsigned <= MAX_TIME_PER_NOTE_MS {
        Ok(ms_unsigned * 1_000_000)
    } else {
        Err(LoadError::TimeOutOfRange)
    }
}

fn to_bytes(xs: &Vec<i64>) -> (r: Vec<u8>)
    ensures
        r@ == bytes_of(xs@),
{
    let mut r: Vec<u8> = Vec::new();
    let mut i: usize = 0;
    while i < xs.len()
        invariant
            i <= xs@.len(),
            r@ == bytes_of(xs@.subrange(0, i as int)),
        decreases xs@.len() - i,
    {
        r.push(#[verifier::truncate] (xs[i] as u8));
        i = i + 1;
        assert(r@ =~= bytes_of(xs@.subrange(0, i as int)));
    }
    assert(xs@.subrange(0, xs@.len() as int) =~= xs@);
    r
}

fn to_trigger(t: &RispValue) -> (r: Result<Trigger, LoadError>)
    ensures
        match trigger_spec(*t) {
            Ok(key) => r matches Ok(tr) && tr@ == key,
            Err(e) => r matches Err(e2) && e2 == e,
        },
{
    match t {
        RispValue::Int(n) => Ok(Trigger::new(DEFAULT_IN_DEVICE, #[verifier::truncate] (*n as u8))),
        RispValue::Vector(args) => {
            if args.len() == 2 {
                let device = match &args[0] {
                    RispValue::Str(d) => d,
                    _ => return Err(LoadError::Expected(ValueKind::Str)),
                };
                let note: i64 = match &args[1] {
                    RispValue::Int(n) => *n,
                    _ => return Err(LoadError::Expected(ValueKind::Int)),
                };
                Ok(Trigger::new(device.as_str(), #[verifier::truncate] (note as u8)))
            } else {
                Err(LoadError::StrangeTrigger)
            }
        },
        _ => Err(LoadError::StrangeTrigger),
    }
}

/// The trigger and the effect of a patch entry.
pub fn to_trigger_effect_pair(input: &RispValue, default_time_per_note: i64) -> (r: Result<Slot, LoadError>)
    ensures
        match pair_spec(*input, default_time_per_note) {
            Ok(p) => r matches Ok(slot) && realizes(slot, p),
            Err(e) => r matches Err(e2) && e2 == e,
        },
{
    proof {
        reveal_strlit("trigger");
        reveal_strlit("noteSequencer");
        reveal_strlit("sweepDown");
        reveal_strlit("controlSequencer");
        reveal_strlit("notes");
        reveal_strlit("values");
        reveal_strlit("min_value");
        reveal_strlit("control_index");
        reveal_strlit("stop_value");
    }
    let trigger_risp = match get(input, "trigger") {
        Err(e) => return Err(e),
        Ok(None) => return Err(LoadError::MissingTrigger),
        Ok(Some(t)) => t,
    };
    let trigger = match to_trigger(trigger_risp) {
        Err(e) => return Err(e),
        Ok(t) => t,
    };
    match get(input, "noteSequencer") {
        Err(e) => return Err(e),
        Ok(Some(note_sequencer_risp)) => {
            let time_per_note = match read_time(note_sequencer_risp, default_time_per_note) {
                Err(e) => return Err(e),
                Ok(t) => t,
            };
            let notes_risp = match get(note_sequencer_risp, "notes") {
                Err(e) => return Err(e),
                Ok(None) => return Err(LoadError::MissingNotes),
                Ok(Some(n)) => n,
            };
            let notes = match flatten_ints(notes_risp) {
                Err(e) => return Err(e),
                Ok(xs) => to_bytes(&xs),
            };
            let effect = NoteSequencer::new(DEFAULT_OUT_DEVICE, notes, time_per_note, 0x7f);
            return Ok((trigger, AnyEffect::NoteSequencer(effect)));
        },
        Ok(None) => {},
    }
    match get(input, "sweepDown") {
        Err(e) => return Err(e),
        Ok(Some(sweep_down)) => {
            let min_value: i64 = match get_int(sweep_down, "min_value") {
                Err(e) => return Err(e),
                Ok(Some(m)) => m,
                Ok(None) => 30,
            };
            let control_index: i64 = match get_int(sweep_down, "control_index") {
                Err(e) => return Err(e),
                Ok(None) => return Err(LoadError::MissingControlIndex),
                Ok(Some(c)) => c,
            };
            let effect = SweepDown::new(
                DEFAULT_OUT_DEVICE,
                #[verifier::truncate] (min_value as u8),
                #[verifier::truncate] (control_index as u8),
            );
            return Ok((trigger, AnyEffect::SweepDown(effect)));
        },
        Ok(None) => {},
    }
    match get(input, "controlSequencer") {
        Err(e) => return Err(e),
        Ok(Some(control_sequencer_risp)) => {
            let control_index: i64 = match get_int(control_sequencer_risp, "control_index") {
                Err(e) => return Err(e),
                Ok(None) => return Err(LoadError::MissingControlIndex),
                Ok(Some(c)) => c,
            };
            let stop_value: i64 = match get_int(control_sequencer_risp, "stop_value") {
                Err(e) => return Err(e),
                Ok(None) => return Err(LoadError::MissingStopValue),
                Ok(Some(s)) => s,
            };
            let time_per_note = match read_time(control_sequencer_risp, default_time_per_note) {
                Err(e) => return Err(e),
                Ok(t) => t,
            };
            let values_risp = match get(control_sequencer_risp, "values") {
                Err(e) => return Err(e),
                Ok(None) => return Err(LoadError::MissingNotes),
                Ok(Some(v)) => v,
            };
            let values = match flatten_ints(values_risp) {
                Err(e) => return Err(e),
                Ok(xs) => to_bytes(&xs),
            };
            let effect = ControlSequencer::new(
                DEFAULT_OUT_DEVICE,
                #[verifier::truncate] (control_index as u8),
                values,
                #[verifier::truncate] (stop_value as u8),
                time_per_note,
            );
            return Ok((trigger, AnyEffect::ControlSequencer(effect)));
        },
        Ok(None) => {},
    }
    Err(LoadError::MissingEffect)
}

/// What the entries of a patch ask for, in order; the first entry that
/// cannot be read is the error.
pub open spec fn pairs_spec(items: Seq<RispValue>, default_time_per_note: i64) -> Result<Seq<PairSpec>, LoadError>
    decreases items.len(),
{
    if items.len() == 0 {
        Ok(Seq::empty())
    } else {
        match pairs_spec(items.drop_last(), default_time_per_note) {
            Err(e) => Err(e),
            Ok(ps) => match pair_spec(items.last(), default_time_per_note) {
                Err(e) => Err(e),
                Ok(p) => Ok(ps.push(p)),
            },
        }
    }
}

/// What a patch value asks for.
pub struct PatchSpec {
    pub name: Seq<char>,
    pub program: u8,
    pub pairs: Seq<PairSpec>,
    pub lights: Option<RispValue>,
}

/// What a patch value asks for: `name` (required), `program` (0 if absent,
/// kept to its lowest eight bits), `time_per_note` in milliseconds (200 if
/// absent) for the entries that give none, `effects` (required), and
/// `lights` (none if absent). An entry that cannot be read is reported after
/// the light show is looked up.
pub open spec fn patch_spec(v: RispValue) -> Result<PatchSpec, LoadError> {
    match get_int_spec(v, "program"@) {
        Err(e) => Err(e),
        Ok(program) => match get_str_spec(v, "name"@) {
            Err(e) => Err(e),
            Ok(None) => Err(LoadError::MissingName),
            Ok(Some(name)) => match get_int_spec(v, "time_per_note"@) {
                Err(e) => Err(e),
                Ok(t) => match get_vector_spec(v, "effects"@) {
                    Err(e) => Err(e),
                    Ok(None) => Err(LoadError::MissingEffects),
                    Ok(Some(items)) => match get_spec(v, "lights"@) {
                        Err(e) => Err(e),
                        Ok(lights) => match pairs_spec(items, unwrap_or(t, DEFAULT_TIME_PER_NOTE)) {
                            Err(e) => Err(e),
                            Ok(pairs) => Ok(PatchSpec {
                                name,
                                program: unwrap_or(program, 0i64) as u8,
                                pairs,
                                lights,
                            }),
                        },
                    },
                },
            },
        },
    }
}

/// Reading a patch value gets as far as its light show: its program, name,
/// time per note and effects are there and of the right kinds.
pub open spec fn reaches_lights(v: RispValue) -> bool {
    &&& get_int_spec(v, "program"@) is Ok
    &&& get_str_spec(v, "name"@) matches Ok(Some(_))
    &&& get_int_spec(v, "time_per_note"@) is Ok
    &&& get_vector_spec(v, "effects"@) matches Ok(Some(_))
}

/// The light show of a patch value, if it has one, can be read.
pub open spec fn lights_readable(v: RispValue) -> bool {
    get_spec(v, "lights"@) matches Ok(Some(l)) ==> lights_ok(l)
}

/// The patch is what the patch value asks for.
pub open spec fn patch_realizes(p: Patch, ps: PatchSpec) -> bool {
    &&& p.inv()
    &&& p.patch_name() == ps.name
    &&& p.program_number() == ps.program
    &&& p.last_events() == Seq::<(Trigger, crate::midi::MidiMessage)>::empty()
    &&& p.light() == (match ps.lights {
        Some(l) => Some(lights_spec(l)),
        None => None,
    })
    &&& p.slots().len() == ps.pairs.len()
    &&& forall|i: int| 0 <= i < ps.pairs.len() ==> #[trigger] realizes(p.slots()[i], ps.pairs[i])
}

/// The outcome `r` is what reading the patch value `v` gives: an error if
/// its light show cannot be read, else the patch it asks for or the error
/// in reading it.
pub open spec fn patch_outcome(v: RispValue, r: Result<Patch, LoadError>) -> bool {
    if reaches_lights(v) && !lights_readable(v) {
        r matches Err(e) && e is InvalidLights
    } else {
        match patch_spec(v) {
            Ok(ps) => r matches Ok(p) && patch_realizes(p, ps),
            Err(e) => r matches Err(e2) && e2 == e,
        }
    }
}

fn to_slots(items: &Vec<RispValue>, default_time_per_note: i64) -> (r: Result<Vec<Slot>, LoadError>)
    ensures
        match pairs_spec(items@, default_time_per_note) {
            Ok(ps) => r matches Ok(slots) && slots@.len() == ps.len()
                && (forall|i: int| 0 <= i < ps.len() ==> #[trigger] realizes(slots@[i], ps[i])),
            Err(e) => r matches Err(e2) && e2 == e,
        },
{
    let mut slots: Vec<Slot> = Vec::new();
    let mut i: usize = 0;
    assert(items@.subrange(0, 0) =~= Seq::<RispValue>::empty());
    while i < items.len()
        invariant
            i <= items@.len(),
            pairs_spec(items@.subrange(0, i as int), default_time_per_note) matches Ok(ps)
                && slots@.len() == ps.len()
                && (forall|k: int| 0 <= k < ps.len() ==> #[trigger] realizes(slots@[k], ps[k])),
        decreases items@.len() - i,
    {
        let ghost prefix = items@.subrange(0, i + 1);
        proof {
            assert(prefix.drop_last() =~= items@.subrange(0, i as int));
            assert(prefix.last() == items@[i as int]);
        }
        match to_trigger_effect_pair(&items[i], default_time_per_note) {
            Err(e) => {
                proof {
                    let k = i as int + 1;
                    lemma_pairs_error_stays(items@, default_time_per_note, k);
                }
                return Err(e);
            },
            Ok(slot) => {
                let ghost ps = pairs_spec(items@.subrange(0, i as int), default_time_per_note)->Ok_0;
                slots.push(slot);
                proof {
                    let p = pair_spec(items@[i as int], default_time_per_note)->Ok_0;
                    assert(pairs_spec(prefix, default_time_per_note) == Ok::<Seq<PairSpec>, LoadError>(ps.push(p)));
                    assert forall|k: int| 0 <= k < ps.push(p).len() implies #[trigger] realizes(slots@[k], ps.push(p)[k]) by {
                        if k < ps.len() {
                            assert(realizes(slots@[k], ps[k]));
                        }
                    }
                }
                i = i + 1;
            },
        }
    }
    assert(items@.subrange(0, i as int) =~= items@);
    Ok(slots)
}

/// Once an entry of a prefix cannot be read, the entries after it do not
/// change the error.
proof fn lemma_pairs_error_stays(items: Seq<RispValue>, t: i64, k: int)
    requires
        0 <= k <= items.len(),
        pairs_spec(items.subrange(0, k), t) is Err,
    ensures
        pairs_spec(items, t) == pairs_spec(items.subrange(0, k), t),
    decreases items.len() - k,
{
    if k < items.len() {
        let next = items.subrange(0, k + 1);
        assert(next.drop_last() =~= items.subrange(0, k));
        lemma_pairs_error_stays(items, t, k + 1);
    } else {
        assert(items.subrange(0, k) =~= items);
    }
}

/// The patch of a patch value.
pub fn patch_from_value(v: &RispValue) -> (r: Result<Patch, LoadError>)
    requires
        reaches_lights(*v) ==> lights_readable(*v),
    ensures
        match patch_spec(*v) {
            Ok(ps) => r matches Ok(p) && patch_realizes(p, ps),
            Err(e) => r matches Err(e2) && e2 == e,
        },
{
    proof {
        reveal_strlit("program");
        reveal_strlit("name");
        reveal_strlit("time_per_note");
        reveal_strlit("effects");
        reveal_strlit("lights");
    }
    let program: i64 = match get_int(v, "program") {
        Err(e) => return Err(e),
        Ok(Some(p)) => p,
        Ok(None) => 0,
    };
    let name = match get_string(v, "name") {
        Err(e) => return Err(e),
        Ok(None) => return Err(LoadError::MissingName),
        Ok(Some(n)) => n,
    };
    let time_per_note: i64 = match get_int(v, "time_per_note") {
        Err(e) => return Err(e),
        Ok(Some(t)) => t,
        Ok(None) => DEFAULT_TIME_PER_NOTE,
    };
    let items = match get_vector(v, "effects") {
        Err(e) => return Err(e),
        Ok(None) => return Err(LoadError::MissingEffects),
        Ok(Some(items)) => items,
    };
    let effects = to_slots(items, time_per_note);
    let lights = match get(v, "lights") {
        Err(e) => return Err(e),
        Ok(None) => None,
        Ok(Some(l)) => Some(to_lights(l)),
    };
    match effects {
        Err(e) => Err(e),
        Ok(slots) => {
            let ghost ps = patch_spec(*v)->Ok_0;
            assert forall|i: int| 0 <= i < slots@.len() implies #[trigger] slots@[i].1.inv() by {
                assert(realizes(slots@[i], ps.pairs[i]));
            }
            let p = Patch::new(name.as_str(), slots, #[verifier::truncate] (program as u8), lights);
            proof {
                assert(p.slots().len() == ps.pairs.len());
                assert forall|i: int| 0 <= i < ps.pairs.len() implies #[trigger] realizes(p.slots()[i], ps.pairs[i]) by {
                    assert(realizes(slots@[i], ps.pairs[i]));
                }
            }
            Ok(p)
        },
    }
}

/// Whether reading a patch value would meet a light show it cannot read.
fn lights_unreadable(v: &RispValue) -> (b: bool)
    ensures
        b == (reaches_lights(*v) && !lights_readable(*v)),
{
    proof {
        reveal_strlit("program");
        reveal_strlit("name");
        reveal_strlit("time_per_note");
        reveal_strlit("effects");
        reveal_strlit("lights");
    }
    let reaches = get_int(v, "program").is_ok()
        && matches!(get_string(v, "name"), Ok(Some(_)))
        && get_int(v, "time_per_note").is_ok()
        && matches!(get_vector(v, "effects"), Ok(Some(_)));
    if !reaches {
        return false;
    }
    match get(v, "lights") {
        Ok(Some(l)) => !lights_valid(l),
        _ => false,
    }
}

/// The patch of a patch value, or why it cannot be read: an unreadable
/// light show is reported where reading would meet it.
pub fn patch_of_value(v: &RispValue) -> (r: Result<Patch, LoadError>)
    ensures
        patch_outcome(*v, r),
{
    if lights_unreadable(v) {
        return Err(LoadError::InvalidLights);
    }
    patch_from_value(v)
}

/// The names that patch scripts find bound before they run, with their
/// values: the controllers `CUTOFF` and `OSC2_SEMITONE`.
pub fn patch_bindings() -> (b: Vec<(&'static str, i64)>)
    ensures
        b@ == seq![("CUTOFF", CUTOFF as i64), ("OSC2_SEMITONE", OSC2_SEMITONE as i64)],
{
    let mut b: Vec<(&'static str, i64)> = Vec::new();
    b.push(("CUTOFF", CUTOFF as i64));
    b.push(("OSC2_SEMITONE", OSC2_SEMITONE as i64));
    assert(b@ =~= seq![("CUTOFF", CUTOFF as i64), ("OSC2_SEMITONE", OSC2_SEMITONE as i64)]);
    b
}

/// An entry `{:trigger n :sweepDown {..}}` without a note sequence asks for
/// a sweep down on the trigger's note from the default input: to its
/// `min_value` kept to its lowest eight bits, or to 30 if it gives none, of
/// its `control_index` likewise kept.
pub proof fn lemma_sweep_down_entry(input: RispValue, t: i64, n: i64, sd: RispValue, min: Option<i64>, ci: i64)
    requires
        get_spec(input, "trigger"@) == Ok::<Option<RispValue>, LoadError>(Some(RispValue::Int(n))),
        get_spec(input, "noteSequencer"@) == Ok::<Option<RispValue>, LoadError>(None),
        get_spec(input, "sweepDown"@) == Ok::<Option<RispValue>, LoadError>(Some(sd)),
        get_int_spec(sd, "min_value"@) == Ok::<Option<i64>, LoadError>(min),
        get_int_spec(sd, "control_index"@) == Ok::<Option<i64>, LoadError>(Some(ci)),
    ensures
        pair_spec(input, t) matches Ok(p) && p.trigger == (DEFAULT_IN_DEVICE@, n as u8)
            && p.effect == (EffectSpec::SweepDown {
                min_value: match min {
                    Some(x) => x as u8,
                    None => 30u8,
                },
                control_index: ci as u8,
            }),
{
}

/// An entry `{:trigger n :noteSequencer {..}}` asks for a note sequence on
/// the trigger's note from the default input: its `notes` flattened and kept
/// to their lowest eight bits, at its `time_per_note` (or the patch's, if it
/// gives none) in milliseconds.
pub proof fn lemma_note_sequence_entry(input: RispValue, t: i64, n: i64, ns: RispValue, time: Option<i64>, nv: RispValue, xs: Seq<i64>)
    requires
        get_spec(input, "trigger"@) == Ok::<Option<RispValue>, LoadError>(Some(RispValue::Int(n))),
        get_spec(input, "noteSequencer"@) == Ok::<Option<RispValue>, LoadError>(Some(ns)),
        get_int_spec(ns, "time_per_note"@) == Ok::<Option<i64>, LoadError>(time),
        ({
            let ms: i64 = match time { Some(x) => x, None => t };
            0 <= ms <= MAX_TIME_PER_NOTE_MS
        }),
        get_spec(ns, "notes"@) == Ok::<Option<RispValue>, LoadError>(Some(nv)),
        flatten_ints_spec(nv) == Ok::<Seq<i64>, LoadError>(xs),
    ensures
        pair_spec(input, t) matches Ok(p) && p.trigger == (DEFAULT_IN_DEVICE@, n as u8)
            && p.effect == (EffectSpec::NoteSequence {
                notes: Seq::new(xs.len(), |i: int| xs[i] as u8),
                time_per_note: ((match time { Some(x) => x, None => t }) * 1_000_000) as u64,
            }),
{
    let ms: i64 = match time { Some(x) => x, None => t };
    assert((ms as u64) == ms);
}

/// An entry `{:trigger n :controlSequencer {..}}` without a note sequence or
/// sweep asks for a controller sequence on the trigger's note from the
/// default input: of its `control_index`, with its `values` flattened, its
/// `stop_value`, at its `time_per_note` (or the patch's) in milliseconds,
/// each number kept to its lowest eight bits.
pub proof fn lemma_control_sequence_entry(input: RispValue, t: i64, n: i64, cs: RispValue, ci: i64, stop: i64, time: Option<i64>, vv: RispValue, xs: Seq<i64>)
    requires
        get_spec(input, "trigger"@) == Ok::<Option<RispValue>, LoadError>(Some(RispValue::Int(n))),
        get_spec(input, "noteSequencer"@) == Ok::<Option<RispValue>, LoadError>(None),
        get_spec(input, "sweepDown"@) == Ok::<Option<RispValue>, LoadError>(None),
        get_spec(input, "controlSequencer"@) == Ok::<Option<RispValue>, LoadError>(Some(cs)),
        get_int_spec(cs, "control_index"@) == Ok::<Option<i64>, LoadError>(Some(ci)),
        get_int_spec(cs, "stop_value"@) == Ok::<Option<i64>, LoadError>(Some(stop)),
        get_int_spec(cs, "time_per_note"@) == Ok::<Option<i64>, LoadError>(time),
        ({
            let ms: i64 = match time { Some(x) => x, None => t };
            0 <= ms <= MAX_TIME_PER_NOTE_MS
        }),
        get_spec(cs, "values"@) == Ok::<Option<RispValue>, LoadError>(Some(vv)),
        flatten_ints_spec(vv) == Ok::<Seq<i64>, LoadError>(xs),
    ensures
        pair_spec(input, t) matches Ok(p) && p.trigger == (DEFAULT_IN_DEVICE@, n as u8)
            && p.effect == (EffectSpec::ControlSequence {
                control_index: ci as u8,
                stop_value: stop as u8,
                values: Seq::new(xs.len(), |i: int| xs[i] as u8),
                time_per_note: ((match time { Some(x) => x, None => t }) * 1_000_000) as u64,
            }),
{
    let ms: i64 = match time { Some(x) => x, None => t };
    assert((ms as u64) == ms);
}

} // verus!
