//! The songs built into the patcher, and their helpers.
use vstd::prelude::*;
use crate::midi::MidiMessage;
use crate::trigger::Trigger;
use crate::patch::{Patch, Slot, MidiLightPatch};
use crate::midi_devices::{DEFAULT_IN_DEVICE, DEFAULT_OUT_DEVICE};
use crate::utils::{repeated, concat, repeated_spec, concat_spec, lemma_repeated_bounded};
use crate::effects::effect::Effect;
use crate::effects::any_effect::AnyEffect;
use crate::effects::note_sequencer::NoteSequencer;
use crate::effects::sweep_down::SweepDown;
use crate::effects::control_sequencer::ControlSequencer;
use crate::effects::harmony_drum::{HarmonyDrum, C3};
use crate::effects::control_forwarder::ControlForwarder;
use crate::effects::pedal_button::PedalButton;
use crate::effects::pedal_melody::{PedalMelody, notes_mapping, LOWER_THRESHOLD, UPPER_THRESHOLD};
use crate::effects::button_melody::{ButtonMelody, HarmonyButtonMelody, lemma_chain_all_inv};
use crate::effects::button_melody_sustaining::ButtonMelodySustaining;
use crate::effects::midi_forwarder::MidiForwarder;
use crate::utils::midi_filter::{MidiFilter, MidiFilterView, FilterType};
use crate::utils::range_mapper::ALL_REAL_NOTES;
use crate::midi_devices::{SAMPLE_PAD, USB_MIDI_ADAPTER, THROUGH_PORT};
use crate::load_patches::CUTOFF;

verus! {

/// Transposes signed intervals by the base note `y`, as note bytes.
pub fn add(xs: Vec<i16>, y: u8) -> (r: Vec<u8>)
    requires
        forall|i: int| 0 <= i < xs@.len() ==> i16::MIN <= #[trigger] xs@[i] + y <= i16::MAX,
    ensures
        r@.len() == xs@.len(),
        forall|i: int| 0 <= i < xs@.len() ==> #[trigger] r@[i] == ((xs@[i] + y) as i16) as u8,
{
    let mut r: Vec<u8> = Vec::new();
    let mut i: usize = 0;
    while i < xs.len()
        invariant
            i <= xs@.len(),
            r@.len() == i,
            forall|k: int| 0 <= k < xs@.len() ==> i16::MIN <= #[trigger] xs@[k] + y <= i16::MAX,
            forall|k: int| 0 <= k < i ==> #[trigger] r@[k] == ((xs@[k] + y) as i16) as u8,
        decreases xs@.len() - i,
    {
        let x = xs[i];
        assert(i16::MIN <= xs@[i as int] + y <= i16::MAX);
        let sum: i16 = x + (y as i16);
        r.push(#[verifier::truncate] (sum as u8));
        i = i + 1;
    }
    r
}

/// The cutoff controller of the synthesizer.
pub const TEST_CUTOFF: u8 = 74;

/// One millisecond in nanoseconds.
pub const MS: u64 = 1_000_000;

/// The chorus of the test song: four pairs of octaves, each four times, all
/// six times.
pub open spec fn chorus_notes_spec() -> Seq<u8> {
    repeated_spec(concat_spec(seq![
        repeated_spec(seq![45u8, 57u8], 4),
        repeated_spec(seq![48u8, 60u8], 4),
        repeated_spec(seq![43u8, 55u8], 4),
        repeated_spec(seq![38u8, 50u8], 4),
    ]), 6)
}

/// The wild run of the test song, fifty times.
pub open spec fn wild_notes_spec() -> Seq<u8> {
    repeated_spec(seq![45u8, 47u8, 53u8, 57u8, 60u8, 67u8, 60u8, 57u8, 53u8, 47u8], 50)
}

/// Notes moved up by `by`.
pub open spec fn moved_up(notes: Seq<u8>, by: u8) -> Seq<u8> {
    Seq::new(notes.len(), |i: int| (notes[i] + by) as u8)
}

/// The slot plays `notes` on the default output, `time` nanoseconds per
/// note at full velocity, when `note` is played on the default input.
pub open spec fn plays_notes(slot: Slot, note: u8, notes: Seq<u8>, time: int) -> bool {
    &&& slot.0@ == (DEFAULT_IN_DEVICE@, note)
    &&& slot.1 matches AnyEffect::NoteSequencer(s) && s.output_device() == DEFAULT_OUT_DEVICE@ && s.notes() == notes
        && s.time_per_note() == time && s.velocity() == 0x7f
    &&& !slot.1.running()
}

fn pattern_of(a: &[u8]) -> (v: Vec<u8>)
    ensures
        v@ == a@,
{
    vstd::slice::slice_to_vec(a)
}

/// The test song: the chorus on 43 and 45 (on 43 with the wild run two
/// octaves up at double speed), the wild run on 36, silence on 52, a sweep
/// of the cutoff on 50 and a cutoff sequence on 48.
pub fn create_test_song() -> (p: Patch)
    ensures
        p.inv(),
        p.patch_name() == "Test"@,
        p.program_number() == 0,
        p.light() == None::<MidiLightPatch>,
        p.last_events() == Seq::<(Trigger, MidiMessage)>::empty(),
        p.slots().len() == 7,
        plays_notes(p.slots()[0], 43, chorus_notes_spec(), 220 * MS),
        plays_notes(p.slots()[1], 43, moved_up(wild_notes_spec(), 24), 110 * MS),
        plays_notes(p.slots()[2], 45, chorus_notes_spec(), 220 * MS),
        plays_notes(p.slots()[3], 36, wild_notes_spec(), 220 * MS),
        plays_notes(p.slots()[4], 52, Seq::empty(), 220 * MS),
        p.slots()[5].0@ == (DEFAULT_IN_DEVICE@, 50u8),
        p.slots()[5].1 matches AnyEffect::SweepDown(s) && s.output_device() == DEFAULT_OUT_DEVICE@
            && s.min_value() == 30 && s.control_index() == TEST_CUTOFF,
        p.slots()[6].0@ == (DEFAULT_IN_DEVICE@, 48u8),
        p.slots()[6].1 matches AnyEffect::ControlSequencer(s) && s.output_device() == DEFAULT_OUT_DEVICE@
            && s.control_index() == TEST_CUTOFF && s.values() == seq![30u8, 100u8, 30u8, 100u8]
            && s.stop_value() == 30 && s.time_per_note() == 500 * MS,
{
    let a = pattern_of(&[45u8, 57u8]);
    let b = pattern_of(&[48u8, 60u8]);
    let c = pattern_of(&[43u8, 55u8]);
    let d = pattern_of(&[38u8, 50u8]);
    assert(a@ =~= seq![45u8, 57u8]);
    assert(b@ =~= seq![48u8, 60u8]);
    assert(c@ =~= seq![43u8, 55u8]);
    assert(d@ =~= seq![38u8, 50u8]);
    let mut parts: Vec<Vec<u8>> = Vec::new();
    parts.push(repeated(a.as_slice(), 4));
    parts.push(repeated(b.as_slice(), 4));
    parts.push(repeated(c.as_slice(), 4));
    parts.push(repeated(d.as_slice(), 4));
    assert(Seq::new(parts@.len(), |i: int| parts@[i]@) =~= seq![
        repeated_spec(seq![45u8, 57u8], 4),
        repeated_spec(seq![48u8, 60u8], 4),
        repeated_spec(seq![43u8, 55u8], 4),
        repeated_spec(seq![38u8, 50u8], 4),
    ]);
    let chorus = concat(parts);
    let chorus_notes = repeated(chorus.as_slice(), 6);
    let w = pattern_of(&[45u8, 47u8, 53u8, 57u8, 60u8, 67u8, 60u8, 57u8, 53u8, 47u8]);
    assert(w@ =~= seq![45u8, 47u8, 53u8, 57u8, 60u8, 67u8, 60u8, 57u8, 53u8, 47u8]);
    let wild_notes = repeated(w.as_slice(), 50);
    let moved = repeated(w.as_slice(), 50);
    proof {
        lemma_repeated_bounded(w@, 50, 67);
    }
    let wild_up = crate::utils::add(moved, 24);
    assert(wild_up@ =~= moved_up(wild_notes_spec(), 24));
    let chorus_again = repeated(chorus.as_slice(), 6);

    let mut effects: Vec<Slot> = Vec::new();
    effects.push((Trigger::new(DEFAULT_IN_DEVICE, 43), AnyEffect::NoteSequencer(NoteSequencer::new(DEFAULT_OUT_DEVICE, chorus_notes, 220 * MS, 0x7f))));
    effects.push((Trigger::new(DEFAULT_IN_DEVICE, 43), AnyEffect::NoteSequencer(NoteSequencer::new(DEFAULT_OUT_DEVICE, wild_up, 110 * MS, 0x7f))));
    effects.push((Trigger::new(DEFAULT_IN_DEVICE, 45), AnyEffect::NoteSequencer(NoteSequencer::new(DEFAULT_OUT_DEVICE, chorus_again, 220 * MS, 0x7f))));
    effects.push((Trigger::new(DEFAULT_IN_DEVICE, 36), AnyEffect::NoteSequencer(NoteSequencer::new(DEFAULT_OUT_DEVICE, wild_notes, 220 * MS, 0x7f))));
    effects.push((Trigger::new(DEFAULT_IN_DEVICE, 52), AnyEffect::NoteSequencer(NoteSequencer::new(DEFAULT_OUT_DEVICE, Vec::new(), 220 * MS, 0x7f))));
    effects.push((Trigger::new(DEFAULT_IN_DEVICE, 50), AnyEffect::SweepDown(SweepDown::new(DEFAULT_OUT_DEVICE, 30, TEST_CUTOFF))));
    let mut values: Vec<u8> = Vec::new();
    values.push(30);
    values.push(100);
    values.push(30);
    values.push(100);
    assert(values@ =~= seq![30u8, 100u8, 30u8, 100u8]);
    effects.push((Trigger::new(DEFAULT_IN_DEVICE, 48), AnyEffect::ControlSequencer(ControlSequencer::new(DEFAULT_OUT_DEVICE, TEST_CUTOFF, values, 30, 500 * MS))));
    Patch::new("Test", effects, 0, None)
}

pub const C2: u8 = 36;
pub const D3: u8 = 50;
pub const A3: u8 = 57;
pub const C4: u8 = 60;
pub const A4: u8 = 69;
pub const C5: u8 = 72;
pub const CIS5: u8 = 73;
pub const D5: u8 = 74;
pub const E5: u8 = 76;

/// The device that pedal melodies and harmony buttons of the songs play to
/// and listen on.
pub const LOOP: &'static str = "LOOP";
pub const PEDAL_NOTE: &'static str = "PEDAL_NOTE";
pub const BASE_NOTE: &'static str = "BASE_NOTE";
pub const LARS_OUT: &'static str = "LARS_OUT";

pub open spec fn secs(s: int) -> int {
    s * 1000 * MS
}

/// The effect is a fresh harmony drum with these settings.
pub open spec fn is_drum(e: AnyEffect, hin: Seq<char>, out: Seq<char>, range: (u8, u8), notes: Seq<u8>, nd: int, db: int, rd: int, now: u64) -> bool {
    e matches AnyEffect::HarmonyDrum(d) && d.harmony_input_device() == hin && d.output_device() == out
        && d.note_range() == range && d.notes() == notes && d.note_duration() == nd && d.debounce_duration() == db
        && d.reset_duration() == rd && d.notes_index() == 0 && d.current_note() == C3 && d.last_timestamp() == now
}

/// The effect is a fresh pedal melody with these settings.
pub open spec fn is_pedal_melody(e: AnyEffect, input: Seq<char>, output: Seq<char>, notes: Seq<u8>, lower: u8, upper: u8) -> bool {
    e matches AnyEffect::PedalMelody(p) && p.input_device() == input && p.output_device() == output
        && p.note_mappings() == notes_mapping(notes, lower, upper) && p.prev_note_value() == 0
}

/// The effect is a fresh sustaining melody with these settings.
pub open spec fn is_sustaining(e: AnyEffect, device: Seq<char>, start: u8, stop: u8, output: Seq<char>, notes: Seq<u8>, rd: int, db: int, now: u64) -> bool {
    e matches AnyEffect::ButtonMelodySustaining(b) && b.button_device() == device && b.button_note_start() == start
        && b.button_note_stop() == stop && b.output_device() == output && b.notes() == notes && b.reset_duration() == rd
        && b.debounce_duration() == db && b.notes_index() == 0 && b.current_note() == None::<u8> && b.last_timestamp() == now
}

/// The melody is fresh, with these settings and no reset filter.
pub open spec fn is_melody(b: ButtonMelody, device: Seq<char>, buttons: Seq<u8>, output: Seq<char>, notes: Seq<i8>, base: i8, rd: int, now: u64) -> bool {
    &&& b.inv()
    &&& b.button_device() == device && b.button_notes() == buttons && b.output_device() == output
    &&& b.notes() == notes && b.base_note() == base && b.reset_duration() == rd
    &&& b.notes_index() == 0 && b.current_note() == None::<u8> && b.last_timestamp() == now
    &&& b.reset_filter() == None::<MidiFilterView>
}

pub open spec fn notes_filter(device: Seq<char>) -> MidiFilterView {
    MidiFilterView { device, range: ALL_REAL_NOTES, filter_type: FilterType::Note }
}

pub open spec fn note_filter(device: Seq<char>, note: u8) -> MidiFilterView {
    MidiFilterView { device, range: (note, note), filter_type: FilterType::Note }
}

fn melody(device: &str, buttons: &[u8], output: &str, notes: &[i8], base: i8, now: u64) -> (b: ButtonMelody)
    ensures
        is_melody(b, device@, buttons@, output@, notes@, base, secs(2), now),
{
    ButtonMelody::new(device, vstd::slice::slice_to_vec(buttons), output, vstd::slice::slice_to_vec(notes), base, 2000 * MS, now)
}

/// The harmony drum test song: drums on the sample pad whose notes follow
/// the harmony of the default input, the pedal forwarded as cutoff and as a
/// button, and a drum played by that button.
pub fn create_harmony_drum_test_song(express_pedal: &str, now: u64) -> (p: Patch)
    ensures
        p.inv(),
        p.patch_name() == "HarmonyTest"@,
        p.program_number() == 45,
        p.light() == None::<MidiLightPatch>,
        p.last_events() == Seq::<(Trigger, MidiMessage)>::empty(),
        p.slots().len() == 5,
        p.slots()[0].0@ == (SAMPLE_PAD@, 45u8),
        is_drum(p.slots()[0].1, USB_MIDI_ADAPTER@, USB_MIDI_ADAPTER@, (C2, D3), seq![0u8], 100 * MS, 0, secs(3600), now),
        p.slots()[1].0@ == (SAMPLE_PAD@, 51u8),
        is_drum(p.slots()[1].1, USB_MIDI_ADAPTER@, USB_MIDI_ADAPTER@, (C2, C5), seq![7u8, 12u8, 19u8], 100 * MS, 0, secs(3600), now),
        p.slots()[2].0@ == (SAMPLE_PAD@, 0u8),
        p.slots()[2].1 matches AnyEffect::ControlForwarder(f) && f.input_device() == express_pedal@
            && f.output_device() == USB_MIDI_ADAPTER@ && f.control_index() == CUTOFF,
        p.slots()[3].0@ == (SAMPLE_PAD@, 0u8),
        p.slots()[3].1 matches AnyEffect::PedalButton(b) && b.input_device() == express_pedal@
            && b.output_device() == LOOP@ && b.note() == C5 && b.prev_control_value() == 0,
        p.slots()[4].0@ == (LOOP@, C5),
        is_drum(p.slots()[4].1, USB_MIDI_ADAPTER@, USB_MIDI_ADAPTER@, (C2, C5), seq![4u8, 7u8, 4u8, 0u8, 4u8, 7u8, 16u8, 12u8],
            100 * MS, 200 * MS, secs(2), now),
{
    let n1 = pattern_of(&[0u8]);
    assert(n1@ =~= seq![0u8]);
    let n2 = pattern_of(&[7u8, 12u8, 19u8]);
    assert(n2@ =~= seq![7u8, 12u8, 19u8]);
    let n3 = pattern_of(&[4u8, 7u8, 4u8, 0u8, 4u8, 7u8, 16u8, 12u8]);
    assert(n3@ =~= seq![4u8, 7u8, 4u8, 0u8, 4u8, 7u8, 16u8, 12u8]);
    let mut effects: Vec<Slot> = Vec::new();
    effects.push((Trigger::new(SAMPLE_PAD, 45), AnyEffect::HarmonyDrum(HarmonyDrum::new(
        USB_MIDI_ADAPTER, USB_MIDI_ADAPTER, (C2, D3), n1, 100 * MS, 0, 3_600_000 * MS, now))));
    effects.push((Trigger::new(SAMPLE_PAD, 51), AnyEffect::HarmonyDrum(HarmonyDrum::new(
        USB_MIDI_ADAPTER, USB_MIDI_ADAPTER, (C2, C5), n2, 100 * MS, 0, 3_600_000 * MS, now))));
    effects.push((Trigger::new(SAMPLE_PAD, 0), AnyEffect::ControlForwarder(ControlForwarder::new(
        express_pedal, USB_MIDI_ADAPTER, CUTOFF))));
    effects.push((Trigger::new(SAMPLE_PAD, 0), AnyEffect::PedalButton(PedalButton::new(express_pedal, LOOP, C5))));
    effects.push((Trigger::new(LOOP, C5), AnyEffect::HarmonyDrum(HarmonyDrum::new(
        USB_MIDI_ADAPTER, USB_MIDI_ADAPTER, (C2, C5), n3, 100 * MS, 200 * MS, 2000 * MS, now))));
    Patch::new("HarmonyTest", effects, 45, None)
}

/// "liebeslieder": the pedal plays one of three notes to the loop, and the
/// loop's buttons play a sustained melody on the default output.
pub fn liebeslieder(express_pedal: &str, now: u64) -> (p: Patch)
    ensures
        p.inv(),
        p.patch_name() == "liebeslieder"@,
        p.program_number() == 27,
        p.light() == None::<MidiLightPatch>,
        p.last_events() == Seq::<(Trigger, MidiMessage)>::empty(),
        p.slots().len() == 2,
        p.slots()[0].0@ == (crate::trigger::never_device(), 0u8),
        is_pedal_melody(p.slots()[0].1, express_pedal@, LOOP@, seq![C5, D5, E5], 1, 127),
        p.slots()[1].0@ == (crate::trigger::never_device(), 0u8),
        is_sustaining(p.slots()[1].1, LOOP@, C5, E5, USB_MIDI_ADAPTER@, seq![72u8, 76u8, 71u8, 69u8, 72u8, 76u8, 79u8, 77u8],
            secs(5), 250 * MS, now),
{
    let pedal_notes = pattern_of(&[C5, D5, E5]);
    assert(pedal_notes@ =~= seq![C5, D5, E5]);
    let mut intervals: Vec<i16> = Vec::new();
    intervals.push(0);
    intervals.push(4);
    intervals.push(-1);
    intervals.push(-3);
    intervals.push(0);
    intervals.push(4);
    intervals.push(7);
    intervals.push(5);
    let notes = self::add(intervals, C5);
    assert(notes@ =~= seq![72u8, 76u8, 71u8, 69u8, 72u8, 76u8, 79u8, 77u8]);
    let mut effects: Vec<AnyEffect> = Vec::new();
    effects.push(AnyEffect::PedalMelody(PedalMelody::new_with_treshholds(express_pedal, LOOP, pedal_notes.as_slice(), 1, 127)));
    effects.push(AnyEffect::ButtonMelodySustaining(ButtonMelodySustaining::new(
        LOOP, C5, E5, USB_MIDI_ADAPTER, notes, 5000 * MS, 250 * MS, now)));
    let ghost es = effects@;
    let p = Patch::new_simple("liebeslieder", effects, 27);
    assert(p.slots()[0].1 == es[0]);
    assert(p.slots()[1].1 == es[1]);
    p
}

/// "sicherheitskopie": the pedal plays a note to the loop, which plays a
/// melody on the default output.
pub fn sicherheitskopie(express_pedal: &str, now: u64) -> (p: Patch)
    ensures
        p.inv(),
        p.patch_name() == "sicherheitskopie"@,
        p.program_number() == 30,
        p.light() == None::<MidiLightPatch>,
        p.last_events() == Seq::<(Trigger, MidiMessage)>::empty(),
        p.slots().len() == 2,
        p.slots()[0].0@ == (crate::trigger::never_device(), 0u8),
        is_pedal_melody(p.slots()[0].1, express_pedal@, LOOP@, seq![C5], LOWER_THRESHOLD, UPPER_THRESHOLD),
        p.slots()[1].0@ == (LOOP@, C5),
        p.slots()[1].1 matches AnyEffect::ButtonMelody(b) && is_melody(b, LOOP@, seq![C5], USB_MIDI_ADAPTER@,
            seq![5i8, 3i8, 1i8, 5i8, 3i8, 1i8, 8i8, 7i8, 5i8], CIS5 as i8, secs(2), now),
{
    let pedal_notes = pattern_of(&[C5]);
    assert(pedal_notes@ =~= seq![C5]);
    let buttons = [C5];
    let notes = [5i8, 3i8, 1i8, 5i8, 3i8, 1i8, 8i8, 7i8, 5i8];
    let b = melody(LOOP, &buttons, USB_MIDI_ADAPTER, &notes, CIS5 as i8, now);
    assert(buttons@ =~= seq![C5]);
    assert(notes@ =~= seq![5i8, 3i8, 1i8, 5i8, 3i8, 1i8, 8i8, 7i8, 5i8]);
    let mut effects: Vec<Slot> = Vec::new();
    effects.push((Trigger::never(), AnyEffect::PedalMelody(PedalMelody::new(express_pedal, LOOP, pedal_notes.as_slice()))));
    effects.push((Trigger::new(LOOP, C5), AnyEffect::ButtonMelody(b)));
    Patch::new("sicherheitskopie", effects, 30, None)
}

pub open spec fn notes_on_filter(device: Seq<char>) -> MidiFilterView {
    MidiFilterView { device, range: ALL_REAL_NOTES, filter_type: FilterType::NoteOn }
}

/// The effect is a harmony button melody with these filters, melodies and
/// activity.
pub open spec fn is_harmony(e: AnyEffect, harmony: MidiFilterView, stop: MidiFilterView, melodies: Seq<ButtonMelody>, active: bool) -> bool {
    e matches AnyEffect::HarmonyButtonMelody(h) && h.harmony_input_filter@ == harmony
        && h.stop_signal_filter == Some(h.stop_signal_filter->0) && h.stop_signal_filter->0@ == stop
        && h.button_melodies.melodies() == melodies && h.active == active
}

fn harmony(harmony_filter: MidiFilter, stop_filter: MidiFilter, melodies: Vec<ButtonMelody>, active: bool) -> (e: AnyEffect)
    requires
        forall|i: int| 0 <= i < melodies@.len() ==> #[trigger] melodies@[i].inv(),
    ensures
        is_harmony(e, harmony_filter@, stop_filter@, melodies@, active),
        e.inv(),
{
    let h = HarmonyButtonMelody::new(harmony_filter, Some(stop_filter), melodies, active);
    proof {
        lemma_chain_all_inv(h.button_melodies);
    }
    AnyEffect::HarmonyButtonMelody(h)
}

/// "system": the hand drum's notes go to the through port, and they also
/// set the base note of two active button melodies on it; the pedal's note
/// 1 stops them.
pub fn system(hand_sonic: &str, now: u64) -> (p: Patch)
    ensures
        p.inv(),
        p.patch_name() == "system"@,
        p.program_number() == 18,
        p.light() == None::<MidiLightPatch>,
        p.last_events() == Seq::<(Trigger, MidiMessage)>::empty(),
        p.slots().len() == 2,
        p.slots()[0].0@ == (crate::trigger::never_device(), 0u8),
        p.slots()[0].1 matches AnyEffect::MidiForwarder(f) && f.input_filter() == notes_filter(hand_sonic@)
            && f.output_device() == THROUGH_PORT@,
        p.slots()[1].0@ == (crate::trigger::never_device(), 0u8),
        ({
            let h = p.slots()[1].1->HarmonyButtonMelody_0;
            &&& is_harmony(p.slots()[1].1, notes_filter(hand_sonic@), note_filter(PEDAL_NOTE@, 1), h.button_melodies.melodies(), true)
            &&& h.button_melodies.melodies().len() == 2
            &&& is_melody(h.button_melodies.melodies()[0], hand_sonic@, seq![1u8], THROUGH_PORT@, seq![12i8, 19i8], C4 as i8, secs(2), now)
            &&& is_melody(h.button_melodies.melodies()[1], hand_sonic@, seq![5u8], THROUGH_PORT@, seq![19i8], C4 as i8, secs(2), now)
        }),
{
    let b1 = [1u8];
    let n1 = [12i8, 19i8];
    let b2 = [5u8];
    let n2 = [19i8];
    assert(b1@ =~= seq![1u8]);
    assert(n1@ =~= seq![12i8, 19i8]);
    assert(b2@ =~= seq![5u8]);
    assert(n2@ =~= seq![19i8]);
    let mut melodies: Vec<ButtonMelody> = Vec::new();
    melodies.push(melody(hand_sonic, &b1, THROUGH_PORT, &n1, C4 as i8, now));
    melodies.push(melody(hand_sonic, &b2, THROUGH_PORT, &n2, C4 as i8, now));
    let mut effects: Vec<Slot> = Vec::new();
    effects.push((Trigger::never(), AnyEffect::MidiForwarder(MidiForwarder::new(MidiFilter::notes(hand_sonic), THROUGH_PORT))));
    effects.push((Trigger::never(), harmony(MidiFilter::notes(hand_sonic), MidiFilter::note(PEDAL_NOTE, 1), melodies, true)));
    Patch::new("system", effects, 18, None)
}

/// "liebt uns": the pedal plays one of three notes to `PEDAL_NOTE`, whose
/// buttons play a sustained melody on the through port and a bass line to
/// `BASE_NOTE`; the bass goes to the keyboard and sets the base note of
/// three hand drum melodies, which play through `LARS_OUT` to the default
/// output.
pub fn liebt_uns(hand_sonic: &str, express_pedal: &str, k_board: &str, now: u64) -> (p: Patch)
    ensures
        p.inv(),
        p.patch_name() == "liebt uns"@,
        p.program_number() == 18,
        p.light() == None::<MidiLightPatch>,
        p.last_events() == Seq::<(Trigger, MidiMessage)>::empty(),
        p.slots().len() == 6,
        forall|i: int| 0 <= i < 6 ==> #[trigger] p.slots()[i].0@ == (crate::trigger::never_device(), 0u8),
        is_pedal_melody(p.slots()[0].1, express_pedal@, PEDAL_NOTE@, seq![C5, 0u8, 1u8], LOWER_THRESHOLD, UPPER_THRESHOLD),
        is_sustaining(p.slots()[1].1, PEDAL_NOTE@, C5, 1, THROUGH_PORT@,
            seq![84u8, 83u8, 79u8, 81u8, 84u8, 83u8, 72u8, 77u8, 84u8, 83u8, 79u8, 72u8], secs(2), 250 * MS, now),
        is_sustaining(p.slots()[2].1, PEDAL_NOTE@, C5, 1, BASE_NOTE@, seq![57u8, 64u8, 60u8, 65u8], secs(2), 250 * MS, now),
        p.slots()[3].1 matches AnyEffect::MidiForwarder(f) && f.input_filter() == notes_filter(BASE_NOTE@)
            && f.output_device() == k_board@,
        p.slots()[4].1 matches AnyEffect::MidiForwarder(f) && f.input_filter() == notes_filter(LARS_OUT@)
            && f.output_device() == USB_MIDI_ADAPTER@,
        ({
            let h = p.slots()[5].1->HarmonyButtonMelody_0;
            &&& is_harmony(p.slots()[5].1, notes_on_filter(BASE_NOTE@), note_filter(PEDAL_NOTE@, 1), h.button_melodies.melodies(), false)
            &&& h.button_melodies.melodies().len() == 3
            &&& is_melody(h.button_melodies.melodies()[0], hand_sonic@, seq![74u8], LARS_OUT@, seq![0i8], A4 as i8, secs(2), now)
            &&& is_melody(h.button_melodies.melodies()[1], hand_sonic@, seq![60u8], LARS_OUT@, seq![12i8], A4 as i8, secs(2), now)
            &&& is_melody(h.button_melodies.melodies()[2], hand_sonic@, seq![64u8], LARS_OUT@, seq![7i8], A4 as i8, secs(2), now)
        }),
{
    let pedal_notes = pattern_of(&[C5, 0u8, 1u8]);
    assert(pedal_notes@ =~= seq![C5, 0u8, 1u8]);
    let top = crate::utils::add(pattern_of(&[12u8, 11u8, 7u8, 9u8, 12u8, 11u8, 0u8, 5u8, 12u8, 11u8, 7u8, 0u8]), C5);
    assert(top@ =~= seq![84u8, 83u8, 79u8, 81u8, 84u8, 83u8, 72u8, 77u8, 84u8, 83u8, 79u8, 72u8]);
    let bass = crate::utils::add(pattern_of(&[0u8, 7u8, 3u8, 8u8]), A3);
    assert(bass@ =~= seq![57u8, 64u8, 60u8, 65u8]);
    let b1 = [74u8];
    let b2 = [60u8];
    let b3 = [64u8];
    let n1 = [0i8];
    let n2 = [12i8];
    let n3 = [7i8];
    assert(b1@ =~= seq![74u8]);
    assert(b2@ =~= seq![60u8]);
    assert(b3@ =~= seq![64u8]);
    assert(n1@ =~= seq![0i8]);
    assert(n2@ =~= seq![12i8]);
    assert(n3@ =~= seq![7i8]);
    let mut melodies: Vec<ButtonMelody> = Vec::new();
    melodies.push(melody(hand_sonic, &b1, LARS_OUT, &n1, A4 as i8, now));
    melodies.push(melody(hand_sonic, &b2, LARS_OUT, &n2, A4 as i8, now));
    melodies.push(melody(hand_sonic, &b3, LARS_OUT, &n3, A4 as i8, now));
    let mut effects: Vec<AnyEffect> = Vec::new();
    effects.push(AnyEffect::PedalMelody(PedalMelody::new(express_pedal, PEDAL_NOTE, pedal_notes.as_slice())));
    effects.push(AnyEffect::ButtonMelodySustaining(ButtonMelodySustaining::new(
        PEDAL_NOTE, C5, 1, THROUGH_PORT, top, 2000 * MS, 250 * MS, now)));
    effects.push(AnyEffect::ButtonMelodySustaining(ButtonMelodySustaining::new(
        PEDAL_NOTE, C5, 1, BASE_NOTE, bass, 2000 * MS, 250 * MS, now)));
    effects.push(AnyEffect::MidiForwarder(MidiForwarder::new(MidiFilter::notes(BASE_NOTE), k_board)));
    effects.push(AnyEffect::MidiForwarder(MidiForwarder::new(MidiFilter::notes(LARS_OUT), USB_MIDI_ADAPTER)));
    effects.push(harmony(MidiFilter::notes_on(BASE_NOTE), MidiFilter::note(PEDAL_NOTE, 1), melodies, false));
    let ghost es = effects@;
    let p = Patch::new_simple("liebt uns", effects, 18);
    assert forall|i: int| 0 <= i < 6 implies #[trigger] p.slots()[i].0@ == (crate::trigger::never_device(), 0u8) by {
        assert(p.slots()[i].1 == es[i]);
    }
    assert(p.slots()[0].1 == es[0]);
    assert(p.slots()[1].1 == es[1]);
    assert(p.slots()[2].1 == es[2]);
    assert(p.slots()[3].1 == es[3]);
    assert(p.slots()[4].1 == es[4]);
    assert(p.slots()[5].1 == es[5]);
    p
}

/// The songs built into the patcher, in order: "Test", "HarmonyTest",
/// "liebeslieder", "sicherheitskopie", "liebt uns" and "system", each as its
/// own function builds it.
pub fn built_in_patches(hand_sonic: &str, express_pedal: &str, k_board: &str, now: u64) -> (ps: Vec<Patch>)
    ensures
        ps@.len() == 6,
        forall|i: int| 0 <= i < 6 ==> #[trigger] ps@[i].inv(),
        ps@[0].patch_name() == "Test"@,
        ps@[1].patch_name() == "HarmonyTest"@,
        ps@[2].patch_name() == "liebeslieder"@,
        ps@[3].patch_name() == "sicherheitskopie"@,
        ps@[4].patch_name() == "liebt uns"@,
        ps@[5].patch_name() == "system"@,
{
    let mut ps: Vec<Patch> = Vec::new();
    ps.push(create_test_song());
    ps.push(create_harmony_drum_test_song(express_pedal, now));
    ps.push(liebeslieder(express_pedal, now));
    ps.push(sicherheitskopie(express_pedal, now));
    ps.push(liebt_uns(hand_sonic, express_pedal, k_board, now));
    ps.push(system(hand_sonic, now));
    ps
}

} // verus!
