//! Plays one of a list of notes depending on how far a pedal is pressed.
use vstd::prelude::*;
use crate::midi::{MidiMessage, OutputEvent, OutputEventView, contains_chars, note_on_message, note_off_message, shown, play_note_on, play_note_off, name_contains, string_of, no_events};
use crate::effects::effect::{Effect, MonoGroup, StartOutcome, StartOutcomeView, nothing_started, start_nothing};

verus! {

pub const UPPER_THRESHOLD: u8 = 124;

pub const LOWER_THRESHOLD: u8 = 4;

pub type ControlValue = u8;

pub type Note = u8;

/// The pairs (lowest pedal value, note): the first note from the upper
/// threshold up, the last note below the lowest threshold, and the notes in
/// between on equal steps between the thresholds.
pub open spec fn notes_mapping(notes: Seq<u8>, lower: u8, upper: u8) -> Seq<(u8, u8)> {
    if notes.len() <= 2 {
        seq![(UPPER_THRESHOLD, notes[0]), (0u8, if notes.len() == 2 { notes[1] } else { 0u8 })]
    } else {
        let middle = notes.len() - 2;
        let size = (upper - lower) / middle;
        seq![(UPPER_THRESHOLD, notes[0])]
            + Seq::new(middle as nat, |i: int| ((upper - (i + 1) * size) as u8, notes[i + 1]))
            + seq![(0u8, notes[notes.len() - 1])]
    }
}

/// The mapping can be built without a failure: there is a note, and with
/// three or more notes the thresholds are ascending and the number of middle
/// notes fits in a byte.
pub open spec fn mapping_ok(notes: Seq<u8>, lower: u8, upper: u8) -> bool {
    &&& notes.len() >= 1
    &&& notes.len() >= 3 ==> (lower <= upper && notes.len() <= 257)
}

pub fn create_notes_mapping(notes: &[Note]) -> (r: Vec<(ControlValue, Note)>)
    requires
        mapping_ok(notes@, LOWER_THRESHOLD, UPPER_THRESHOLD),
    ensures
        r@ == notes_mapping(notes@, LOWER_THRESHOLD, UPPER_THRESHOLD),
{
    create_notes_mapping_internal(notes, LOWER_THRESHOLD, UPPER_THRESHOLD)
}

pub fn create_notes_mapping_internal(notes: &[Note], lower_threshold: u8, upper_threshold: u8) -> (r: Vec<(ControlValue, Note)>)
    requires
        mapping_ok(notes@, lower_threshold, upper_threshold),
    ensures
        r@ == notes_mapping(notes@, lower_threshold, upper_threshold),
{
    let mut result: Vec<(u8, u8)> = Vec::new();
    result.push((UPPER_THRESHOLD, notes[0]));
    let n = notes.len();
    if n <= 2 {
        let second = if n == 2 { notes[1] } else { 0 };
        result.push((0, second));
        assert(result@ =~= notes_mapping(notes@, lower_threshold, upper_threshold));
        return result;
    }
    let middle_len = n - 2;
    let middle_count: u8 = middle_len as u8;
    let middle_note_range_size = (upper_threshold - lower_threshold) / middle_count;
    let ghost size = (upper_threshold - lower_threshold) / (middle_len as int);
    let ghost middle = Seq::new(middle_len as nat, |i: int| ((upper_threshold - (i + 1) * size) as u8, notes@[i + 1]));
    let mut i: usize = 0;
    while i < middle_len
        invariant
            n == notes@.len(),
            3 <= n <= 257,
            middle_len == n - 2,
            lower_threshold <= upper_threshold,
            middle_note_range_size == size,
            size == (upper_threshold - lower_threshold) / (middle_len as int),
            middle == Seq::new(middle_len as nat, |i: int| ((upper_threshold - (i + 1) * size) as u8, notes@[i + 1])),
            i <= middle_len,
            result@ == seq![(UPPER_THRESHOLD, notes@[0])] + middle.subrange(0, i as int),
        decreases middle_len - i,
    {
        proof {
            assert((i + 1) * size <= middle_len * size) by (nonlinear_arith)
                requires
                    i + 1 <= middle_len,
                    0 <= size,
            ;
            assert(middle_len * size <= upper_threshold - lower_threshold) by (nonlinear_arith)
                requires
                    size == (upper_threshold - lower_threshold) / (middle_len as int),
                    middle_len > 0,
                    upper_threshold - lower_threshold >= 0,
            ;
        }
        let step = (i as u8 + 1) * middle_note_range_size;
        result.push((upper_threshold - step, notes[i + 1]));
        i = i + 1;
        assert(result@ =~= seq![(UPPER_THRESHOLD, notes@[0])] + middle.subrange(0, i as int));
    }
    result.push((0, notes[n - 1]));
    assert(middle.subrange(0, middle_len as int) =~= middle);
    assert(result@ =~= notes_mapping(notes@, lower_threshold, upper_threshold));
    result
}

/// The index of the first pair from `i` on whose threshold `value` reaches.
pub open spec fn find_from(mappings: Seq<(u8, u8)>, value: u8, i: int) -> int
    decreases mappings.len() - i,
{
    if i < 0 || i >= mappings.len() {
        mappings.len() as int
    } else if value >= mappings[i].0 {
        i
    } else {
        find_from(mappings, value, i + 1)
    }
}

/// The note of the first pair whose threshold `value` reaches.
pub open spec fn select_note(mappings: Seq<(u8, u8)>, value: u8) -> u8 {
    mappings[find_from(mappings, value, 0)].1
}

/// A mapping a lookup always succeeds in: it is not empty and its last
/// threshold is zero.
pub open spec fn total_mapping(mappings: Seq<(u8, u8)>) -> bool {
    mappings.len() >= 1 && mappings[mappings.len() - 1].0 == 0
}

proof fn lemma_find_in_range(mappings: Seq<(u8, u8)>, value: u8, i: int)
    requires
        total_mapping(mappings),
        0 <= i < mappings.len(),
    ensures
        i <= find_from(mappings, value, i) < mappings.len(),
        value >= mappings[find_from(mappings, value, i)].0,
    decreases mappings.len() - i,
{
    if value < mappings[i].0 {
        lemma_find_in_range(mappings, value, i + 1);
    }
}

/// Every mapping built from notes lets every pedal value find a note.
pub proof fn lemma_mapping_total(notes: Seq<u8>, lower: u8, upper: u8)
    requires
        mapping_ok(notes, lower, upper),
    ensures
        total_mapping(notes_mapping(notes, lower, upper)),
        notes_mapping(notes, lower, upper).len() == if notes.len() <= 2 { 2 } else { notes.len() },
        notes_mapping(notes, lower, upper)[0] == (UPPER_THRESHOLD, notes[0]),
{
}

/// A pedal pressed to the upper threshold or beyond plays the first note; a
/// pedal value matching no threshold above zero plays the last pair's note.
pub proof fn lemma_select_ends(notes: Seq<u8>, lower: u8, upper: u8, value: u8)
    requires
        mapping_ok(notes, lower, upper),
    ensures
        value >= UPPER_THRESHOLD ==> select_note(notes_mapping(notes, lower, upper), value) == notes[0],
{
}

proof fn lemma_step_bound(k: int, middle: int, size: int, range: int)
    requires
        1 <= k <= middle,
        0 <= size,
        middle * size <= range,
    ensures
        0 <= k * size <= range,
{
    assert(0 <= k * size <= middle * size) by (nonlinear_arith)
        requires
            1 <= k <= middle,
            0 <= size,
    ;
}

/// With the thresholds at most the upper default, the thresholds of a
/// mapping never increase from one pair to the next.
pub proof fn lemma_thresholds_descend(notes: Seq<u8>, lower: u8, upper: u8, i: int, j: int)
    requires
        mapping_ok(notes, lower, upper),
        upper <= UPPER_THRESHOLD,
        0 <= i <= j < notes_mapping(notes, lower, upper).len(),
    ensures
        notes_mapping(notes, lower, upper)[i].0 >= notes_mapping(notes, lower, upper)[j].0,
{
    if notes.len() >= 3 {
        let middle = notes.len() - 2;
        let size = (upper - lower) / middle;
        let ms = notes_mapping(notes, lower, upper);
        assert(middle * size <= upper - lower) by (nonlinear_arith)
            requires
                size == (upper - lower) / middle,
                middle > 0,
                upper - lower >= 0,
        ;
        if 1 <= i <= middle {
            lemma_step_bound(i, middle, size, upper - lower);
        }
        if 1 <= j <= middle {
            lemma_step_bound(j, middle, size, upper - lower);
        }
        if 1 <= i && j <= middle {
            assert(i * size <= j * size) by (nonlinear_arith)
                requires
                    i <= j,
                    0 <= size,
            ;
            assert(ms[i].0 == upper - i * size);
            assert(ms[j].0 == upper - j * size);
        } else if 1 <= i && i <= middle {
            assert(ms[i].0 == upper - i * size);
        } else if i == 0 && 1 <= j && j <= middle {
            assert(ms[j].0 == upper - j * size);
        }
    }
}

pub struct PedalMelody {
    input_device: String,
    output_device: String,
    note_mappings: Vec<(ControlValue, Note)>,
    prev_note_value: u8,
}

impl PedalMelody {
    pub closed spec fn input_device(&self) -> Seq<char> {
        self.input_device@
    }

    pub closed spec fn output_device(&self) -> Seq<char> {
        self.output_device@
    }

    pub closed spec fn note_mappings(&self) -> Seq<(u8, u8)> {
        self.note_mappings@
    }

    pub closed spec fn prev_note_value(&self) -> u8 {
        self.prev_note_value
    }

    pub fn new(input_device: &str, output_device: &str, notes: &[Note]) -> (p: PedalMelody)
        requires
            mapping_ok(notes@, LOWER_THRESHOLD, UPPER_THRESHOLD),
        ensures
            p.inv(),
            p.input_device() == input_device@,
            p.output_device() == output_device@,
            p.note_mappings() == notes_mapping(notes@, LOWER_THRESHOLD, UPPER_THRESHOLD),
            p.prev_note_value() == 0,
    {
        proof {
            lemma_mapping_total(notes@, LOWER_THRESHOLD, UPPER_THRESHOLD);
        }
        PedalMelody {
            input_device: string_of(input_device),
            output_device: string_of(output_device),
            note_mappings: create_notes_mapping(notes),
            prev_note_value: 0,
        }
    }

    pub fn new_with_treshholds(input_device: &str, output_device: &str, notes: &[Note], lower_threshold: u8, upper_threshold: u8) -> (p: PedalMelody)
        requires
            mapping_ok(notes@, lower_threshold, upper_threshold),
        ensures
            p.inv(),
            p.input_device() == input_device@,
            p.output_device() == output_device@,
            p.note_mappings() == notes_mapping(notes@, lower_threshold, upper_threshold),
            p.prev_note_value() == 0,
    {
        proof {
            lemma_mapping_total(notes@, lower_threshold, upper_threshold);
        }
        PedalMelody {
            input_device: string_of(input_device),
            output_device: string_of(output_device),
            note_mappings: create_notes_mapping_internal(notes, lower_threshold, upper_threshold),
            prev_note_value: 0,
        }
    }
}

/// The events of moving from the previous note to `note`: the new note on if
/// it is a note, then the previous note off if it was one.
pub open spec fn change_events(output: Seq<char>, prev: u8, note: u8) -> Seq<OutputEventView> {
    if note == prev {
        Seq::empty()
    } else {
        (if note > 0 { seq![shown(output, note_on_message(note, 127))] } else { Seq::empty() })
            + (if prev > 0 { seq![shown(output, note_off_message(prev))] } else { Seq::empty() })
    }
}

impl Effect for PedalMelody {
    closed spec fn inv(&self) -> bool {
        total_mapping(self.note_mappings@)
    }

    open spec fn event_ok(&self, device: Seq<char>, m: MidiMessage, now: u64) -> bool {
        true
    }

    /// A value of the pedal selects a note; a different note than before is
    /// played and the one before stopped.
    closed spec fn on_event(&self, device: Seq<char>, m: MidiMessage, now: u64) -> (Self, Seq<OutputEventView>) {
        if contains_chars(device, self.input_device@) {
            let note = select_note(self.note_mappings@, m.data2);
            (
                PedalMelody {
                    input_device: self.input_device,
                    output_device: self.output_device,
                    note_mappings: self.note_mappings,
                    prev_note_value: note,
                },
                change_events(self.output_device@, self.prev_note_value, note),
            )
        } else {
            (*self, Seq::empty())
        }
    }

    open spec fn start_ok(&self, m: MidiMessage, now: u64) -> bool {
        true
    }

    open spec fn on_start(&self, m: MidiMessage, now: u64) -> (Self, StartOutcomeView) {
        (*self, nothing_started())
    }

    open spec fn on_stop(&self) -> (Self, Seq<OutputEventView>) {
        (*self, Seq::empty())
    }

    open spec fn running(&self) -> bool {
        false
    }

    open spec fn group(&self) -> MonoGroup {
        MonoGroup::Ungrouped
    }

    proof fn lemma_event_keeps_mode(&self, device: Seq<char>, m: MidiMessage, now: u64) {
    }

    proof fn lemma_stop_halts(&self) {
    }

    proof fn lemma_start_keeps_group(&self, m: MidiMessage, now: u64) {
    }

    fn can_handle(&self, device: &str, midi_message: MidiMessage, now: u64) -> (b: bool) {
        true
    }

    fn can_start(&self, midi_message: MidiMessage, now: u64) -> (b: bool) {
        true
    }

    fn on_midi_event(&mut self, device: &str, midi_message: MidiMessage, now: u64) -> (out: Vec<OutputEvent>) {
        let ghost before = *self;
        let mut out: Vec<OutputEvent> = Vec::new();
        if name_contains(device, self.input_device.as_str()) {
            let control_value = midi_message.data2;
            let ghost ms = self.note_mappings@;
            let mut i: usize = 0;
            while i < self.note_mappings.len()
                invariant
                    ms == self.note_mappings@,
                    total_mapping(ms),
                    i <= ms.len(),
                    find_from(ms, control_value, 0) == find_from(ms, control_value, i as int),
                    forall|k: int| 0 <= k < i ==> control_value < #[trigger] ms[k].0,
                ensures
                    i <= ms.len(),
                    find_from(ms, control_value, 0) == find_from(ms, control_value, i as int),
                    forall|k: int| 0 <= k < i ==> control_value < #[trigger] ms[k].0,
                    i == ms.len() || control_value >= ms[i as int].0,
                decreases ms.len() - i,
            {
                if control_value >= self.note_mappings[i].0 {
                    break;
                }
                i = i + 1;
            }
            if i == self.note_mappings.len() {
                proof {
                    assert(control_value < ms[ms.len() - 1].0);
                }
                assert(false);
            }
            let note = self.note_mappings[i].1;
            assert(note == select_note(ms, control_value));
            if note != self.prev_note_value {
                if note > 0 {
                    out.push(play_note_on(self.output_device.as_str(), note, 127));
                }
                if self.prev_note_value > 0 {
                    out.push(play_note_off(self.output_device.as_str(), self.prev_note_value));
                }
            }
            self.prev_note_value = note;
        }
        proof {
            assert(out.deep_view() =~= before.on_event(device@, midi_message, now).1);
        }
        out
    }

    fn start(&mut self, midi_message: MidiMessage, now: u64) -> (out: StartOutcome) {
        start_nothing()
    }

    fn stop(&mut self) -> (out: Vec<OutputEvent>) {
        no_events()
    }

    fn is_running(&self) -> (b: bool) {
        false
    }

    fn mono_group(&self) -> (g: MonoGroup) {
        MonoGroup::Ungrouped
    }
}

/// An event of the pedal's device selects the note of its value, which
/// becomes the previous note; a change of note sends the change events.
/// Other devices change nothing.
pub proof fn lemma_pedal_melody_event(p: PedalMelody, device: Seq<char>, m: MidiMessage, now: u64)
    ensures
        p.on_event(device, m, now).0.input_device() == p.input_device(),
        p.on_event(device, m, now).0.output_device() == p.output_device(),
        p.on_event(device, m, now).0.note_mappings() == p.note_mappings(),
        p.on_event(device, m, now).0.prev_note_value() == if contains_chars(device, p.input_device()) {
            select_note(p.note_mappings(), m.data2)
        } else {
            p.prev_note_value()
        },
        p.on_event(device, m, now).1 == if contains_chars(device, p.input_device()) {
            change_events(p.output_device(), p.prev_note_value(), select_note(p.note_mappings(), m.data2))
        } else {
            Seq::<OutputEventView>::empty()
        },
        p.inv() ==> p.on_event(device, m, now).0.inv(),
{
}

} // verus!
