//! Plays a note when a pedal is pressed down past a threshold.
use vstd::prelude::*;
use crate::midi::{MidiMessage, OutputEvent, OutputEventView, contains_chars, control_change_message, note_on_message, note_off_message, sent, shown, control_change, play_note_on, play_note_off, name_contains, string_of, no_events};
use crate::effects::effect::{Effect, MonoGroup, StartOutcome, StartOutcomeView, nothing_started, start_nothing};

verus! {

/// Pedal values above this count as pressed.
pub const PRESS_THRESHOLD: u8 = 120;

pub struct PedalButton {
    input_device: String,
    output_device: String,
    note: u8,
    prev_control_value: u8,
}

impl PedalButton {
    pub closed spec fn input_device(&self) -> Seq<char> {
        self.input_device@
    }

    pub closed spec fn output_device(&self) -> Seq<char> {
        self.output_device@
    }

    pub closed spec fn note(&self) -> u8 {
        self.note
    }

    pub closed spec fn prev_control_value(&self) -> u8 {
        self.prev_control_value
    }

    pub fn new(input_device: &str, output_device: &str, note: u8) -> (b: PedalButton)
        ensures
            b.input_device() == input_device@,
            b.output_device() == output_device@,
            b.note() == note,
            b.prev_control_value() == 0,
    {
        PedalButton {
            input_device: string_of(input_device),
            output_device: string_of(output_device),
            prev_control_value: 0,
            note,
        }
    }
}

/// The events of a press: the pedal value as cutoff control change (74) back
/// to the pedal's device, then the note on and off at full velocity.
pub open spec fn press_events(input: Seq<char>, output: Seq<char>, note: u8, value: u8) -> Seq<OutputEventView> {
    seq![
        sent(input, control_change_message(74, value)),
        shown(output, note_on_message(note, 127)),
        shown(output, note_off_message(note)),
    ]
}

impl Effect for PedalButton {
    open spec fn inv(&self) -> bool {
        true
    }

    open spec fn event_ok(&self, device: Seq<char>, m: MidiMessage, now: u64) -> bool {
        true
    }

    /// A value of the pedal above the threshold after one at or below it is a
    /// press; every value of the pedal becomes the previous value.
    closed spec fn on_event(&self, device: Seq<char>, m: MidiMessage, now: u64) -> (Self, Seq<OutputEventView>) {
        if contains_chars(device, self.input_device@) {
            let next = PedalButton {
                input_device: self.input_device,
                output_device: self.output_device,
                note: self.note,
                prev_control_value: m.data2,
            };
            if m.data2 > PRESS_THRESHOLD && self.prev_control_value <= PRESS_THRESHOLD {
                (next, press_events(self.input_device@, self.output_device@, self.note, m.data2))
            } else {
                (next, Seq::empty())
            }
        } else {
            (*self, Seq::empty())
        }
    }

    open spec fn start_ok(&self, m: MidiMessage, now: u64) -> bool {
        true
    }

    open spec fn on_start(&self, m: MidiMessage, now: u64) -> (Self, StartOutcomeView) {
        (*self, nothing_started())
    }

    open spec fn on_stop(&self) -> (Self, Seq<OutputEventView>) {
        (*self, Seq::empty())
    }

    open spec fn running(&self) -> bool {
        false
    }

    open spec fn group(&self) -> MonoGroup {
        MonoGroup::Ungrouped
    }

    proof fn lemma_event_keeps_mode(&self, device: Seq<char>, m: MidiMessage, now: u64) {
    }

    proof fn lemma_stop_halts(&self) {
    }

    proof fn lemma_start_keeps_group(&self, m: MidiMessage, now: u64) {
    }

    fn can_handle(&self, device: &str, midi_message: MidiMessage, now: u64) -> (b: bool) {
        true
    }

    fn can_start(&self, midi_message: MidiMessage, now: u64) -> (b: bool) {
        true
    }

    fn on_midi_event(&mut self, device: &str, midi_message: MidiMessage, now: u64) -> (out: Vec<OutputEvent>) {
        let ghost before = *self;
        let mut out: Vec<OutputEvent> = Vec::new();
        if name_contains(device, self.input_device.as_str()) {
            let control_value = midi_message.data2;
            if control_value > PRESS_THRESHOLD && self.prev_control_value <= PRESS_THRESHOLD {
                out.push(control_change(self.input_device.as_str(), 74, midi_message.data2));
                out.push(play_note_on(self.output_device.as_str(), self.note, 127));
                out.push(play_note_off(self.output_device.as_str(), self.note));
            }
            self.prev_control_value = control_value;
        }
        proof {
            assert(out.deep_view() =~= before.on_event(device@, midi_message, now).1);
        }
        out
    }

    fn start(&mut self, midi_message: MidiMessage, now: u64) -> (out: StartOutcome) {
        start_nothing()
    }

    fn stop(&mut self) -> (out: Vec<OutputEvent>) {
        no_events()
    }

    fn is_running(&self) -> (b: bool) {
        false
    }

    fn mono_group(&self) -> (g: MonoGroup) {
        MonoGroup::Ungrouped
    }
}

/// The note plays once per press: while the pedal stays above the threshold,
/// further values play nothing.
pub proof fn lemma_pedal_plays_once_per_press(b: PedalButton, device: Seq<char>, m1: MidiMessage, m2: MidiMessage, t1: u64, t2: u64)
    requires
        contains_chars(device, b.input_device()),
        m1.data2 > PRESS_THRESHOLD,
        m2.data2 > PRESS_THRESHOLD,
    ensures
        b.on_event(device, m1, t1).0.on_event(device, m2, t2).1 == Seq::<OutputEventView>::empty(),
{
}

/// An event of the pedal's device becomes its previous value, and is a
/// press, which sends the press events, exactly when it rises above the
/// threshold from at or below it; other devices change nothing.
pub proof fn lemma_pedal_button_event(b: PedalButton, device: Seq<char>, m: MidiMessage, now: u64)
    ensures
        b.on_event(device, m, now).0.input_device() == b.input_device(),
        b.on_event(device, m, now).0.output_device() == b.output_device(),
        b.on_event(device, m, now).0.note() == b.note(),
        b.on_event(device, m, now).0.prev_control_value() == if contains_chars(device, b.input_device()) {
            m.data2
        } else {
            b.prev_control_value()
        },
        b.on_event(device, m, now).1 == if contains_chars(device, b.input_device()) && m.data2 > PRESS_THRESHOLD
            && b.prev_control_value() <= PRESS_THRESHOLD {
            press_events(b.input_device(), b.output_device(), b.note(), m.data2)
        } else {
            Seq::<OutputEventView>::empty()
        },
{
}

} // verus!
