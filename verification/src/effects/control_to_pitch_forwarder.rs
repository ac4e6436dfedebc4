//! Forwards the value of any message of a device as a pitch-wheel position.
use vstd::prelude::*;
use crate::midi::{MidiMessage, OutputEvent, OutputEventView, contains_chars, pitch_wheel_message, sent, pitch_wheel, name_contains, string_of, no_events};
use crate::effects::effect::{Effect, MonoGroup, StartOutcome, StartOutcomeView, nothing_started, start_nothing};

verus! {

pub struct ControlToPitchForwarder {
    input_device: String,
    output_device: String,
}

impl ControlToPitchForwarder {
    pub closed spec fn input_device(&self) -> Seq<char> {
        self.input_device@
    }

    pub closed spec fn output_device(&self) -> Seq<char> {
        self.output_device@
    }

    pub fn new(input_device: &str, output_device: &str) -> (f: ControlToPitchForwarder)
        ensures
            f.input_device() == input_device@,
            f.output_device() == output_device@,
    {
        ControlToPitchForwarder { input_device: string_of(input_device), output_device: string_of(output_device) }
    }
}

impl Effect for ControlToPitchForwarder {
    open spec fn inv(&self) -> bool {
        true
    }

    open spec fn event_ok(&self, device: Seq<char>, m: MidiMessage, now: u64) -> bool {
        true
    }

    /// Every message of the input device moves the pitch wheel: its second
    /// data byte becomes the coarse position, the fine position is zero.
    open spec fn on_event(&self, device: Seq<char>, m: MidiMessage, now: u64) -> (Self, Seq<OutputEventView>) {
        if contains_chars(device, self.input_device()) {
            (*self, seq![sent(self.output_device(), pitch_wheel_message(0, m.data2))])
        } else {
            (*self, Seq::empty())
        }
    }

    open spec fn start_ok(&self, m: MidiMessage, now: u64) -> bool {
        true
    }

    open spec fn on_start(&self, m: MidiMessage, now: u64) -> (Self, StartOutcomeView) {
        (*self, nothing_started())
    }

    open spec fn on_stop(&self) -> (Self, Seq<OutputEventView>) {
        (*self, Seq::empty())
    }

    open spec fn running(&self) -> bool {
        false
    }

    open spec fn group(&self) -> MonoGroup {
        MonoGroup::Ungrouped
    }

    proof fn lemma_event_keeps_mode(&self, device: Seq<char>, m: MidiMessage, now: u64) {
    }

    proof fn lemma_stop_halts(&self) {
    }

    proof fn lemma_start_keeps_group(&self, m: MidiMessage, now: u64) {
    }

    fn can_handle(&self, device: &str, midi_message: MidiMessage, now: u64) -> (b: bool) {
        true
    }

    fn can_start(&self, midi_message: MidiMessage, now: u64) -> (b: bool) {
        true
    }

    fn on_midi_event(&mut self, device: &str, midi_message: MidiMessage, now: u64) -> (out: Vec<OutputEvent>) {
        let mut out: Vec<OutputEvent> = Vec::new();
        if name_contains(device, self.input_device.as_str()) {
            out.push(pitch_wheel(self.output_device.as_str(), 0, midi_message.data2));
        }
        proof {
            assert(out.deep_view() =~= self.on_event(device@, midi_message, now).1);
        }
        out
    }

    fn start(&mut self, midi_message: MidiMessage, now: u64) -> (out: StartOutcome) {
        start_nothing()
    }

    fn stop(&mut self) -> (out: Vec<OutputEvent>) {
        no_events()
    }

    fn is_running(&self) -> (b: bool) {
        false
    }

    fn mono_group(&self) -> (g: MonoGroup) {
        MonoGroup::Ungrouped
    }
}

} // verus!
