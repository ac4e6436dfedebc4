//! Forwards the value of any message of a device as a control change.
use vstd::prelude::*;
use crate::midi::{MidiMessage, OutputEvent, OutputEventView, contains_chars, control_change_message, sent, control_change, name_contains, string_of};
use crate::effects::effect::{Effect, MonoGroup, StartOutcome, StartOutcomeView, nothing_started, start_nothing};

verus! {

pub struct ControlForwarder {
    input_device: String,
    output_device: String,
    control_index: u8,
}

impl ControlForwarder {
    pub closed spec fn input_device(&self) -> Seq<char> {
        self.input_device@
    }

    pub closed spec fn output_device(&self) -> Seq<char> {
        self.output_device@
    }

    pub closed spec fn control_index(&self) -> u8 {
        self.control_index
    }

    pub fn new(input_device: &str, output_device: &str, control_index: u8) -> (f: ControlForwarder)
        ensures
            f.input_device() == input_device@,
            f.output_device() == output_device@,
            f.control_index() == control_index,
    {
        ControlForwarder {
            input_device: string_of(input_device),
            output_device: string_of(output_device),
            control_index,
        }
    }
}

impl Effect for ControlForwarder {
    open spec fn inv(&self) -> bool {
        true
    }

    open spec fn event_ok(&self, device: Seq<char>, m: MidiMessage, now: u64) -> bool {
        true
    }

    /// Every message of the input device becomes a control change with its
    /// second data byte as the value.
    open spec fn on_event(&self, device: Seq<char>, m: MidiMessage, now: u64) -> (Self, Seq<OutputEventView>) {
        if contains_chars(device, self.input_device()) {
            (*self, seq![sent(self.output_device(), control_change_message(self.control_index(), m.data2))])
        } else {
            (*self, Seq::empty())
        }
    }

    open spec fn start_ok(&self, m: MidiMessage, now: u64) -> bool {
        true
    }

    open spec fn on_start(&self, m: MidiMessage, now: u64) -> (Self, StartOutcomeView) {
        (*self, nothing_started())
    }

    open spec fn on_stop(&self) -> (Self, Seq<OutputEventView>) {
        (*self, Seq::empty())
    }

    open spec fn running(&self) -> bool {
        false
    }

    open spec fn group(&self) -> MonoGroup {
        MonoGroup::Ungrouped
    }

    proof fn lemma_event_keeps_mode(&self, device: Seq<char>, m: MidiMessage, now: u64) {
    }

    proof fn lemma_stop_halts(&self) {
    }

    proof fn lemma_start_keeps_group(&self, m: MidiMessage, now: u64) {
    }

    fn can_handle(&self, device: &str, midi_message: MidiMessage, now: u64) -> (b: bool) {
        true
    }

    fn can_start(&self, midi_message: MidiMessage, now: u64) -> (b: bool) {
        true
    }

    fn on_midi_event(&mut self, device: &str, midi_message: MidiMessage, now: u64) -> (out: Vec<OutputEvent>) {
        let mut out: Vec<OutputEvent> = Vec::new();
        if name_contains(device, self.input_device.as_str()) {
            out.push(control_change(self.output_device.as_str(), self.control_index, midi_message.data2));
        }
        proof {
            assert(out.deep_view() =~= self.on_event(device@, midi_message, now).1);
        }
        out
    }

    fn start(&mut self, midi_message: MidiMessage, now: u64) -> (out: StartOutcome) {
        start_nothing()
    }

    fn stop(&mut self) -> (out: Vec<OutputEvent>) {
        let out: Vec<OutputEvent> = Vec::new();
        assert(out.deep_view() =~= Seq::<OutputEventView>::empty());
        out
    }

    fn is_running(&self) -> (b: bool) {
        false
    }

    fn mono_group(&self) -> (g: MonoGroup) {
        MonoGroup::Ungrouped
    }
}

} // verus!
