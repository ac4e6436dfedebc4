//! Forwards the messages a filter lets through to an output device.
use vstd::prelude::*;
use crate::midi::{MidiMessage, OutputEvent, OutputEventView, sent, send_midi, string_of, no_events};
use crate::utils::midi_filter::{MidiFilter, filter_matches};
use crate::effects::effect::{Effect, MonoGroup, StartOutcome, StartOutcomeView, nothing_started, start_nothing};

verus! {

pub struct MidiForwarder {
    input_filter: MidiFilter,
    output_device: String,
}

impl MidiForwarder {
    pub closed spec fn input_filter(&self) -> crate::utils::midi_filter::MidiFilterView {
        self.input_filter@
    }

    pub closed spec fn output_device(&self) -> Seq<char> {
        self.output_device@
    }

    pub fn new(input_filter: MidiFilter, output_device: &str) -> (f: MidiForwarder)
        ensures
            f.input_filter() == input_filter@,
            f.output_device() == output_device@,
    {
        MidiForwarder { input_filter, output_device: string_of(output_device) }
    }
}

impl Effect for MidiForwarder {
    open spec fn inv(&self) -> bool {
        true
    }

    open spec fn event_ok(&self, device: Seq<char>, m: MidiMessage, now: u64) -> bool {
        true
    }

    /// A message that passes the filter is sent unchanged to the output.
    open spec fn on_event(&self, device: Seq<char>, m: MidiMessage, now: u64) -> (Self, Seq<OutputEventView>) {
        if filter_matches(self.input_filter(), device, m) {
            (*self, seq![sent(self.output_device(), m)])
        } else {
            (*self, Seq::empty())
        }
    }

    open spec fn start_ok(&self, m: MidiMessage, now: u64) -> bool {
        true
    }

    open spec fn on_start(&self, m: MidiMessage, now: u64) -> (Self, StartOutcomeView) {
        (*self, nothing_started())
    }

    open spec fn on_stop(&self) -> (Self, Seq<OutputEventView>) {
        (*self, Seq::empty())
    }

    open spec fn running(&self) -> bool {
        false
    }

    open spec fn group(&self) -> MonoGroup {
        MonoGroup::Ungrouped
    }

    proof fn lemma_event_keeps_mode(&self, device: Seq<char>, m: MidiMessage, now: u64) {
    }

    proof fn lemma_stop_halts(&self) {
    }

    proof fn lemma_start_keeps_group(&self, m: MidiMessage, now: u64) {
    }

    fn can_handle(&self, device: &str, midi_message: MidiMessage, now: u64) -> (b: bool) {
        true
    }

    fn can_start(&self, midi_message: MidiMessage, now: u64) -> (b: bool) {
        true
    }

    fn on_midi_event(&mut self, device: &str, midi_message: MidiMessage, now: u64) -> (out: Vec<OutputEvent>) {
        let mut out: Vec<OutputEvent> = Vec::new();
        if self.input_filter.matches(device, midi_message) {
            out.push(send_midi(self.output_device.as_str(), midi_message));
        }
        proof {
            assert(out.deep_view() =~= self.on_event(device@, midi_message, now).1);
        }
        out
    }

    fn start(&mut self, midi_message: MidiMessage, now: u64) -> (out: StartOutcome) {
        start_nothing()
    }

    fn stop(&mut self) -> (out: Vec<OutputEvent>) {
        no_events()
    }

    fn is_running(&self) -> (b: bool) {
        false
    }

    fn mono_group(&self) -> (g: MonoGroup) {
        MonoGroup::Ungrouped
    }
}

} // verus!
