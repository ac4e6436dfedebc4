//! Multiplies the latest values of two filtered inputs into one controller.
use vstd::prelude::*;
use crate::midi::{MidiMessage, OutputEvent, OutputEventView, control_change_message, sent, control_change, string_of, no_events};
use crate::utils::midi_filter::{MidiFilter, MidiFilterView, filter_matches};
use crate::effects::effect::{Effect, MonoGroup, StartOutcome, StartOutcomeView, nothing_started, start_nothing};

verus! {

pub struct ControlMultiplier {
    input_device1: MidiFilter,
    input_device2: MidiFilter,
    output_device: String,
    control_index: u8,
    value1: u8,
    value2: u8,
}

/// The product of two values scaled back to a data byte: `v1 * v2 / 128`,
/// kept to its lowest eight bits.
pub open spec fn product_value(v1: u8, v2: u8) -> int {
    ((v1 * v2) / 128) % 256
}

impl ControlMultiplier {
    pub closed spec fn filter1(&self) -> MidiFilterView {
        self.input_device1@
    }

    pub closed spec fn filter2(&self) -> MidiFilterView {
        self.input_device2@
    }

    pub closed spec fn output_device(&self) -> Seq<char> {
        self.output_device@
    }

    pub closed spec fn control_index(&self) -> u8 {
        self.control_index
    }

    pub closed spec fn value1(&self) -> u8 {
        self.value1
    }

    pub closed spec fn value2(&self) -> u8 {
        self.value2
    }

    pub fn new(input_device1: MidiFilter, input_device2: MidiFilter, output_device: &str, control_index: u8) -> (c: ControlMultiplier)
        ensures
            c.filter1() == input_device1@,
            c.filter2() == input_device2@,
            c.output_device() == output_device@,
            c.control_index() == control_index,
            c.value1() == 0,
            c.value2() == 0,
    {
        ControlMultiplier {
            input_device1,
            input_device2,
            output_device: string_of(output_device),
            control_index,
            value1: 0,
            value2: 0,
        }
    }
}

fn scaled_product(v1: u8, v2: u8) -> (r: u8)
    ensures
        r == product_value(v1, v2),
{
    assert(v1 * v2 <= 255 * 255) by (nonlinear_arith)
        requires
            v1 <= 255,
            v2 <= 255,
    ;
    let product: u16 = (v1 as u16) * (v2 as u16);
    let value: u16 = product / 128;
    assert(value as u8 == value % 256) by (bit_vector);
    #[verifier::truncate]
    (value as u8)
}

impl Effect for ControlMultiplier {
    open spec fn inv(&self) -> bool {
        true
    }

    open spec fn event_ok(&self, device: Seq<char>, m: MidiMessage, now: u64) -> bool {
        true
    }

    /// A message that passes a filter sets that filter's value to its second
    /// data byte; if any value was set, the product of both values is sent.
    closed spec fn on_event(&self, device: Seq<char>, m: MidiMessage, now: u64) -> (Self, Seq<OutputEventView>) {
        let hit1 = filter_matches(self.input_device1@, device, m);
        let hit2 = filter_matches(self.input_device2@, device, m);
        let v1 = if hit1 { m.data2 } else { self.value1 };
        let v2 = if hit2 { m.data2 } else { self.value2 };
        let next = ControlMultiplier {
            input_device1: self.input_device1,
            input_device2: self.input_device2,
            output_device: self.output_device,
            control_index: self.control_index,
            value1: v1,
            value2: v2,
        };
        if hit1 || hit2 {
            (next, seq![sent(self.output_device@, control_change_message(self.control_index, product_value(v1, v2) as u8))])
        } else {
            (next, Seq::empty())
        }
    }

    open spec fn start_ok(&self, m: MidiMessage, now: u64) -> bool {
        true
    }

    open spec fn on_start(&self, m: MidiMessage, now: u64) -> (Self, StartOutcomeView) {
        (*self, nothing_started())
    }

    open spec fn on_stop(&self) -> (Self, Seq<OutputEventView>) {
        (*self, Seq::empty())
    }

    open spec fn running(&self) -> bool {
        false
    }

    open spec fn group(&self) -> MonoGroup {
        MonoGroup::Ungrouped
    }

    proof fn lemma_event_keeps_mode(&self, device: Seq<char>, m: MidiMessage, now: u64) {
    }

    proof fn lemma_stop_halts(&self) {
    }

    proof fn lemma_start_keeps_group(&self, m: MidiMessage, now: u64) {
    }

    fn can_handle(&self, device: &str, midi_message: MidiMessage, now: u64) -> (b: bool) {
        true
    }

    fn can_start(&self, midi_message: MidiMessage, now: u64) -> (b: bool) {
        true
    }

    fn on_midi_event(&mut self, device: &str, midi_message: MidiMessage, now: u64) -> (out: Vec<OutputEvent>) {
        let ghost before = *self;
        let mut value_set = false;
        if self.input_device1.matches(device, midi_message) {
            self.value1 = midi_message.data2;
            value_set = true;
        }
        if self.input_device2.matches(device, midi_message) {
            self.value2 = midi_message.data2;
            value_set = true;
        }
        let mut out: Vec<OutputEvent> = Vec::new();
        if value_set {
            let value = scaled_product(self.value1, self.value2);
            out.push(control_change(self.output_device.as_str(), self.control_index, value));
        }
        proof {
            assert(out.deep_view() =~= before.on_event(device@, midi_message, now).1);
        }
        out
    }

    fn start(&mut self, midi_message: MidiMessage, now: u64) -> (out: StartOutcome) {
        start_nothing()
    }

    fn stop(&mut self) -> (out: Vec<OutputEvent>) {
        no_events()
    }

    fn is_running(&self) -> (b: bool) {
        false
    }

    fn mono_group(&self) -> (g: MonoGroup) {
        MonoGroup::Ungrouped
    }
}

/// For values of real MIDI data bytes (at most 127) the product never wraps
/// and never exceeds the larger of the two values.
pub proof fn lemma_product_bounded(v1: u8, v2: u8)
    requires
        v1 <= 127,
        v2 <= 127,
    ensures
        product_value(v1, v2) == (v1 * v2) / 128,
        product_value(v1, v2) <= v1,
        product_value(v1, v2) <= v2,
{
    assert(v1 * v2 <= 127 * 127) by (nonlinear_arith)
        requires
            v1 <= 127,
            v2 <= 127,
    ;
    assert(v1 * v2 <= v1 * 128) by (nonlinear_arith)
        requires
            v2 <= 127,
    ;
    assert(v1 * v2 <= v2 * 128) by (nonlinear_arith)
        requires
            v1 <= 127,
    ;
    assert((v1 * v2) / 128 <= v1) by (nonlinear_arith)
        requires
            v1 * v2 <= v1 * 128,
            0 <= v1 * v2,
    ;
    assert((v1 * v2) / 128 <= v2) by (nonlinear_arith)
        requires
            v1 * v2 <= v2 * 128,
            0 <= v1 * v2,
    ;
}

/// A message that passes a filter sets that filter's value to its second
/// data byte; if one did, the product of the two values is sent.
pub proof fn lemma_multiplier_event(c: ControlMultiplier, device: Seq<char>, m: MidiMessage, now: u64)
    ensures
        ({
            let hit1 = filter_matches(c.filter1(), device, m);
            let hit2 = filter_matches(c.filter2(), device, m);
            let next = c.on_event(device, m, now).0;
            &&& next.filter1() == c.filter1()
            &&& next.filter2() == c.filter2()
            &&& next.output_device() == c.output_device()
            &&& next.control_index() == c.control_index()
            &&& next.value1() == if hit1 { m.data2 } else { c.value1() }
            &&& next.value2() == if hit2 { m.data2 } else { c.value2() }
            &&& c.on_event(device, m, now).1 == if hit1 || hit2 {
                seq![sent(c.output_device(), control_change_message(c.control_index(), product_value(next.value1(), next.value2()) as u8))]
            } else {
                Seq::<OutputEventView>::empty()
            }
        }),
{
}

} // verus!
