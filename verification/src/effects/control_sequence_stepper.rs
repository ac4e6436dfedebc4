//! Steps a controller through a list of values, one value per trigger.
use vstd::prelude::*;
use crate::midi::{MidiMessage, OutputEvent, OutputEventView, control_change_message, sent, control_change, string_of, no_events};
use crate::utils::midi_filter::{MidiFilter, MidiFilterView, filter_matches};
use crate::effects::effect::{Effect, MonoGroup, StartOutcome, StartOutcomeView};

verus! {

pub struct ControlSequenceStepper {
    output_device: String,
    control_index: u8,
    values: Vec<u8>,
    value_index: usize,
    mono_group: MonoGroup,
    reset_filter: Option<MidiFilter>,
}

impl ControlSequenceStepper {
    pub closed spec fn output_device(&self) -> Seq<char> {
        self.output_device@
    }

    pub closed spec fn control_index(&self) -> u8 {
        self.control_index
    }

    pub closed spec fn values(&self) -> Seq<u8> {
        self.values@
    }

    pub closed spec fn value_index(&self) -> nat {
        self.value_index as nat
    }

    pub closed spec fn reset_filter(&self) -> Option<MidiFilterView> {
        match self.reset_filter {
            Some(f) => Some(f@),
            None => None,
        }
    }

    pub fn new(output_device: &str, control_index: u8, values: &[u8]) -> (s: Self)
        ensures
            s.inv(),
            s.output_device() == output_device@,
            s.control_index() == control_index,
            s.values() == values@,
            s.value_index() == 0,
            s.reset_filter() == None::<MidiFilterView>,
            s.group() == MonoGroup::ControlIndex(control_index),
    {
        let values = vstd::slice::slice_to_vec(values);
        let _ = values.len();
        ControlSequenceStepper {
            output_device: string_of(output_device),
            control_index,
            values,
            value_index: 0,
            mono_group: MonoGroup::ControlIndex(control_index),
            reset_filter: None,
        }
    }

    /// The same stepper, which goes back to its first value on each message
    /// that `filter` lets through.
    pub fn with_reset_filter(self, filter: MidiFilter) -> (s: Self)
        requires
            self.inv(),
        ensures
            s.inv(),
            s.output_device() == self.output_device(),
            s.control_index() == self.control_index(),
            s.values() == self.values(),
            s.value_index() == self.value_index(),
            s.reset_filter() == Some(filter@),
            s.group() == self.group(),
    {
        let mut s = self;
        s.reset_filter = Some(filter);
        s
    }
}

impl Effect for ControlSequenceStepper {
    closed spec fn inv(&self) -> bool {
        &&& self.value_index == 0 || self.value_index < self.values@.len()
        &&& self.values@.len() <= usize::MAX
        &&& self.mono_group == MonoGroup::ControlIndex(self.control_index)
    }

    open spec fn event_ok(&self, device: Seq<char>, m: MidiMessage, now: u64) -> bool {
        true
    }

    /// A message that passes the reset filter goes back to the first value.
    closed spec fn on_event(&self, device: Seq<char>, m: MidiMessage, now: u64) -> (Self, Seq<OutputEventView>) {
        let reset = match self.reset_filter {
            Some(f) => filter_matches(f@, device, m),
            None => false,
        };
        if reset {
            (
                ControlSequenceStepper {
                    output_device: self.output_device,
                    control_index: self.control_index,
                    values: self.values,
                    value_index: 0,
                    mono_group: self.mono_group,
                    reset_filter: self.reset_filter,
                },
                Seq::empty(),
            )
        } else {
            (*self, Seq::empty())
        }
    }

    /// There is a value to send.
    closed spec fn start_ok(&self, m: MidiMessage, now: u64) -> bool {
        self.values@.len() > 0
    }

    /// A start sends the current value and moves to the next one, after the
    /// last back to the first.
    closed spec fn on_start(&self, m: MidiMessage, now: u64) -> (Self, StartOutcomeView) {
        (
            ControlSequenceStepper {
                output_device: self.output_device,
                control_index: self.control_index,
                values: self.values,
                value_index: ((self.value_index + 1) % (self.values@.len() as int)) as usize,
                mono_group: self.mono_group,
                reset_filter: self.reset_filter,
            },
            StartOutcomeView {
                stops_previous: false,
                messages: seq![sent(self.output_device@, control_change_message(self.control_index, self.values@[self.value_index as int]))],
                job: None,
            },
        )
    }

    open spec fn on_stop(&self) -> (Self, Seq<OutputEventView>) {
        (*self, Seq::empty())
    }

    open spec fn running(&self) -> bool {
        false
    }

    closed spec fn group(&self) -> MonoGroup {
        self.mono_group
    }

    proof fn lemma_event_keeps_mode(&self, device: Seq<char>, m: MidiMessage, now: u64) {
    }

    proof fn lemma_stop_halts(&self) {
    }

    proof fn lemma_start_keeps_group(&self, m: MidiMessage, now: u64) {
    }

    fn can_handle(&self, device: &str, midi_message: MidiMessage, now: u64) -> (b: bool) {
        true
    }

    fn can_start(&self, midi_message: MidiMessage, now: u64) -> (b: bool) {
        self.values.len() > 0
    }

    fn on_midi_event(&mut self, device: &str, midi_message: MidiMessage, now: u64) -> (out: Vec<OutputEvent>) {
        let reset = match &self.reset_filter {
            Some(f) => f.matches(device, midi_message),
            None => false,
        };
        if reset {
            self.value_index = 0;
        }
        no_events()
    }

    fn start(&mut self, midi_message: MidiMessage, now: u64) -> (out: StartOutcome) {
        let value = self.values[self.value_index];
        let mut messages: Vec<OutputEvent> = Vec::new();
        messages.push(control_change(self.output_device.as_str(), self.control_index, value));
        let n = self.values.len();
        self.value_index = (self.value_index + 1) % n;
        let out = StartOutcome { stops_previous: false, messages, job: None };
        assert(out@.messages =~= old(self).on_start(midi_message, now).1.messages);
        out
    }

    fn stop(&mut self) -> (out: Vec<OutputEvent>) {
        no_events()
    }

    fn is_running(&self) -> (b: bool) {
        false
    }

    fn mono_group(&self) -> (g: MonoGroup) {
        self.mono_group
    }
}

/// The stepper after `k` starts by the same message.
pub open spec fn started_times(s: ControlSequenceStepper, k: nat, m: MidiMessage, now: u64) -> ControlSequenceStepper
    decreases k,
{
    if k == 0 {
        s
    } else {
        started_times(s, (k - 1) as nat, m, now).on_start(m, now).0
    }
}

/// A start does not depend on the message or the time that triggers it.
pub proof fn lemma_start_ignores_trigger(s: ControlSequenceStepper, m1: MidiMessage, t1: u64, m2: MidiMessage, t2: u64)
    ensures
        s.on_start(m1, t1) == s.on_start(m2, t2),
{
}

/// From its first value and with no reset between, the `k`-th start sends
/// the value at `k` modulo the number of values: the values cycle for ever
/// (with the previous lemma, whatever messages trigger the starts).
pub proof fn lemma_stepper_cycles(s: ControlSequenceStepper, k: nat, m: MidiMessage, now: u64)
    requires
        s.inv(),
        s.values().len() > 0,
        s.value_index() == 0,
    ensures
        started_times(s, k, m, now).inv(),
        started_times(s, k, m, now).values() == s.values(),
        started_times(s, k, m, now).output_device() == s.output_device(),
        started_times(s, k, m, now).control_index() == s.control_index(),
        started_times(s, k, m, now).reset_filter() == s.reset_filter(),
        started_times(s, k, m, now).value_index() == k % s.values().len(),
        started_times(s, k, m, now).start_ok(m, now),
        started_times(s, k, m, now).on_start(m, now).1 == (StartOutcomeView {
                stops_previous: false,
            messages: seq![sent(s.output_device(), control_change_message(s.control_index(), s.values()[(k % s.values().len()) as int]))],
            job: None,
        }),
    decreases k,
{
    let n = s.values().len();
    if k > 0 {
        lemma_stepper_cycles(s, (k - 1) as nat, m, now);
        if n == 1 {
            vstd::arithmetic::div_mod::lemma_mod_self_0(1);
            vstd::arithmetic::div_mod::lemma_small_mod(0, 1);
            assert(k % 1 == 0) by (nonlinear_arith);
        } else {
            vstd::arithmetic::div_mod::lemma_add_mod_noop((k - 1) as int, 1, n as int);
            vstd::arithmetic::div_mod::lemma_small_mod(1, n);
            vstd::arithmetic::div_mod::lemma_mod_bound((k - 1) as int, n as int);
            if (k - 1) % (n as int) + 1 < n {
                vstd::arithmetic::div_mod::lemma_small_mod(((k - 1) % (n as int) + 1) as nat, n);
            } else {
                vstd::arithmetic::div_mod::lemma_mod_self_0(n as int);
            }
        }
    } else {
        vstd::arithmetic::div_mod::lemma_small_mod(0, n);
    }
    vstd::arithmetic::div_mod::lemma_mod_bound(k as int, n as int);
}

/// A message that passes the reset filter sends the stepper back to its
/// first value; nothing else changes and nothing is sent.
pub proof fn lemma_stepper_event(s: ControlSequenceStepper, device: Seq<char>, m: MidiMessage, now: u64)
    requires
        s.inv(),
    ensures
        s.on_event(device, m, now).1 == Seq::<OutputEventView>::empty(),
        s.on_event(device, m, now).0.inv(),
        s.on_event(device, m, now).0.value_index() == match s.reset_filter() {
            Some(f) => if filter_matches(f, device, m) { 0 } else { s.value_index() },
            None => s.value_index(),
        },
        s.on_event(device, m, now).0.values() == s.values(),
        s.on_event(device, m, now).0.output_device() == s.output_device(),
        s.on_event(device, m, now).0.control_index() == s.control_index(),
        s.on_event(device, m, now).0.reset_filter() == s.reset_filter(),
{
}

/// A start can be made when there are values; it sends the current value
/// and moves on to the next, after the last back to the first.
pub proof fn lemma_stepper_start(s: ControlSequenceStepper, m: MidiMessage, now: u64)
    requires
        s.inv(),
    ensures
        s.start_ok(m, now) == (s.values().len() > 0),
        s.start_ok(m, now) ==> {
            &&& s.on_start(m, now).1 == (StartOutcomeView {
                stops_previous: false,
                messages: seq![sent(s.output_device(), control_change_message(s.control_index(), s.values()[s.value_index() as int]))],
                job: None,
            })
            &&& s.on_start(m, now).0.inv()
            &&& s.on_start(m, now).0.value_index() == (s.value_index() + 1) % s.values().len()
            &&& s.on_start(m, now).0.values() == s.values()
            &&& s.on_start(m, now).0.output_device() == s.output_device()
            &&& s.on_start(m, now).0.control_index() == s.control_index()
            &&& s.on_start(m, now).0.reset_filter() == s.reset_filter()
        },
{
}

} // verus!
