//! Lowers a controller from the trigger's velocity down to a minimum in the
//! background.
use vstd::prelude::*;
use crate::midi::{MidiMessage, OutputEvent, OutputEventView, string_of, copy_string, no_events};
use crate::effects::effect::{Effect, MonoGroup, StartOutcome, StartOutcomeView, Job, JobView};

verus! {

pub struct SweepDown {
    output_device: String,
    min_value: u8,
    control_index: u8,
    mono_group: MonoGroup,
    running: bool,
}

impl SweepDown {
    pub closed spec fn output_device(&self) -> Seq<char> {
        self.output_device@
    }

    pub closed spec fn min_value(&self) -> u8 {
        self.min_value
    }

    pub closed spec fn control_index(&self) -> u8 {
        self.control_index
    }

    pub fn new(output_device: &str, min_value: u8, control_index: u8) -> (s: SweepDown)
        ensures
            s.inv(),
            s.output_device() == output_device@,
            s.min_value() == min_value,
            s.control_index() == control_index,
            !s.running(),
            s.group() == MonoGroup::ControlIndex(control_index),
    {
        SweepDown {
            output_device: string_of(output_device),
            min_value,
            control_index,
            mono_group: MonoGroup::ControlIndex(control_index),
            running: false,
        }
    }
}

impl Effect for SweepDown {
    closed spec fn inv(&self) -> bool {
        self.mono_group == MonoGroup::ControlIndex(self.control_index)
    }

    open spec fn event_ok(&self, device: Seq<char>, m: MidiMessage, now: u64) -> bool {
        true
    }

    open spec fn on_event(&self, device: Seq<char>, m: MidiMessage, now: u64) -> (Self, Seq<OutputEventView>) {
        (*self, Seq::empty())
    }

    open spec fn start_ok(&self, m: MidiMessage, now: u64) -> bool {
        true
    }

    /// A start hands over the sweep from the trigger's velocity, and the
    /// effect counts as running.
    /// The job of a sequence already running is told to stop first.
    closed spec fn on_start(&self, m: MidiMessage, now: u64) -> (Self, StartOutcomeView) {
        (
            SweepDown {
                output_device: self.output_device,
                min_value: self.min_value,
                control_index: self.control_index,
                mono_group: self.mono_group,
                running: true,
            },
            StartOutcomeView {
                stops_previous: self.running,
                messages: Seq::empty(),
                job: Some(JobView::Sweep {
                    output: self.output_device@,
                    control_index: self.control_index,
                    velocity: m.data2,
                    min_value: self.min_value,
                }),
            },
        )
    }

    closed spec fn on_stop(&self) -> (Self, Seq<OutputEventView>) {
        (
            SweepDown {
                output_device: self.output_device,
                min_value: self.min_value,
                control_index: self.control_index,
                mono_group: self.mono_group,
                running: false,
            },
            Seq::empty(),
        )
    }

    closed spec fn running(&self) -> bool {
        self.running
    }

    closed spec fn group(&self) -> MonoGroup {
        self.mono_group
    }

    proof fn lemma_event_keeps_mode(&self, device: Seq<char>, m: MidiMessage, now: u64) {
    }

    proof fn lemma_stop_halts(&self) {
    }

    proof fn lemma_start_keeps_group(&self, m: MidiMessage, now: u64) {
    }

    fn can_handle(&self, device: &str, midi_message: MidiMessage, now: u64) -> (b: bool) {
        true
    }

    fn can_start(&self, midi_message: MidiMessage, now: u64) -> (b: bool) {
        true
    }

    fn on_midi_event(&mut self, device: &str, midi_message: MidiMessage, now: u64) -> (out: Vec<OutputEvent>) {
        no_events()
    }

    fn start(&mut self, midi_message: MidiMessage, now: u64) -> (out: StartOutcome) {
        let stops_previous = self.running;
        self.running = true;
        let out = StartOutcome {
            stops_previous,
            messages: Vec::new(),
            job: Some(Job::Sweep {
                output: copy_string(&self.output_device),
                control_index: self.control_index,
                velocity: midi_message.data2,
                min_value: self.min_value,
            }),
        };
        assert(out@.messages =~= Seq::<OutputEventView>::empty());
        out
    }

    fn stop(&mut self) -> (out: Vec<OutputEvent>) {
        self.running = false;
        no_events()
    }

    fn is_running(&self) -> (b: bool) {
        self.running
    }

    fn mono_group(&self) -> (g: MonoGroup) {
        self.mono_group
    }
}

/// A start hands over the sweep from the trigger's velocity down to the
/// minimum; afterwards the sweep runs, otherwise unchanged.
pub proof fn lemma_sweep_down_start(s: SweepDown, m: MidiMessage, now: u64)
    requires
        s.inv(),
    ensures
        s.on_start(m, now).1 == (StartOutcomeView {
            stops_previous: s.running(),
            messages: Seq::empty(),
            job: Some(JobView::Sweep {
                output: s.output_device(),
                control_index: s.control_index(),
                velocity: m.data2,
                min_value: s.min_value(),
            }),
        }),
        s.on_start(m, now).0.running(),
        s.on_start(m, now).0.inv(),
        s.on_start(m, now).0.output_device() == s.output_device(),
        s.on_start(m, now).0.min_value() == s.min_value(),
        s.on_start(m, now).0.control_index() == s.control_index(),
{
}

/// A stop sends nothing itself; afterwards the sweep no longer runs,
/// otherwise unchanged.
pub proof fn lemma_sweep_down_stop(s: SweepDown)
    requires
        s.inv(),
    ensures
        s.on_stop().1 == Seq::<OutputEventView>::empty(),
        !s.on_stop().0.running(),
        s.on_stop().0.inv(),
        s.on_stop().0.output_device() == s.output_device(),
        s.on_stop().0.min_value() == s.min_value(),
        s.on_stop().0.control_index() == s.control_index(),
{
}

} // verus!
