//! Plays a sequence of controller values in the background, one value per
//! time step, and sets a final value when the sequence ends or is stopped.
use vstd::prelude::*;
use crate::midi::{MidiMessage, OutputEvent, OutputEventView, control_change_message, sent, control_change, string_of, no_events};
use crate::effects::effect::{Effect, MonoGroup, StartOutcome, StartOutcomeView, Job, JobView, JobStep, JobStepView};

verus! {

pub struct ControlSequencer {
    output_device: String,
    control_index: u8,
    values: Vec<u8>,
    stop_value: u8,
    mono_group: MonoGroup,
    time_per_note: u64,
    running: bool,
}

/// For each value: send it, sleep one time step, end here if stopped.
pub open spec fn control_steps(output: Seq<char>, control_index: u8, values: Seq<u8>, time_per_note: u64) -> Seq<JobStepView>
    decreases values.len(),
{
    if values.len() == 0 {
        Seq::empty()
    } else {
        control_steps(output, control_index, values.drop_last(), time_per_note) + seq![
            JobStepView::Send(sent(output, control_change_message(control_index, values.last()))),
            JobStepView::Sleep(time_per_note),
            JobStepView::CheckStop,
        ]
    }
}

impl ControlSequencer {
    pub closed spec fn output_device(&self) -> Seq<char> {
        self.output_device@
    }

    pub closed spec fn control_index(&self) -> u8 {
        self.control_index
    }

    pub closed spec fn values(&self) -> Seq<u8> {
        self.values@
    }

    pub closed spec fn stop_value(&self) -> u8 {
        self.stop_value
    }

    pub closed spec fn time_per_note(&self) -> u64 {
        self.time_per_note
    }

    /// `time_per_note` is in nanoseconds.
    pub fn new(output_device: &str, control_index: u8, values: Vec<u8>, stop_value: u8, time_per_note: u64) -> (s: ControlSequencer)
        ensures
            s.inv(),
            s.output_device() == output_device@,
            s.control_index() == control_index,
            s.values() == values@,
            s.stop_value() == stop_value,
            s.time_per_note() == time_per_note,
            !s.running(),
            s.group() == MonoGroup::ControlIndex(control_index),
    {
        ControlSequencer {
            output_device: string_of(output_device),
            control_index,
            values,
            stop_value,
            time_per_note,
            running: false,
            mono_group: MonoGroup::ControlIndex(control_index),
        }
    }
}

impl Effect for ControlSequencer {
    closed spec fn inv(&self) -> bool {
        self.mono_group == MonoGroup::ControlIndex(self.control_index)
    }

    open spec fn event_ok(&self, device: Seq<char>, m: MidiMessage, now: u64) -> bool {
        true
    }

    open spec fn on_event(&self, device: Seq<char>, m: MidiMessage, now: u64) -> (Self, Seq<OutputEventView>) {
        (*self, Seq::empty())
    }

    open spec fn start_ok(&self, m: MidiMessage, now: u64) -> bool {
        true
    }

    /// A start hands over the job that plays the values and then sets the
    /// stop value, and the effect counts as running.
    /// The job of a sequence already running is told to stop first.
    closed spec fn on_start(&self, m: MidiMessage, now: u64) -> (Self, StartOutcomeView) {
        (
            ControlSequencer {
                output_device: self.output_device,
                control_index: self.control_index,
                values: self.values,
                stop_value: self.stop_value,
                mono_group: self.mono_group,
                time_per_note: self.time_per_note,
                running: true,
            },
            StartOutcomeView {
                stops_previous: self.running,
                messages: Seq::empty(),
                job: Some(JobView::Steps {
                    steps: control_steps(self.output_device@, self.control_index, self.values@, self.time_per_note),
                    finally: seq![sent(self.output_device@, control_change_message(self.control_index, self.stop_value))],
                }),
            },
        )
    }

    closed spec fn on_stop(&self) -> (Self, Seq<OutputEventView>) {
        (
            ControlSequencer {
                output_device: self.output_device,
                control_index: self.control_index,
                values: self.values,
                stop_value: self.stop_value,
                mono_group: self.mono_group,
                time_per_note: self.time_per_note,
                running: false,
            },
            Seq::empty(),
        )
    }

    closed spec fn running(&self) -> bool {
        self.running
    }

    closed spec fn group(&self) -> MonoGroup {
        self.mono_group
    }

    proof fn lemma_event_keeps_mode(&self, device: Seq<char>, m: MidiMessage, now: u64) {
    }

    proof fn lemma_stop_halts(&self) {
    }

    proof fn lemma_start_keeps_group(&self, m: MidiMessage, now: u64) {
    }

    fn can_handle(&self, device: &str, midi_message: MidiMessage, now: u64) -> (b: bool) {
        true
    }

    fn can_start(&self, midi_message: MidiMessage, now: u64) -> (b: bool) {
        true
    }

    fn on_midi_event(&mut self, device: &str, midi_message: MidiMessage, now: u64) -> (out: Vec<OutputEvent>) {
        no_events()
    }

    fn start(&mut self, midi_message: MidiMessage, now: u64) -> (out: StartOutcome) {
        let stops_previous = self.running;
        let ghost output = self.output_device@;
        let mut steps: Vec<JobStep> = Vec::new();
        let mut i: usize = 0;
        while i < self.values.len()
            invariant
                output == self.output_device@,
                i <= self.values@.len(),
                steps.deep_view() == control_steps(output, self.control_index, self.values@.subrange(0, i as int), self.time_per_note),
            decreases self.values@.len() - i,
        {
            let value = self.values[i];
            steps.push(JobStep::Send(control_change(self.output_device.as_str(), self.control_index, value)));
            steps.push(JobStep::Sleep(self.time_per_note));
            steps.push(JobStep::CheckStop);
            proof {
                let prefix = self.values@.subrange(0, i + 1);
                assert(prefix.drop_last() =~= self.values@.subrange(0, i as int));
                assert(prefix.last() == value);
            }
            i = i + 1;
            assert(steps.deep_view() =~= control_steps(output, self.control_index, self.values@.subrange(0, i as int), self.time_per_note));
        }
        assert(self.values@.subrange(0, self.values@.len() as int) =~= self.values@);
        let mut finally: Vec<OutputEvent> = Vec::new();
        finally.push(control_change(self.output_device.as_str(), self.control_index, self.stop_value));
        assert(finally.deep_view() =~= seq![sent(output, control_change_message(self.control_index, self.stop_value))]);
        self.running = true;
        let out = StartOutcome { stops_previous, messages: Vec::new(), job: Some(Job::Steps { steps, finally }) };
        assert(out@.messages =~= Seq::<OutputEventView>::empty());
        out
    }

    fn stop(&mut self) -> (out: Vec<OutputEvent>) {
        self.running = false;
        no_events()
    }

    fn is_running(&self) -> (b: bool) {
        self.running
    }

    fn mono_group(&self) -> (g: MonoGroup) {
        self.mono_group
    }
}

/// A control sequence has three steps per value, and its `k`-th value is
/// sent by its `3k`-th step.
pub proof fn lemma_control_steps_shape(output: Seq<char>, control_index: u8, values: Seq<u8>, t: u64, k: int)
    requires
        0 <= k < values.len(),
    ensures
        control_steps(output, control_index, values, t).len() == 3 * values.len(),
        control_steps(output, control_index, values, t)[3 * k] == JobStepView::Send(sent(output, control_change_message(control_index, values[k]))),
        control_steps(output, control_index, values, t)[3 * k + 1] == JobStepView::Sleep(t),
        control_steps(output, control_index, values, t)[3 * k + 2] == JobStepView::CheckStop,
    decreases values.len(),
{
    if k < values.len() - 1 {
        lemma_control_steps_shape(output, control_index, values.drop_last(), t, k);
    } else {
        if values.len() > 1 {
            lemma_control_steps_shape(output, control_index, values.drop_last(), t, 0);
        }
    }
}

/// A start hands over the job that sends the values, one per time step,
/// and then the stop value; afterwards the sequencer runs, otherwise
/// unchanged.
pub proof fn lemma_control_sequencer_start(s: ControlSequencer, m: MidiMessage, now: u64)
    requires
        s.inv(),
    ensures
        s.on_start(m, now).1 == (StartOutcomeView {
            stops_previous: s.running(),
            messages: Seq::empty(),
            job: Some(JobView::Steps {
                steps: control_steps(s.output_device(), s.control_index(), s.values(), s.time_per_note()),
                finally: seq![sent(s.output_device(), control_change_message(s.control_index(), s.stop_value()))],
            }),
        }),
        s.on_start(m, now).0.running(),
        s.on_start(m, now).0.inv(),
        s.on_start(m, now).0.output_device() == s.output_device(),
        s.on_start(m, now).0.control_index() == s.control_index(),
        s.on_start(m, now).0.values() == s.values(),
        s.on_start(m, now).0.stop_value() == s.stop_value(),
        s.on_start(m, now).0.time_per_note() == s.time_per_note(),
{
}

/// A stop sends nothing itself (the job sends the stop value as it ends);
/// afterwards the sequencer no longer runs, otherwise unchanged.
pub proof fn lemma_control_sequencer_stop(s: ControlSequencer)
    requires
        s.inv(),
    ensures
        s.on_stop().1 == Seq::<OutputEventView>::empty(),
        !s.on_stop().0.running(),
        s.on_stop().0.inv(),
        s.on_stop().0.output_device() == s.output_device(),
        s.on_stop().0.control_index() == s.control_index(),
        s.on_stop().0.values() == s.values(),
        s.on_stop().0.stop_value() == s.stop_value(),
        s.on_stop().0.time_per_note() == s.time_per_note(),
{
}

} // verus!
