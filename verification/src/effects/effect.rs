//! The interface every effect implements, and what its start hands the
//! application to run in the background.
use vstd::prelude::*;
use crate::midi::{MidiMessage, OutputEvent, OutputEventView};

verus! {

/// Sent to the background job of an effect to end it early.
#[derive(Copy, Clone, Debug, PartialEq, Eq, Structural)]
pub enum ThreadCommand {
    Stop,
}

/// Effects of one group other than `Ungrouped` exclude each other: triggering
/// one stops the running others of its group.
#[derive(Copy, Clone, Debug, PartialEq, Eq, Structural)]
pub enum MonoGroup {
    Ungrouped,
    Note,
    ControlIndex(u8),
}

/// One step of a background job.
pub enum JobStep {
    /// Send an output event.
    Send(OutputEvent),
    /// Sleep this many nanoseconds, counted on the job's absolute sleeper.
    Sleep(u64),
    /// End the steps if a stop command has arrived.
    CheckStop,
}

pub enum JobStepView {
    Send(OutputEventView),
    Sleep(u64),
    CheckStop,
}

impl View for JobStep {
    type V = JobStepView;

    open spec fn view(&self) -> JobStepView {
        match self {
            JobStep::Send(e) => JobStepView::Send(e@),
            JobStep::Sleep(d) => JobStepView::Sleep(*d),
            JobStep::CheckStop => JobStepView::CheckStop,
        }
    }
}

impl DeepView for JobStep {
    type V = JobStepView;

    open spec fn deep_view(&self) -> JobStepView {
        self@
    }
}

/// A background job: its steps, then the events sent when the steps end,
/// whether they ran out or were stopped. A sweep down lowers a controller in
/// fractional steps, which the application computes.
pub enum Job {
    Steps { steps: Vec<JobStep>, finally: Vec<OutputEvent> },
    Sweep { output: String, control_index: u8, velocity: u8, min_value: u8 },
}

pub enum JobView {
    Steps { steps: Seq<JobStepView>, finally: Seq<OutputEventView> },
    Sweep { output: Seq<char>, control_index: u8, velocity: u8, min_value: u8 },
}

impl View for Job {
    type V = JobView;

    open spec fn view(&self) -> JobView {
        match self {
            Job::Steps { steps, finally } => JobView::Steps {
                steps: steps.deep_view(),
                finally: finally.deep_view(),
            },
            Job::Sweep { output, control_index, velocity, min_value } => JobView::Sweep {
                output: output@,
                control_index: *control_index,
                velocity: *velocity,
                min_value: *min_value,
            },
        }
    }
}

/// What starting an effect yields: whether the job the effect was running
/// is to be told to stop first, events to send at once, and maybe a job.
pub struct StartOutcome {
    pub stops_previous: bool,
    pub messages: Vec<OutputEvent>,
    pub job: Option<Job>,
}

pub struct StartOutcomeView {
    pub stops_previous: bool,
    pub messages: Seq<OutputEventView>,
    pub job: Option<JobView>,
}

impl View for StartOutcome {
    type V = StartOutcomeView;

    open spec fn view(&self) -> StartOutcomeView {
        StartOutcomeView {
            stops_previous: self.stops_previous,
            messages: self.messages.deep_view(),
            job: match self.job {
                Some(j) => Some(j@),
                None => None,
            },
        }
    }
}

pub open spec fn nothing_started() -> StartOutcomeView {
    StartOutcomeView { stops_previous: false, messages: Seq::empty(), job: None }
}

pub fn start_nothing() -> (o: StartOutcome)
    ensures
        o@ == nothing_started(),
{
    let o = StartOutcome { stops_previous: false, messages: Vec::new(), job: None };
    assert(o@.messages =~= Seq::<OutputEventView>::empty());
    o
}

/// An effect: a state machine driven by the MIDI events of all devices and
/// by the triggers of its patch. Times are nanoseconds on the application's
/// monotonic clock. Each method's result is the value of the matching spec
/// function, so a caller knows exactly what each call does.
pub trait Effect: Sized {
    /// What every state of the effect keeps.
    spec fn inv(&self) -> bool;

    /// The event can be handled without a failure.
    spec fn event_ok(&self, device: Seq<char>, m: MidiMessage, now: u64) -> bool;

    /// The next state and the events sent on a MIDI event.
    spec fn on_event(&self, device: Seq<char>, m: MidiMessage, now: u64) -> (Self, Seq<OutputEventView>);

    /// The effect can be started without a failure.
    spec fn start_ok(&self, m: MidiMessage, now: u64) -> bool;

    /// The next state and the outcome of a start by the trigger message `m`.
    spec fn on_start(&self, m: MidiMessage, now: u64) -> (Self, StartOutcomeView);

    /// The next state and the events sent on a stop.
    spec fn on_stop(&self) -> (Self, Seq<OutputEventView>);

    /// Whether a background job of the effect counts as running.
    spec fn running(&self) -> bool;

    spec fn group(&self) -> MonoGroup;

    /// A MIDI event neither starts nor stops a background job, and no call
    /// changes the group of an effect.
    proof fn lemma_event_keeps_mode(&self, device: Seq<char>, m: MidiMessage, now: u64)
        requires
            self.inv(),
            self.event_ok(device, m, now),
        ensures
            self.on_event(device, m, now).0.inv(),
            self.on_event(device, m, now).0.running() == self.running(),
            self.on_event(device, m, now).0.group() == self.group(),
    ;

    /// After a stop no background job of the effect counts as running.
    proof fn lemma_stop_halts(&self)
        requires
            self.inv(),
        ensures
            self.on_stop().0.inv(),
            !self.on_stop().0.running(),
            self.on_stop().0.group() == self.group(),
    ;

    /// A start keeps the group of the effect.
    proof fn lemma_start_keeps_group(&self, m: MidiMessage, now: u64)
        requires
            self.inv(),
            self.start_ok(m, now),
        ensures
            self.on_start(m, now).0.inv(),
            self.on_start(m, now).0.group() == self.group(),
    ;

    /// Whether the effect can handle the event without a failure.
    fn can_handle(&self, device: &str, midi_message: MidiMessage, now: u64) -> (b: bool)
        requires
            self.inv(),
        ensures
            b == self.event_ok(device@, midi_message, now),
    ;

    /// Whether the effect can be started without a failure.
    fn can_start(&self, midi_message: MidiMessage, now: u64) -> (b: bool)
        requires
            self.inv(),
        ensures
            b == self.start_ok(midi_message, now),
    ;

    fn on_midi_event(&mut self, device: &str, midi_message: MidiMessage, now: u64) -> (out: Vec<OutputEvent>)
        requires
            old(self).inv(),
            old(self).event_ok(device@, midi_message, now),
        ensures
            final(self).inv(),
            (*final(self), out.deep_view()) == old(self).on_event(device@, midi_message, now),
    ;

    fn start(&mut self, midi_message: MidiMessage, now: u64) -> (out: StartOutcome)
        requires
            old(self).inv(),
            old(self).start_ok(midi_message, now),
        ensures
            final(self).inv(),
            (*final(self), out@) == old(self).on_start(midi_message, now),
    ;

    fn stop(&mut self) -> (out: Vec<OutputEvent>)
        requires
            old(self).inv(),
        ensures
            final(self).inv(),
            (*final(self), out.deep_view()) == old(self).on_stop(),
    ;

    fn is_running(&self) -> (b: bool)
        ensures
            b == self.running(),
    ;

    fn mono_group(&self) -> (g: MonoGroup)
        ensures
            g == self.group(),
    ;
}

} // verus!
