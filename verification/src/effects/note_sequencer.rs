//! Plays a sequence of notes in the background, one note per time step.
use vstd::prelude::*;
use crate::midi::{MidiMessage, OutputEvent, OutputEventView, note_on_message, note_off_message, shown, play_note_on, play_note_off, string_of, no_events};
use crate::effects::effect::{Effect, MonoGroup, StartOutcome, StartOutcomeView, Job, JobView, JobStep, JobStepView};

verus! {

pub struct NoteSequencer {
    output_device: String,
    notes: Vec<u8>,
    velocity: u8,
    time_per_note: u64,
    running: bool,
}

/// For each note: play it, sleep a quarter step, stop it, end here if
/// stopped, sleep the other three quarters, end here if stopped.
pub open spec fn note_steps(output: Seq<char>, notes: Seq<u8>, velocity: u8, time_per_note: u64) -> Seq<JobStepView>
    decreases notes.len(),
{
    if notes.len() == 0 {
        Seq::empty()
    } else {
        note_steps(output, notes.drop_last(), velocity, time_per_note) + seq![
            JobStepView::Send(shown(output, note_on_message(notes.last(), velocity))),
            JobStepView::Sleep((time_per_note / 4) as u64),
            JobStepView::Send(shown(output, note_off_message(notes.last()))),
            JobStepView::CheckStop,
            JobStepView::Sleep((time_per_note * 3 / 4) as u64),
            JobStepView::CheckStop,
        ]
    }
}

impl NoteSequencer {
    pub closed spec fn output_device(&self) -> Seq<char> {
        self.output_device@
    }

    pub closed spec fn notes(&self) -> Seq<u8> {
        self.notes@
    }

    pub closed spec fn velocity(&self) -> u8 {
        self.velocity
    }

    pub closed spec fn time_per_note(&self) -> u64 {
        self.time_per_note
    }

    /// `time_per_note` is in nanoseconds; three of them must fit in a `u64`.
    pub fn new(output_device: &str, notes: Vec<u8>, time_per_note: u64, velocity: u8) -> (s: NoteSequencer)
        requires
            time_per_note <= u64::MAX / 3,
        ensures
            s.inv(),
            s.output_device() == output_device@,
            s.notes() == notes@,
            s.velocity() == velocity,
            s.time_per_note() == time_per_note,
            !s.running(),
            s.group() == MonoGroup::Note,
    {
        NoteSequencer { output_device: string_of(output_device), notes, velocity, time_per_note, running: false }
    }
}

impl Effect for NoteSequencer {
    closed spec fn inv(&self) -> bool {
        self.time_per_note <= u64::MAX / 3
    }

    open spec fn event_ok(&self, device: Seq<char>, m: MidiMessage, now: u64) -> bool {
        true
    }

    open spec fn on_event(&self, device: Seq<char>, m: MidiMessage, now: u64) -> (Self, Seq<OutputEventView>) {
        (*self, Seq::empty())
    }

    open spec fn start_ok(&self, m: MidiMessage, now: u64) -> bool {
        true
    }

    /// A start hands over the job that plays the notes, and the effect
    /// counts as running.
    /// The job of a sequence already running is told to stop first.
    closed spec fn on_start(&self, m: MidiMessage, now: u64) -> (Self, StartOutcomeView) {
        (
            NoteSequencer {
                output_device: self.output_device,
                notes: self.notes,
                velocity: self.velocity,
                time_per_note: self.time_per_note,
                running: true,
            },
            StartOutcomeView {
                stops_previous: self.running,
                messages: Seq::empty(),
                job: Some(JobView::Steps {
                    steps: note_steps(self.output_device@, self.notes@, self.velocity, self.time_per_note),
                    finally: Seq::empty(),
                }),
            },
        )
    }

    closed spec fn on_stop(&self) -> (Self, Seq<OutputEventView>) {
        (
            NoteSequencer {
                output_device: self.output_device,
                notes: self.notes,
                velocity: self.velocity,
                time_per_note: self.time_per_note,
                running: false,
            },
            Seq::empty(),
        )
    }

    closed spec fn running(&self) -> bool {
        self.running
    }

    open spec fn group(&self) -> MonoGroup {
        MonoGroup::Note
    }

    proof fn lemma_event_keeps_mode(&self, device: Seq<char>, m: MidiMessage, now: u64) {
    }

    proof fn lemma_stop_halts(&self) {
    }

    proof fn lemma_start_keeps_group(&self, m: MidiMessage, now: u64) {
    }

    fn can_handle(&self, device: &str, midi_message: MidiMessage, now: u64) -> (b: bool) {
        true
    }

    fn can_start(&self, midi_message: MidiMessage, now: u64) -> (b: bool) {
        true
    }

    fn on_midi_event(&mut self, device: &str, midi_message: MidiMessage, now: u64) -> (out: Vec<OutputEvent>) {
        no_events()
    }

    fn start(&mut self, midi_message: MidiMessage, now: u64) -> (out: StartOutcome) {
        let stops_previous = self.running;
        let ghost output = self.output_device@;
        let quarter = self.time_per_note / 4;
        let rest = self.time_per_note * 3 / 4;
        let mut steps: Vec<JobStep> = Vec::new();
        let mut i: usize = 0;
        while i < self.notes.len()
            invariant
                output == self.output_device@,
                self.time_per_note <= u64::MAX / 3,
                quarter == self.time_per_note / 4,
                rest == self.time_per_note * 3 / 4,
                i <= self.notes@.len(),
                steps.deep_view() == note_steps(output, self.notes@.subrange(0, i as int), self.velocity, self.time_per_note),
            decreases self.notes@.len() - i,
        {
            let note = self.notes[i];
            steps.push(JobStep::Send(play_note_on(self.output_device.as_str(), note, self.velocity)));
            steps.push(JobStep::Sleep(quarter));
            steps.push(JobStep::Send(play_note_off(self.output_device.as_str(), note)));
            steps.push(JobStep::CheckStop);
            steps.push(JobStep::Sleep(rest));
            steps.push(JobStep::CheckStop);
            proof {
                let prefix = self.notes@.subrange(0, i + 1);
                assert(prefix.drop_last() =~= self.notes@.subrange(0, i as int));
                assert(prefix.last() == note);
            }
            i = i + 1;
            assert(steps.deep_view() =~= note_steps(output, self.notes@.subrange(0, i as int), self.velocity, self.time_per_note));
        }
        assert(self.notes@.subrange(0, self.notes@.len() as int) =~= self.notes@);
        self.running = true;
        let finally: Vec<OutputEvent> = Vec::new();
        let out = StartOutcome { stops_previous, messages: Vec::new(), job: Some(Job::Steps { steps, finally }) };
        assert(out@.messages =~= Seq::<OutputEventView>::empty());
        assert(finally.deep_view() =~= Seq::<OutputEventView>::empty());
        out
    }

    fn stop(&mut self) -> (out: Vec<OutputEvent>) {
        self.running = false;
        no_events()
    }

    fn is_running(&self) -> (b: bool) {
        self.running
    }

    fn mono_group(&self) -> (g: MonoGroup) {
        MonoGroup::Note
    }
}

/// The two sleeps of a note add up to its time step, up to the rounding of
/// the quarter.
pub proof fn lemma_note_step_time(time_per_note: u64)
    requires
        time_per_note <= u64::MAX / 3,
    ensures
        time_per_note - 3 <= time_per_note / 4 + time_per_note * 3 / 4 <= time_per_note,
{
}

/// The job of a note sequence has six steps per note: the `k`-th note is
/// played with the sequencer's velocity, a quarter step later ended, then
/// the job ends here if stopped, sleeps the rest of the step and again ends
/// here if stopped.
pub proof fn lemma_note_steps_shape(output: Seq<char>, notes: Seq<u8>, velocity: u8, t: u64, k: int)
    requires
        0 <= k < notes.len(),
    ensures
        note_steps(output, notes, velocity, t).len() == 6 * notes.len(),
        note_steps(output, notes, velocity, t)[6 * k] == JobStepView::Send(shown(output, note_on_message(notes[k], velocity))),
        note_steps(output, notes, velocity, t)[6 * k + 1] == JobStepView::Sleep((t / 4) as u64),
        note_steps(output, notes, velocity, t)[6 * k + 2] == JobStepView::Send(shown(output, note_off_message(notes[k]))),
        note_steps(output, notes, velocity, t)[6 * k + 3] == JobStepView::CheckStop,
        note_steps(output, notes, velocity, t)[6 * k + 4] == JobStepView::Sleep((t * 3 / 4) as u64),
        note_steps(output, notes, velocity, t)[6 * k + 5] == JobStepView::CheckStop,
    decreases notes.len(),
{
    if k < notes.len() - 1 {
        lemma_note_steps_shape(output, notes.drop_last(), velocity, t, k);
    } else {
        if notes.len() > 1 {
            lemma_note_steps_shape(output, notes.drop_last(), velocity, t, 0);
        }
    }
}

/// A start hands over the job that plays the notes, each one a quarter of
/// the time step long; afterwards the sequencer runs, otherwise unchanged.
pub proof fn lemma_note_sequencer_start(s: NoteSequencer, m: MidiMessage, now: u64)
    requires
        s.inv(),
    ensures
        s.on_start(m, now).1 == (StartOutcomeView {
            stops_previous: s.running(),
            messages: Seq::empty(),
            job: Some(JobView::Steps {
                steps: note_steps(s.output_device(), s.notes(), s.velocity(), s.time_per_note()),
                finally: Seq::empty(),
            }),
        }),
        s.on_start(m, now).0.running(),
        s.on_start(m, now).0.inv(),
        s.on_start(m, now).0.output_device() == s.output_device(),
        s.on_start(m, now).0.notes() == s.notes(),
        s.on_start(m, now).0.velocity() == s.velocity(),
        s.on_start(m, now).0.time_per_note() == s.time_per_note(),
{
}

/// A stop sends nothing itself; afterwards the sequencer no longer runs,
/// otherwise unchanged.
pub proof fn lemma_note_sequencer_stop(s: NoteSequencer)
    requires
        s.inv(),
    ensures
        s.on_stop().1 == Seq::<OutputEventView>::empty(),
        !s.on_stop().0.running(),
        s.on_stop().0.inv(),
        s.on_stop().0.output_device() == s.output_device(),
        s.on_stop().0.notes() == s.notes(),
        s.on_stop().0.velocity() == s.velocity(),
        s.on_stop().0.time_per_note() == s.time_per_note(),
{
}

} // verus!
