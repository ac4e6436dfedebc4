//! A drum pad that plays a harmony note: an interval above the last note
//! played on a harmony input, held for a fixed time.
use vstd::prelude::*;
use crate::midi::{MidiMessage, OutputEvent, OutputEventView, contains_chars, is_note_on_spec, note_on_message, note_off_message, shown, play_note_on, play_note_off, name_contains, is_note_on, string_of, no_events};
use crate::effects::effect::{Effect, MonoGroup, StartOutcome, StartOutcomeView, Job, JobView, JobStep, JobStepView, start_nothing, nothing_started};
use crate::effects::button_melody::{elapsed, elapsed_since};

verus! {

/// The note C3, the harmony note before any harmony input.
pub const C3: u8 = 48;

pub struct HarmonyDrum {
    note_range: (u8, u8),
    notes: Vec<u8>,
    notes_index: usize,
    harmony_input_device: String,
    output_device: String,
    current_note: u8,
    note_duration: u64,
    debounce_duration: u64,
    reset_duration: u64,
    last_timestamp: u64,
}

impl HarmonyDrum {
    pub closed spec fn note_range(&self) -> (u8, u8) {
        self.note_range
    }

    pub closed spec fn notes(&self) -> Seq<u8> {
        self.notes@
    }

    pub closed spec fn notes_index(&self) -> nat {
        self.notes_index as nat
    }

    pub closed spec fn harmony_input_device(&self) -> Seq<char> {
        self.harmony_input_device@
    }

    pub closed spec fn output_device(&self) -> Seq<char> {
        self.output_device@
    }

    pub closed spec fn current_note(&self) -> u8 {
        self.current_note
    }

    pub closed spec fn note_duration(&self) -> u64 {
        self.note_duration
    }

    pub closed spec fn debounce_duration(&self) -> u64 {
        self.debounce_duration
    }

    pub closed spec fn reset_duration(&self) -> u64 {
        self.reset_duration
    }

    pub closed spec fn last_timestamp(&self) -> u64 {
        self.last_timestamp
    }

    /// Durations and `now` are in nanoseconds.
    pub fn new(
        harmony_input_device: &str,
        output_device: &str,
        note_range: (u8, u8),
        notes: Vec<u8>,
        note_duration: u64,
        debounce_duration: u64,
        reset_duration: u64,
        now: u64,
    ) -> (d: HarmonyDrum)
        ensures
            d.inv(),
            d.harmony_input_device() == harmony_input_device@,
            d.output_device() == output_device@,
            d.note_range() == note_range,
            d.notes() == notes@,
            d.note_duration() == note_duration,
            d.debounce_duration() == debounce_duration,
            d.reset_duration() == reset_duration,
            d.notes_index() == 0,
            d.current_note() == C3,
            d.last_timestamp() == now,
    {
        let _ = notes.len();
        HarmonyDrum {
            note_range,
            notes_index: 0,
            notes,
            harmony_input_device: string_of(harmony_input_device),
            output_device: string_of(output_device),
            current_note: C3,
            note_duration,
            debounce_duration,
            reset_duration,
            last_timestamp: now,
        }
    }

    /// The index of the interval a start at `now` plays.
    pub closed spec fn index_at(&self, now: u64) -> int {
        if elapsed(self.last_timestamp, now) > self.reset_duration {
            0
        } else {
            self.notes_index as int
        }
    }

    pub closed spec fn bounces(&self, now: u64) -> bool {
        elapsed(self.last_timestamp, now) < self.debounce_duration
    }
}

impl Effect for HarmonyDrum {
    closed spec fn inv(&self) -> bool {
        &&& self.notes_index == 0 || self.notes_index < self.notes@.len()
        &&& self.notes@.len() <= usize::MAX
    }

    open spec fn event_ok(&self, device: Seq<char>, m: MidiMessage, now: u64) -> bool {
        true
    }

    /// A note-on of the harmony input within the note range becomes the
    /// harmony note.
    closed spec fn on_event(&self, device: Seq<char>, m: MidiMessage, now: u64) -> (Self, Seq<OutputEventView>) {
        if contains_chars(device, self.harmony_input_device@) && is_note_on_spec(m)
            && self.note_range.0 <= m.data1 && m.data1 <= self.note_range.1 {
            (HarmonyDrum { current_note: m.data1, ..*self }, Seq::empty())
        } else {
            (*self, Seq::empty())
        }
    }

    /// A start that is not a bounce has an interval, and the harmony note
    /// plus the interval is a note byte.
    closed spec fn start_ok(&self, m: MidiMessage, now: u64) -> bool {
        !self.bounces(now) ==> {
            &&& self.notes@.len() > 0
            &&& self.current_note + self.notes@[self.index_at(now)] <= u8::MAX
        }
    }

    /// Every start is stamped with `now`; a start within the debounce time
    /// of the last one does nothing more. Otherwise the intervals start over
    /// after a pause longer than the reset time, the harmony note plus the
    /// next interval is played at the trigger's velocity, and a job ends it
    /// after the note duration.
    closed spec fn on_start(&self, m: MidiMessage, now: u64) -> (Self, StartOutcomeView) {
        if self.bounces(now) {
            (HarmonyDrum { last_timestamp: now, ..*self }, nothing_started())
        } else {
            let index = self.index_at(now);
            let played = (self.current_note + self.notes@[index]) as u8;
            (
                HarmonyDrum {
                    notes_index: ((index + 1) % (self.notes@.len() as int)) as usize,
                    last_timestamp: now,
                    ..*self
                },
                StartOutcomeView {
                stops_previous: false,
                    messages: seq![shown(self.output_device@, note_on_message(played, m.data2))],
                    job: Some(JobView::Steps {
                        steps: seq![
                            JobStepView::Sleep(self.note_duration),
                            JobStepView::Send(shown(self.output_device@, note_off_message(played))),
                        ],
                        finally: Seq::empty(),
                    }),
                },
            )
        }
    }

    open spec fn on_stop(&self) -> (Self, Seq<OutputEventView>) {
        (*self, Seq::empty())
    }

    open spec fn running(&self) -> bool {
        false
    }

    open spec fn group(&self) -> MonoGroup {
        MonoGroup::Note
    }

    proof fn lemma_event_keeps_mode(&self, device: Seq<char>, m: MidiMessage, now: u64) {
    }

    proof fn lemma_stop_halts(&self) {
    }

    proof fn lemma_start_keeps_group(&self, m: MidiMessage, now: u64) {
    }

    fn can_handle(&self, device: &str, midi_message: MidiMessage, now: u64) -> (b: bool) {
        true
    }

    fn can_start(&self, midi_message: MidiMessage, now: u64) -> (b: bool) {
        let duration_since_last_event = elapsed_since(self.last_timestamp, now);
        if duration_since_last_event < self.debounce_duration {
            return true;
        }
        let n = self.notes.len();
        if n == 0 {
            return false;
        }
        let index = if duration_since_last_event > self.reset_duration { 0 } else { self.notes_index };
        self.current_note as u16 + self.notes[index] as u16 <= 255
    }

    fn on_midi_event(&mut self, device: &str, midi_message: MidiMessage, now: u64) -> (out: Vec<OutputEvent>) {
        if name_contains(device, self.harmony_input_device.as_str()) && is_note_on(midi_message)
            && self.note_range.0 <= midi_message.data1 && midi_message.data1 <= self.note_range.1 {
            self.current_note = midi_message.data1;
        }
        no_events()
    }

    fn start(&mut self, midi_message: MidiMessage, now: u64) -> (out: StartOutcome) {
        let duration_since_last_event = elapsed_since(self.last_timestamp, now);
        self.last_timestamp = now;
        if duration_since_last_event < self.debounce_duration {
            return start_nothing();
        } else if duration_since_last_event > self.reset_duration {
            self.notes_index = 0;
        }
        let played_note = self.current_note + self.notes[self.notes_index];
        let n = self.notes.len();
        self.notes_index = (self.notes_index + 1) % n;
        let mut messages: Vec<OutputEvent> = Vec::new();
        messages.push(play_note_on(self.output_device.as_str(), played_note, midi_message.data2));
        let mut steps: Vec<JobStep> = Vec::new();
        steps.push(JobStep::Sleep(self.note_duration));
        steps.push(JobStep::Send(play_note_off(self.output_device.as_str(), played_note)));
        let finally: Vec<OutputEvent> = Vec::new();
        let out = StartOutcome { stops_previous: false, messages, job: Some(Job::Steps { steps, finally }) };
        proof {
            let expected = old(self).on_start(midi_message, now).1;
            assert(out@.messages =~= expected.messages);
            assert(steps.deep_view() =~= seq![
                JobStepView::Sleep(self.note_duration),
                JobStepView::Send(shown(self.output_device@, note_off_message(played_note))),
            ]);
            assert(finally.deep_view() =~= Seq::<OutputEventView>::empty());
        }
        out
    }

    fn stop(&mut self) -> (out: Vec<OutputEvent>) {
        no_events()
    }

    fn is_running(&self) -> (b: bool) {
        false
    }

    fn mono_group(&self) -> (g: MonoGroup) {
        MonoGroup::Note
    }
}

/// Every note a harmony drum plays is ended by its job with the same note.
pub proof fn lemma_drum_note_ends(d: HarmonyDrum, m: MidiMessage, now: u64)
    requires
        d.inv(),
        d.start_ok(m, now),
        !d.bounces(now),
    ensures
        ({
            let o = d.on_start(m, now).1;
            &&& o.messages.len() == 1
            &&& o.job matches Some(JobView::Steps { steps, finally })
                && steps.len() == 2
                && steps[1] == JobStepView::Send(shown(d.output_device(), note_off_message(o.messages[0].message.data1)))
        }),
{
}

/// The drum after the starts `ts` (trigger message and time), in order.
pub open spec fn drum_after(d: HarmonyDrum, ts: Seq<(MidiMessage, u64)>) -> HarmonyDrum
    decreases ts.len(),
{
    if ts.len() == 0 {
        d
    } else {
        drum_after(d, ts.drop_last()).on_start(ts.last().0, ts.last().1).0
    }
}

/// The time of the start before the `i`-th, or of the drum's last start.
pub open spec fn time_before(d: HarmonyDrum, ts: Seq<(MidiMessage, u64)>, i: int) -> u64 {
    if i == 0 { d.last_timestamp() } else { ts[i - 1].1 }
}

/// The number of starts among `ts` that are no bounces.
pub open spec fn accepted_count(d: HarmonyDrum, ts: Seq<(MidiMessage, u64)>) -> nat
    decreases ts.len(),
{
    if ts.len() == 0 {
        0
    } else {
        accepted_count(d, ts.drop_last())
            + if elapsed(time_before(d, ts, ts.len() - 1), ts.last().1) < d.debounce_duration() { 0nat } else { 1nat }
    }
}

impl HarmonyDrum {
    /// The two drums differ at most in their harmony note, interval and last
    /// start time.
    pub closed spec fn same_drum_but_note(&self, other: HarmonyDrum) -> bool {
        &&& self.note_range == other.note_range
        &&& self.notes == other.notes
        &&& self.harmony_input_device == other.harmony_input_device
        &&& self.output_device == other.output_device
        &&& self.note_duration == other.note_duration
        &&& self.debounce_duration == other.debounce_duration
        &&& self.reset_duration == other.reset_duration
    }

    /// The two drums differ at most in their interval and last start time.
    pub closed spec fn same_drum(&self, other: HarmonyDrum) -> bool {
        &&& self.note_range == other.note_range
        &&& self.notes == other.notes
        &&& self.harmony_input_device == other.harmony_input_device
        &&& self.output_device == other.output_device
        &&& self.current_note == other.current_note
        &&& self.note_duration == other.note_duration
        &&& self.debounce_duration == other.debounce_duration
        &&& self.reset_duration == other.reset_duration
    }
}

/// From its first interval, a drum whose starts come no longer than the
/// reset time apart plays its intervals cyclically: starts within the
/// debounce time of the one before play nothing, and the `j`-th start that
/// is no bounce (from zero) plays the harmony note plus interval `j` modulo
/// the number of intervals.
pub proof fn lemma_drum_cycles(d: HarmonyDrum, ts: Seq<(MidiMessage, u64)>)
    requires
        d.inv(),
        d.notes().len() > 0,
        d.notes_index() == 0,
        forall|i: int| 0 <= i < ts.len() ==> elapsed(time_before(d, ts, i), #[trigger] ts[i].1) <= d.reset_duration(),
    ensures
        drum_after(d, ts).inv(),
        drum_after(d, ts).same_drum(d),
        drum_after(d, ts).current_note() == d.current_note(),
        drum_after(d, ts).notes() == d.notes(),
        drum_after(d, ts).last_timestamp() == (if ts.len() == 0 { d.last_timestamp() } else { ts.last().1 }),
        drum_after(d, ts).notes_index() == accepted_count(d, ts) % d.notes().len(),
        ts.len() > 0 && !drum_after(d, ts.drop_last()).bounces(ts.last().1) ==> drum_after(d, ts.drop_last()).on_start(ts.last().0, ts.last().1).1.messages
            == seq![shown(d.output_device(), note_on_message(
                (d.current_note() + d.notes()[((accepted_count(d, ts) - 1) % (d.notes().len() as int))]) as u8,
                ts.last().0.data2,
            ))],
    decreases ts.len(),
{
    let n = d.notes().len();
    if ts.len() == 0 {
        vstd::arithmetic::div_mod::lemma_small_mod(0, n);
    } else {
        let p = ts.drop_last();
        assert forall|i: int| 0 <= i < p.len() implies elapsed(time_before(d, p, i), #[trigger] p[i].1) <= d.reset_duration() by {
            assert(p[i] == ts[i]);
            assert(time_before(d, p, i) == time_before(d, ts, i));
        }
        lemma_drum_cycles(d, p);
        let k = ts.len() - 1;
        assert(ts[k] == ts.last());
        assert(elapsed(time_before(d, ts, k), ts[k].1) <= d.reset_duration());
        if k > 0 {
            assert(ts[k - 1] == p.last());
        }
        let c = drum_after(d, p);
        assert(c.last_timestamp() == time_before(d, ts, k));
        let cnt = accepted_count(d, p);
        vstd::arithmetic::div_mod::lemma_mod_bound(cnt as int, n as int);
        if !c.bounces(ts.last().1) {
            assert(c.index_at(ts.last().1) == c.notes_index);
            vstd::arithmetic::div_mod::lemma_add_mod_noop(cnt as int, 1, n as int);
            if n == 1 {
                assert((cnt + 1) % 1 == 0) by (nonlinear_arith);
                assert(cnt % 1 == 0) by (nonlinear_arith);
            } else {
                vstd::arithmetic::div_mod::lemma_small_mod(1, n);
                if (cnt as int) % (n as int) + 1 < n {
                    vstd::arithmetic::div_mod::lemma_small_mod(((cnt as int) % (n as int) + 1) as nat, n);
                } else {
                    vstd::arithmetic::div_mod::lemma_mod_self_0(n as int);
                }
            }
        }
    }
}

/// A note-on of the harmony input within the note range becomes the
/// harmony note; nothing else changes and nothing is sent.
pub proof fn lemma_drum_event(d: HarmonyDrum, device: Seq<char>, m: MidiMessage, now: u64)
    requires
        d.inv(),
    ensures
        d.on_event(device, m, now).1 == Seq::<OutputEventView>::empty(),
        d.on_event(device, m, now).0.inv(),
        d.on_event(device, m, now).0.same_drum_but_note(d),
        d.on_event(device, m, now).0.notes_index() == d.notes_index(),
        d.on_event(device, m, now).0.last_timestamp() == d.last_timestamp(),
        d.on_event(device, m, now).0.current_note() == if contains_chars(device, d.harmony_input_device()) && is_note_on_spec(m)
            && d.note_range().0 <= m.data1 && m.data1 <= d.note_range().1 {
            m.data1
        } else {
            d.current_note()
        },
{
}

/// A start is stamped with `now`. Within the debounce time of the last
/// start it does nothing more; otherwise it plays the harmony note plus the
/// current interval (the first after a pause longer than the reset time),
/// hands over the job that ends it, and moves on to the next interval.
pub proof fn lemma_drum_start(d: HarmonyDrum, m: MidiMessage, now: u64)
    requires
        d.inv(),
        d.start_ok(m, now),
    ensures
        d.on_start(m, now).0.inv(),
        d.on_start(m, now).0.same_drum(d),
        d.on_start(m, now).0.last_timestamp() == now,
        d.bounces(now) == (elapsed(d.last_timestamp(), now) < d.debounce_duration()),
        d.bounces(now) ==> d.on_start(m, now).1 == nothing_started() && d.on_start(m, now).0.notes_index() == d.notes_index(),
        !d.bounces(now) ==> ({
            let index = if elapsed(d.last_timestamp(), now) > d.reset_duration() { 0 } else { d.notes_index() as int };
            let played = (d.current_note() + d.notes()[index]) as u8;
            &&& d.on_start(m, now).0.notes_index() == (index + 1) % (d.notes().len() as int)
            &&& d.on_start(m, now).1 == (StartOutcomeView {
                stops_previous: false,
                messages: seq![shown(d.output_device(), note_on_message(played, m.data2))],
                job: Some(JobView::Steps {
                    steps: seq![
                        JobStepView::Sleep(d.note_duration()),
                        JobStepView::Send(shown(d.output_device(), note_off_message(played))),
                    ],
                    finally: Seq::empty(),
                }),
            })
        }),
{
}

/// Drums that are the same but for their harmony note, interval and last
/// start time have the same settings.
pub proof fn lemma_same_drum(a: HarmonyDrum, b: HarmonyDrum)
    ensures
        a.same_drum_but_note(b) ==> {
            &&& a.note_range() == b.note_range()
            &&& a.notes() == b.notes()
            &&& a.harmony_input_device() == b.harmony_input_device()
            &&& a.output_device() == b.output_device()
            &&& a.note_duration() == b.note_duration()
            &&& a.debounce_duration() == b.debounce_duration()
            &&& a.reset_duration() == b.reset_duration()
        },
        a.same_drum(b) ==> a.same_drum_but_note(b) && a.current_note() == b.current_note(),
{
}

/// When a harmony drum can be started: a start that is no bounce needs an
/// interval at the index it plays (the first after a pause longer than the
/// reset time), whose sum with the harmony note is a note byte.
pub proof fn lemma_drum_start_ok(d: HarmonyDrum, m: MidiMessage, now: u64)
    ensures
        d.bounces(now) == (elapsed(d.last_timestamp(), now) < d.debounce_duration()),
        d.start_ok(m, now) == (!d.bounces(now) ==> {
            let index: int = if elapsed(d.last_timestamp(), now) > d.reset_duration() { 0 } else { d.notes_index() as int };
            &&& d.notes().len() > 0
            &&& d.current_note() + d.notes()[index] <= u8::MAX
        }),
{
}

/// A drum with intervals, each of which stays a note byte above its harmony
/// note, can always be started.
pub proof fn lemma_drum_accepts(d: HarmonyDrum, m: MidiMessage, now: u64)
    requires
        d.inv(),
        d.notes().len() > 0,
        forall|i: int| 0 <= i < d.notes().len() ==> #[trigger] d.notes()[i] + d.current_note() <= u8::MAX,
    ensures
        d.start_ok(m, now),
{
}

} // verus!
