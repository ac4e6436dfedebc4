//! A melody on two buttons: one plays the next note and holds it until the
//! next note, the other stops it. Presses within the debounce time of the
//! last accepted press are ignored.
use vstd::prelude::*;
use crate::midi::{MidiMessage, OutputEvent, OutputEventView, contains_chars, is_note_on_spec, note_on_message, note_off_message, shown, play_note_on, play_note_off, name_contains, is_note_on, string_of, no_events};
use crate::effects::effect::{Effect, MonoGroup, StartOutcome, StartOutcomeView, nothing_started, start_nothing};
use crate::effects::button_melody::{elapsed, elapsed_since};

verus! {

pub struct ButtonMelodySustaining {
    button_device: String,
    button_note_start: u8,
    button_note_stop: u8,
    notes: Vec<u8>,
    notes_index: usize,
    output_device: String,
    current_note: Option<u8>,
    debounce_duration: u64,
    reset_duration: u64,
    last_timestamp: u64,
}

impl ButtonMelodySustaining {
    pub closed spec fn button_device(&self) -> Seq<char> {
        self.button_device@
    }

    pub closed spec fn button_note_start(&self) -> u8 {
        self.button_note_start
    }

    pub closed spec fn button_note_stop(&self) -> u8 {
        self.button_note_stop
    }

    pub closed spec fn notes(&self) -> Seq<u8> {
        self.notes@
    }

    pub closed spec fn notes_index(&self) -> nat {
        self.notes_index as nat
    }

    pub closed spec fn output_device(&self) -> Seq<char> {
        self.output_device@
    }

    pub closed spec fn current_note(&self) -> Option<u8> {
        self.current_note
    }

    pub closed spec fn debounce_duration(&self) -> u64 {
        self.debounce_duration
    }

    pub closed spec fn reset_duration(&self) -> u64 {
        self.reset_duration
    }

    pub closed spec fn last_timestamp(&self) -> u64 {
        self.last_timestamp
    }

    /// Durations and `now` are in nanoseconds.
    pub fn new(
        button_device: &str,
        button_note_start: u8,
        button_note_stop: u8,
        output_device: &str,
        notes: Vec<u8>,
        reset_duration: u64,
        debounce_duration: u64,
        now: u64,
    ) -> (b: ButtonMelodySustaining)
        ensures
            b.inv(),
            b.button_device() == button_device@,
            b.button_note_start() == button_note_start,
            b.button_note_stop() == button_note_stop,
            b.output_device() == output_device@,
            b.notes() == notes@,
            b.reset_duration() == reset_duration,
            b.debounce_duration() == debounce_duration,
            b.notes_index() == 0,
            b.current_note() == None::<u8>,
            b.last_timestamp() == now,
    {
        let _ = notes.len();
        ButtonMelodySustaining {
            button_device: string_of(button_device),
            button_note_start,
            button_note_stop,
            output_device: string_of(output_device),
            notes,
            reset_duration,
            debounce_duration,
            notes_index: 0,
            current_note: None,
            last_timestamp: now,
        }
    }

    /// A press of the start or the stop button.
    pub closed spec fn is_press(&self, device: Seq<char>, m: MidiMessage) -> bool {
        &&& contains_chars(device, self.button_device@)
        &&& is_note_on_spec(m)
        &&& (m.data1 == self.button_note_start || m.data1 == self.button_note_stop)
    }

    pub closed spec fn bounces(&self, now: u64) -> bool {
        elapsed(self.last_timestamp, now) < self.debounce_duration
    }

    closed spec fn stopped(&self) -> (Self, Seq<OutputEventView>) {
        match self.current_note {
            Some(c) => (
                ButtonMelodySustaining { current_note: None, ..*self },
                seq![shown(self.output_device@, note_off_message(c))],
            ),
            None => (*self, Seq::empty()),
        }
    }

    fn stop_current_note(&mut self) -> (out: Vec<OutputEvent>)
        ensures
            (*final(self), out.deep_view()) == old(self).stopped(),
    {
        let mut out: Vec<OutputEvent> = Vec::new();
        if let Some(current_note) = self.current_note {
            out.push(play_note_off(self.output_device.as_str(), current_note));
            self.current_note = None;
        }
        proof {
            assert(out.deep_view() =~= old(self).stopped().1);
        }
        out
    }
}

impl Effect for ButtonMelodySustaining {
    closed spec fn inv(&self) -> bool {
        &&& self.notes_index == 0 || self.notes_index < self.notes@.len()
        &&& self.notes@.len() <= usize::MAX
    }

    /// An accepted press of the start button has a note to play.
    closed spec fn event_ok(&self, device: Seq<char>, m: MidiMessage, now: u64) -> bool {
        (self.is_press(device, m) && !self.bounces(now) && m.data1 == self.button_note_start)
            ==> self.notes@.len() > 0
    }

    /// A press within the debounce time of the last accepted press is
    /// ignored. Otherwise it is stamped with `now`, the melody starts over
    /// after a pause longer than the reset time, the start button plays the
    /// next note and then ends the one before, and the stop button ends the
    /// note playing.
    closed spec fn on_event(&self, device: Seq<char>, m: MidiMessage, now: u64) -> (Self, Seq<OutputEventView>) {
        if !self.is_press(device, m) || self.bounces(now) {
            (*self, Seq::empty())
        } else {
            let index: usize = if elapsed(self.last_timestamp, now) > self.reset_duration { 0 } else { self.notes_index };
            if m.data1 == self.button_note_start {
                let played = self.notes@[index as int];
                let playing = ButtonMelodySustaining {
                    notes_index: ((index + 1) % (self.notes@.len() as int)) as usize,
                    last_timestamp: now,
                    ..*self
                };
                (
                    ButtonMelodySustaining { current_note: Some(played), ..playing.stopped().0 },
                    seq![shown(self.output_device@, note_on_message(played, m.data2))] + playing.stopped().1,
                )
            } else {
                ButtonMelodySustaining { notes_index: index, last_timestamp: now, ..*self }.stopped()
            }
        }
    }

    open spec fn start_ok(&self, m: MidiMessage, now: u64) -> bool {
        true
    }

    open spec fn on_start(&self, m: MidiMessage, now: u64) -> (Self, StartOutcomeView) {
        (*self, nothing_started())
    }

    open spec fn on_stop(&self) -> (Self, Seq<OutputEventView>) {
        (*self, Seq::empty())
    }

    open spec fn running(&self) -> bool {
        false
    }

    open spec fn group(&self) -> MonoGroup {
        MonoGroup::Ungrouped
    }

    proof fn lemma_event_keeps_mode(&self, device: Seq<char>, m: MidiMessage, now: u64) {
    }

    proof fn lemma_stop_halts(&self) {
    }

    proof fn lemma_start_keeps_group(&self, m: MidiMessage, now: u64) {
    }

    fn can_handle(&self, device: &str, midi_message: MidiMessage, now: u64) -> (b: bool) {
        let is_press = name_contains(device, self.button_device.as_str()) && is_note_on(midi_message)
            && (midi_message.data1 == self.button_note_start || midi_message.data1 == self.button_note_stop);
        !(is_press && !(elapsed_since(self.last_timestamp, now) < self.debounce_duration)
            && midi_message.data1 == self.button_note_start) || self.notes.len() > 0
    }

    fn can_start(&self, midi_message: MidiMessage, now: u64) -> (b: bool) {
        true
    }

    fn on_midi_event(&mut self, device: &str, midi_message: MidiMessage, now: u64) -> (out: Vec<OutputEvent>) {
        let ghost before = *self;
        let is_press = name_contains(device, self.button_device.as_str()) && is_note_on(midi_message)
            && (midi_message.data1 == self.button_note_start || midi_message.data1 == self.button_note_stop);
        if !is_press {
            return no_events();
        }
        let duration_since_last_event = elapsed_since(self.last_timestamp, now);
        if duration_since_last_event < self.debounce_duration {
            return no_events();
        } else if duration_since_last_event > self.reset_duration {
            self.notes_index = 0;
        }
        self.last_timestamp = now;
        if midi_message.data1 == self.button_note_start {
            let played_note = self.notes[self.notes_index];
            let n = self.notes.len();
            self.notes_index = (self.notes_index + 1) % n;
            let mut out: Vec<OutputEvent> = Vec::new();
            out.push(play_note_on(self.output_device.as_str(), played_note, midi_message.data2));
            let mut stopped = self.stop_current_note();
            out.append(&mut stopped);
            self.current_note = Some(played_note);
            proof {
                assert(out.deep_view() =~= before.on_event(device@, midi_message, now).1);
            }
            out
        } else {
            self.stop_current_note()
        }
    }

    fn start(&mut self, midi_message: MidiMessage, now: u64) -> (out: StartOutcome) {
        start_nothing()
    }

    fn stop(&mut self) -> (out: Vec<OutputEvent>) {
        no_events()
    }

    fn is_running(&self) -> (b: bool) {
        false
    }

    fn mono_group(&self) -> (g: MonoGroup) {
        MonoGroup::Ungrouped
    }
}

/// Presses that come faster than the debounce time change nothing and
/// send nothing.
pub proof fn lemma_bounce_ignored(b: ButtonMelodySustaining, device: Seq<char>, m: MidiMessage, now: u64)
    requires
        b.bounces(now),
    ensures
        b.on_event(device, m, now) == (b, Seq::<OutputEventView>::empty()),
{
}

/// At most one note sounds: a start press leaves exactly the note it
/// played as the current note, and ends the one before.
pub proof fn lemma_single_note_sounds(b: ButtonMelodySustaining, device: Seq<char>, m: MidiMessage, now: u64)
    requires
        b.inv(),
        b.event_ok(device, m, now),
        b.is_press(device, m),
        !b.bounces(now),
        m.data1 == b.button_note_start(),
        b.current_note() is Some,
    ensures
        b.on_event(device, m, now).1.len() == 2,
        b.on_event(device, m, now).1[1] == shown(b.output_device(), note_off_message(b.current_note()->0)),
        b.on_event(device, m, now).0.current_note() is Some,
        b.on_event(device, m, now).1[0].message.data1 == b.on_event(device, m, now).0.current_note()->0,
{
}

/// What an event does to a sustaining melody. Only presses of its start or
/// stop button count, and those within the debounce time of the last
/// accepted press are ignored. An accepted press is stamped with `now`, and
/// the melody starts over after a pause longer than the reset time; the
/// start button plays the next note and then ends the one sounding, the
/// stop button ends the one sounding.
pub proof fn lemma_sustaining_event(b: ButtonMelodySustaining, device: Seq<char>, m: MidiMessage, now: u64)
    requires
        b.inv(),
        b.event_ok(device, m, now),
    ensures
        b.is_press(device, m) == (contains_chars(device, b.button_device()) && is_note_on_spec(m)
            && (m.data1 == b.button_note_start() || m.data1 == b.button_note_stop())),
        b.bounces(now) == (elapsed(b.last_timestamp(), now) < b.debounce_duration()),
        b.on_event(device, m, now).0.inv(),
        b.on_event(device, m, now).0.notes() == b.notes(),
        b.on_event(device, m, now).0.output_device() == b.output_device(),
        b.on_event(device, m, now).0.button_device() == b.button_device(),
        b.on_event(device, m, now).0.button_note_start() == b.button_note_start(),
        b.on_event(device, m, now).0.button_note_stop() == b.button_note_stop(),
        b.on_event(device, m, now).0.debounce_duration() == b.debounce_duration(),
        b.on_event(device, m, now).0.reset_duration() == b.reset_duration(),
        ({
            let next = b.on_event(device, m, now).0;
            let out = b.on_event(device, m, now).1;
            let index: int = if elapsed(b.last_timestamp(), now) > b.reset_duration() { 0 } else { b.notes_index() as int };
            let ends = match b.current_note() {
                Some(c) => seq![shown(b.output_device(), note_off_message(c))],
                None => Seq::<OutputEventView>::empty(),
            };
            &&& (!b.is_press(device, m) || b.bounces(now)) ==> {
                &&& next.notes_index() == b.notes_index()
                &&& next.last_timestamp() == b.last_timestamp()
                &&& next.current_note() == b.current_note()
                &&& out == Seq::<OutputEventView>::empty()
            }
            &&& (b.is_press(device, m) && !b.bounces(now) && m.data1 == b.button_note_start()) ==> {
                &&& next.notes_index() == (index + 1) % (b.notes().len() as int)
                &&& next.last_timestamp() == now
                &&& next.current_note() == Some(b.notes()[index])
                &&& out == seq![shown(b.output_device(), note_on_message(b.notes()[index], m.data2))] + ends
            }
            &&& (b.is_press(device, m) && !b.bounces(now) && m.data1 != b.button_note_start()) ==> {
                &&& next.notes_index() == index
                &&& next.last_timestamp() == now
                &&& next.current_note() == None::<u8>
                &&& out == ends
            }
        }),
{
    b.lemma_event_keeps_mode(device, m, now);
}

/// When a sustaining melody can handle an event: an accepted press of the
/// start button needs a note.
pub proof fn lemma_sustaining_event_ok(b: ButtonMelodySustaining, device: Seq<char>, m: MidiMessage, now: u64)
    ensures
        b.event_ok(device, m, now) == ((b.is_press(device, m) && !b.bounces(now) && m.data1 == b.button_note_start())
            ==> b.notes().len() > 0),
{
}

} // verus!
