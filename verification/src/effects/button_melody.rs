//! Button melodies: each press of a button plays the next note of a melody,
//! relative to a base note; a pause longer than the reset time starts the
//! melody over.
use vstd::prelude::*;
use std::collections::HashMap;
use crate::midi::{MidiMessage, OutputEvent, OutputEventView, contains_chars, is_note_on_spec, is_note_off_spec, note_on_message, note_off_message, shown, play_note_on, play_note_off, name_contains, is_note_on, is_note_off, string_of, no_events, byte_in};
use crate::utils::midi_filter::{MidiFilter, MidiFilterView, filter_matches};
use crate::effects::effect::{Effect, MonoGroup, StartOutcome, StartOutcomeView, nothing_started, start_nothing};

verus! {

/// Effects whose notes are relative to a base note that can be changed.
pub trait HasBaseNote: Effect {
    /// The effect with `base_note` as its base note.
    spec fn with_base_note(&self, base_note: i8) -> Self;

    fn set_base_note(&mut self, base_note: i8)
        requires
            old(self).inv(),
        ensures
            final(self).inv(),
            *final(self) == old(self).with_base_note(base_note),
    ;

    /// Whether the effect, after a stop if `stop` and with the base note
    /// `base_note` if there is one, could handle the event.
    fn can_handle_prepared(&self, stop: bool, base_note: Option<i8>, device: &str, midi_message: MidiMessage, now: u64) -> (b: bool)
        requires
            self.inv(),
        ensures
            b == (match base_note {
                Some(bn) => (if stop { self.on_stop().0 } else { *self }).with_base_note(bn),
                None => if stop { self.on_stop().0 } else { *self },
            }).event_ok(device@, midi_message, now),
    ;

    /// Changing the base note neither starts nor stops a job, nor changes
    /// the group.
    proof fn lemma_base_note_keeps_mode(&self, base_note: i8)
        requires
            self.inv(),
        ensures
            self.with_base_note(base_note).inv(),
            self.with_base_note(base_note).running() == self.running(),
            self.with_base_note(base_note).group() == self.group(),
    ;
}

/// The effect after a stop if `stop`, with `base_note` as its base note if
/// there is one.
pub open spec fn prepare<T: HasBaseNote>(e: T, stop: bool, base_note: Option<i8>) -> T {
    let s = if stop { e.on_stop().0 } else { e };
    match base_note {
        Some(b) => s.with_base_note(b),
        None => s,
    }
}

/// The time passed from `last` to `now`; zero if `now` is earlier.
pub open spec fn elapsed(last: u64, now: u64) -> u64 {
    if now >= last {
        (now - last) as u64
    } else {
        0
    }
}

pub fn elapsed_since(last: u64, now: u64) -> (d: u64)
    ensures
        d == elapsed(last, now),
{
    if now >= last {
        now - last
    } else {
        0
    }
}

/// A sum of a melody note and a base note in the range of `i8`, as the note
/// byte that its two's complement bits give.
pub open spec fn note_byte(sum: int) -> u8 {
    if sum < 0 {
        (sum + 256) as u8
    } else {
        sum as u8
    }
}

pub open spec fn in_i8(sum: int) -> bool {
    -128 <= sum <= 127
}

pub fn melody_note(played: i8, base_note: i8) -> (r: u8)
    requires
        in_i8(played + base_note),
    ensures
        r == note_byte(played + base_note),
{
    let sum: i8 = played + base_note;
    assert((sum as u8) == (if sum < 0 { (sum + 256) as u8 } else { sum as u8 })) by (bit_vector);
    sum as u8
}

pub struct ButtonMelody {
    button_device: String,
    button_notes: Vec<u8>,
    notes: Vec<i8>,
    base_note: i8,
    notes_index: usize,
    output_device: String,
    current_note: Option<u8>,
    reset_duration: u64,
    last_timestamp: u64,
    reset_filter: Option<MidiFilter>,
}

impl ButtonMelody {
    pub closed spec fn button_device(&self) -> Seq<char> {
        self.button_device@
    }

    pub closed spec fn button_notes(&self) -> Seq<u8> {
        self.button_notes@
    }

    pub closed spec fn notes(&self) -> Seq<i8> {
        self.notes@
    }

    pub closed spec fn base_note(&self) -> i8 {
        self.base_note
    }

    pub closed spec fn notes_index(&self) -> nat {
        self.notes_index as nat
    }

    pub closed spec fn output_device(&self) -> Seq<char> {
        self.output_device@
    }

    pub closed spec fn current_note(&self) -> Option<u8> {
        self.current_note
    }

    pub closed spec fn reset_duration(&self) -> u64 {
        self.reset_duration
    }

    pub closed spec fn last_timestamp(&self) -> u64 {
        self.last_timestamp
    }

    pub closed spec fn reset_filter(&self) -> Option<MidiFilterView> {
        match self.reset_filter {
            Some(f) => Some(f@),
            None => None,
        }
    }

    /// A melody played by the buttons `button_notes` of `button_device`;
    /// `reset_duration` and `now` are in nanoseconds.
    pub fn new(
        button_device: &str,
        button_notes: Vec<u8>,
        output_device: &str,
        notes: Vec<i8>,
        base_note: i8,
        reset_duration: u64,
        now: u64,
    ) -> (b: ButtonMelody)
        ensures
            b.inv(),
            b.button_device() == button_device@,
            b.button_notes() == button_notes@,
            b.output_device() == output_device@,
            b.notes() == notes@,
            b.base_note() == base_note,
            b.reset_duration() == reset_duration,
            b.notes_index() == 0,
            b.current_note() == None::<u8>,
            b.last_timestamp() == now,
            b.reset_filter() == None::<MidiFilterView>,
    {
        let _ = notes.len();
        ButtonMelody {
            button_device: string_of(button_device),
            button_notes,
            output_device: string_of(output_device),
            notes,
            base_note,
            reset_duration,
            notes_index: 0,
            current_note: None,
            last_timestamp: now,
            reset_filter: None,
        }
    }

    /// The same melody, which also starts over on each message that
    /// `filter` lets through.
    pub fn with_reset_filter(self, filter: MidiFilter) -> (b: Self)
        requires
            self.inv(),
        ensures
            b.inv(),
            b.reset_filter() == Some(filter@),
            b.button_device() == self.button_device(),
            b.button_notes() == self.button_notes(),
            b.output_device() == self.output_device(),
            b.notes() == self.notes(),
            b.base_note() == self.base_note(),
            b.reset_duration() == self.reset_duration(),
            b.notes_index() == self.notes_index(),
            b.current_note() == self.current_note(),
            b.last_timestamp() == self.last_timestamp(),
    {
        let mut b = self;
        b.reset_filter = Some(filter);
        b
    }

    /// The message is a press or release of one of the melody's buttons.
    pub closed spec fn is_button(&self, device: Seq<char>, m: MidiMessage) -> bool {
        &&& contains_chars(device, self.button_device@)
        &&& is_note_on_spec(m) || is_note_off_spec(m)
        &&& self.button_notes@.contains(m.data1)
    }

    pub closed spec fn reset_hit(&self, device: Seq<char>, m: MidiMessage) -> bool {
        match self.reset_filter {
            Some(f) => filter_matches(f@, device, m),
            None => false,
        }
    }

    /// The index of the note a press at `now` plays.
    pub closed spec fn index_at(&self, device: Seq<char>, m: MidiMessage, now: u64) -> int {
        if self.reset_hit(device, m) || elapsed(self.last_timestamp, now) > self.reset_duration {
            0
        } else {
            self.notes_index as int
        }
    }

    closed spec fn stopped(&self) -> (Self, Seq<OutputEventView>) {
        match self.current_note {
            Some(c) => (
                ButtonMelody { current_note: None, ..*self },
                seq![shown(self.output_device@, note_off_message(c))],
            ),
            None => (*self, Seq::empty()),
        }
    }

    fn stop_current(&mut self) -> (out: Vec<OutputEvent>)
        ensures
            (*final(self), out.deep_view()) == old(self).stopped(),
    {
        let mut out: Vec<OutputEvent> = Vec::new();
        if let Some(current_note) = self.current_note {
            out.push(play_note_off(self.output_device.as_str(), current_note));
            self.current_note = None;
        }
        proof {
            assert(out.deep_view() =~= old(self).stopped().1);
        }
        out
    }

    /// Whether the melody with `base_note` as its base note could handle
    /// the event.
    fn can_handle_with_base(&self, base_note: i8, device: &str, midi_message: MidiMessage, now: u64) -> (b: bool)
        requires
            self.inv(),
        ensures
            b == (ButtonMelody { base_note, ..*self }).event_ok(device@, midi_message, now),
    {
        let reset = match &self.reset_filter {
            Some(f) => f.matches(device, midi_message),
            None => false,
        };
        let is_button = name_contains(device, self.button_device.as_str())
            && (is_note_on(midi_message) || is_note_off(midi_message))
            && byte_in(self.button_notes.as_slice(), midi_message.data1);
        if !is_button || !is_note_on(midi_message) {
            return true;
        }
        let n = self.notes.len();
        if n == 0 {
            return false;
        }
        let index = if reset || elapsed_since(self.last_timestamp, now) > self.reset_duration { 0 } else { self.notes_index };
        let sum = self.notes[index] as i16 + base_note as i16;
        -128 <= sum && sum <= 127
    }
}

impl Effect for ButtonMelody {
    closed spec fn inv(&self) -> bool {
        &&& self.notes_index == 0 || self.notes_index < self.notes@.len()
        &&& self.notes@.len() <= usize::MAX
    }

    /// A press can be played: there is a note, and adding the base note to
    /// it stays in the range of `i8`.
    closed spec fn event_ok(&self, device: Seq<char>, m: MidiMessage, now: u64) -> bool {
        (self.is_button(device, m) && is_note_on_spec(m)) ==> {
            &&& self.notes@.len() > 0
            &&& in_i8(self.notes@[self.index_at(device, m, now)] + self.base_note)
        }
    }

    /// A message that passes the reset filter starts the melody over. A
    /// button message is stamped with `now`; after a pause longer than the
    /// reset time the melody starts over. A press plays the next note of the
    /// melody, moved by the base note; a release stops the note playing.
    closed spec fn on_event(&self, device: Seq<char>, m: MidiMessage, now: u64) -> (Self, Seq<OutputEventView>) {
        let reset_index: usize = if self.reset_hit(device, m) { 0 } else { self.notes_index };
        if !self.is_button(device, m) {
            (ButtonMelody { notes_index: reset_index, ..*self }, Seq::empty())
        } else {
            let index = self.index_at(device, m, now);
            if is_note_on_spec(m) {
                let played = note_byte(self.notes@[index] + self.base_note);
                (
                    ButtonMelody {
                        notes_index: ((index + 1) % (self.notes@.len() as int)) as usize,
                        last_timestamp: now,
                        current_note: Some(played),
                        ..*self
                    },
                    seq![shown(self.output_device@, note_on_message(played, m.data2))],
                )
            } else {
                ButtonMelody { notes_index: index as usize, last_timestamp: now, ..*self }.stopped()
            }
        }
    }

    open spec fn start_ok(&self, m: MidiMessage, now: u64) -> bool {
        true
    }

    open spec fn on_start(&self, m: MidiMessage, now: u64) -> (Self, StartOutcomeView) {
        (*self, nothing_started())
    }

    /// A stop ends the note playing.
    closed spec fn on_stop(&self) -> (Self, Seq<OutputEventView>) {
        self.stopped()
    }

    open spec fn running(&self) -> bool {
        false
    }

    open spec fn group(&self) -> MonoGroup {
        MonoGroup::Ungrouped
    }

    proof fn lemma_event_keeps_mode(&self, device: Seq<char>, m: MidiMessage, now: u64) {
    }

    proof fn lemma_stop_halts(&self) {
    }

    proof fn lemma_start_keeps_group(&self, m: MidiMessage, now: u64) {
    }

    fn can_handle(&self, device: &str, midi_message: MidiMessage, now: u64) -> (b: bool) {
        self.can_handle_with_base(self.base_note, device, midi_message, now)
    }

    fn can_start(&self, midi_message: MidiMessage, now: u64) -> (b: bool) {
        true
    }

    fn on_midi_event(&mut self, device: &str, midi_message: MidiMessage, now: u64) -> (out: Vec<OutputEvent>) {
        let ghost before = *self;
        let reset = match &self.reset_filter {
            Some(f) => f.matches(device, midi_message),
            None => false,
        };
        if reset {
            self.notes_index = 0;
        }
        let is_button = name_contains(device, self.button_device.as_str())
            && (is_note_on(midi_message) || is_note_off(midi_message))
            && byte_in(self.button_notes.as_slice(), midi_message.data1);
        if !is_button {
            return no_events();
        }
        let duration_since_last_event = elapsed_since(self.last_timestamp, now);
        self.last_timestamp = now;
        if duration_since_last_event > self.reset_duration {
            self.notes_index = 0;
        }
        if is_note_on(midi_message) {
            let played_note = self.notes[self.notes_index];
            let n = self.notes.len();
            self.notes_index = (self.notes_index + 1) % n;
            let final_played_note = melody_note(played_note, self.base_note);
            let mut out: Vec<OutputEvent> = Vec::new();
            out.push(play_note_on(self.output_device.as_str(), final_played_note, midi_message.data2));
            self.current_note = Some(final_played_note);
            proof {
                assert(out.deep_view() =~= before.on_event(device@, midi_message, now).1);
            }
            out
        } else {
            self.stop_current()
        }
    }

    fn start(&mut self, midi_message: MidiMessage, now: u64) -> (out: StartOutcome) {
        start_nothing()
    }

    fn stop(&mut self) -> (out: Vec<OutputEvent>) {
        self.stop_current()
    }

    fn is_running(&self) -> (b: bool) {
        false
    }

    fn mono_group(&self) -> (g: MonoGroup) {
        MonoGroup::Ungrouped
    }
}

impl HasBaseNote for ButtonMelody {
    closed spec fn with_base_note(&self, base_note: i8) -> Self {
        ButtonMelody { base_note, ..*self }
    }

    fn can_handle_prepared(&self, stop: bool, base_note: Option<i8>, device: &str, midi_message: MidiMessage, now: u64) -> (b: bool) {
        let base = match base_note {
            Some(b) => b,
            None => self.base_note,
        };
        self.can_handle_with_base(base, device, midi_message, now)
    }

    fn set_base_note(&mut self, base_note: i8) {
        self.base_note = base_note;
    }

    proof fn lemma_base_note_keeps_mode(&self, base_note: i8) {
    }
}

/// Pressing a button of a melody with no pause longer than the reset time
/// plays the melody's notes in order: the note after the one just played.
pub proof fn lemma_melody_advances(b: ButtonMelody, device: Seq<char>, m: MidiMessage, now: u64)
    requires
        b.inv(),
        b.event_ok(device, m, now),
        b.is_button(device, m),
        is_note_on_spec(m),
        !b.reset_hit(device, m),
        elapsed(b.last_timestamp(), now) <= b.reset_duration(),
    ensures
        b.on_event(device, m, now).1 == seq![shown(b.output_device(), note_on_message(note_byte(b.notes()[b.notes_index() as int] + b.base_note()), m.data2))],
        b.on_event(device, m, now).0.notes_index() == (b.notes_index() + 1) % b.notes().len(),
        b.on_event(device, m, now).0.current_note() == Some(note_byte(b.notes()[b.notes_index() as int] + b.base_note())),
{
}

/// Every note a melody plays is stopped by the release or stop that
/// follows: the note playing after a press is the one the press played.
pub proof fn lemma_release_stops_played(b: ButtonMelody, device: Seq<char>, press: MidiMessage, release: MidiMessage, t1: u64, t2: u64)
    requires
        b.inv(),
        b.event_ok(device, press, t1),
        b.is_button(device, press),
        is_note_on_spec(press),
        b.on_event(device, press, t1).0.is_button(device, release),
        is_note_off_spec(release),
        !is_note_on_spec(release),
    ensures
        b.on_event(device, press, t1).0.on_event(device, release, t2).1
            == seq![shown(b.output_device(), note_off_message(b.on_event(device, press, t1).0.current_note()->0))],
        b.on_event(device, press, t1).0.on_event(device, release, t2).0.current_note() == None::<u8>,
{
}

/// Which messages are button messages and reset the melody.
pub proof fn lemma_button_melody_tests(b: ButtonMelody, device: Seq<char>, m: MidiMessage)
    ensures
        b.is_button(device, m) == (contains_chars(device, b.button_device()) && (is_note_on_spec(m) || is_note_off_spec(m))
            && b.button_notes().contains(m.data1)),
        b.reset_hit(device, m) == match b.reset_filter() {
            Some(f) => filter_matches(f, device, m),
            None => false,
        },
{
}

/// What an event does to a button melody. A message of the reset filter
/// starts the melody over. A button message is stamped with `now`, and the
/// melody starts over after a pause longer than the reset time; a press
/// plays the melody's next note moved by the base note, a release stops the
/// note sounding. Other messages send nothing.
pub proof fn lemma_button_melody_event(b: ButtonMelody, device: Seq<char>, m: MidiMessage, now: u64)
    requires
        b.inv(),
        b.event_ok(device, m, now),
    ensures
        b.on_event(device, m, now).0.inv(),
        b.on_event(device, m, now).0.same_melody(b),
        ({
            let next = b.on_event(device, m, now).0;
            let out = b.on_event(device, m, now).1;
            let reset = b.reset_hit(device, m);
            let index: int = if reset || elapsed(b.last_timestamp(), now) > b.reset_duration() { 0 } else { b.notes_index() as int };
            &&& !b.is_button(device, m) ==> {
                &&& next.notes_index() == (if reset { 0 } else { b.notes_index() })
                &&& next.last_timestamp() == b.last_timestamp()
                &&& next.current_note() == b.current_note()
                &&& out == Seq::<OutputEventView>::empty()
            }
            &&& b.is_button(device, m) && is_note_on_spec(m) ==> {
                let played = note_byte(b.notes()[index] + b.base_note());
                &&& next.notes_index() == (index + 1) % (b.notes().len() as int)
                &&& next.last_timestamp() == now
                &&& next.current_note() == Some(played)
                &&& out == seq![shown(b.output_device(), note_on_message(played, m.data2))]
            }
            &&& b.is_button(device, m) && !is_note_on_spec(m) ==> {
                &&& next.notes_index() == index
                &&& next.last_timestamp() == now
                &&& next.current_note() == None::<u8>
                &&& out == match b.current_note() {
                    Some(c) => seq![shown(b.output_device(), note_off_message(c))],
                    None => Seq::<OutputEventView>::empty(),
                }
            }
        }),
{
}

/// A stop ends the note sounding, if one does.
pub proof fn lemma_button_melody_stop(b: ButtonMelody)
    ensures
        b.on_stop().0.same_melody(b),
        b.on_stop().0.notes_index() == b.notes_index(),
        b.on_stop().0.last_timestamp() == b.last_timestamp(),
        b.on_stop().0.current_note() == None::<u8>,
        b.on_stop().1 == match b.current_note() {
            Some(c) => seq![shown(b.output_device(), note_off_message(c))],
            None => Seq::<OutputEventView>::empty(),
        },
{
}

/// Melodies that differ at most in where they are, when they last heard a
/// button and which note sounds have the same settings.
pub proof fn lemma_same_melody(a: ButtonMelody, b: ButtonMelody)
    requires
        a.same_melody(b),
    ensures
        a.button_device() == b.button_device(),
        a.button_notes() == b.button_notes(),
        a.notes() == b.notes(),
        a.base_note() == b.base_note(),
        a.output_device() == b.output_device(),
        a.reset_duration() == b.reset_duration(),
        a.reset_filter() == b.reset_filter(),
{
}

/// When a button melody can handle an event: a press needs a note at the
/// index it plays (the first after a reset or a pause longer than the reset
/// time), whose sum with the base note is in the range of `i8`.
pub proof fn lemma_button_melody_event_ok(b: ButtonMelody, device: Seq<char>, m: MidiMessage, now: u64)
    ensures
        b.event_ok(device, m, now) == ((b.is_button(device, m) && is_note_on_spec(m)) ==> {
            let index: int = if b.reset_hit(device, m) || elapsed(b.last_timestamp(), now) > b.reset_duration() { 0 } else { b.notes_index() as int };
            &&& b.notes().len() > 0
            &&& in_i8(b.notes()[index] + b.base_note())
        }),
{
}

/// A melody with notes, each of which stays in the range of `i8` with the
/// base note added, can handle every event.
pub proof fn lemma_button_melody_accepts(b: ButtonMelody, device: Seq<char>, m: MidiMessage, now: u64)
    requires
        b.inv(),
        b.notes().len() > 0,
        forall|i: int| 0 <= i < b.notes().len() ==> #[trigger] in_i8(b.notes()[i] + b.base_note()),
    ensures
        b.event_ok(device, m, now),
{
    let index = b.index_at(device, m, now);
    assert(0 <= index < b.notes().len());
    assert(in_i8(b.notes()[index] + b.base_note()));
}

/// When a multi-melody can handle an event: a press for a base note with a
/// melody needs a note in it, whose sum with the base note at the index it
/// plays is in the range of `i8`.
pub proof fn lemma_multi_melody_event_ok(b: ButtonMultiMelody, device: Seq<char>, m: MidiMessage, now: u64)
    ensures
        b.is_button(device, m) == (contains_chars(device, b.button_device()) && (is_note_on_spec(m) || is_note_off_spec(m))
            && b.button_notes().contains(m.data1)),
        b.event_ok(device, m, now) == ((b.is_button(device, m) && is_note_on_spec(m) && b.melodies().contains_key(b.base_note())) ==> {
            let notes = b.melodies()[b.base_note()];
            let index: int = if elapsed(b.last_timestamp(), now) > b.reset_duration() { 0 } else { b.notes_index() as int };
            &&& notes.len() > 0
            &&& in_i8(notes[index % (notes.len() as int)] + b.base_note())
        }),
{
}

/// A multi-melody whose melody for its base note has notes that all stay
/// in the range of `i8` with the base note added, or that has no melody for
/// its base note, can handle every event.
pub proof fn lemma_multi_melody_accepts(b: ButtonMultiMelody, device: Seq<char>, m: MidiMessage, now: u64)
    requires
        b.melodies().contains_key(b.base_note()) ==> {
            &&& b.melodies()[b.base_note()].len() > 0
            &&& forall|i: int| 0 <= i < b.melodies()[b.base_note()].len()
                ==> #[trigger] in_i8(b.melodies()[b.base_note()][i] + b.base_note())
        },
    ensures
        b.event_ok(device, m, now),
{
    lemma_multi_melody_event_ok(b, device, m, now);
    if b.melodies().contains_key(b.base_note()) {
        let notes = b.melodies()[b.base_note()];
        let index: int = if elapsed(b.last_timestamp(), now) > b.reset_duration() { 0 } else { b.notes_index() as int };
        vstd::arithmetic::div_mod::lemma_mod_bound(index, notes.len() as int);
        assert(in_i8(notes[index % (notes.len() as int)] + b.base_note()));
    }
}

/// A MIDI event: the device, the message and the time.
pub type TimedEvent = (Seq<char>, MidiMessage, u64);

/// The melody after the events `es`, in order.
pub open spec fn melody_after(b: ButtonMelody, es: Seq<TimedEvent>) -> ButtonMelody
    decreases es.len(),
{
    if es.len() == 0 {
        b
    } else {
        melody_after(b, es.drop_last()).on_event(es.last().0, es.last().1, es.last().2).0
    }
}

/// The number of presses (note-ons) among the events.
pub open spec fn press_count(es: Seq<TimedEvent>) -> nat
    decreases es.len(),
{
    if es.len() == 0 {
        0
    } else {
        press_count(es.drop_last()) + if is_note_on_spec(es.last().1) { 1nat } else { 0nat }
    }
}

/// Every event presses or releases a button of the melody, none hits the
/// reset filter, and each comes within the reset time of the one before
/// (the first within the reset time of the melody's last event).
pub open spec fn steady_presses(b: ButtonMelody, es: Seq<TimedEvent>) -> bool {
    forall|i: int| 0 <= i < es.len() ==> {
        &&& b.is_button(#[trigger] es[i].0, es[i].1)
        &&& !b.reset_hit(es[i].0, es[i].1)
        &&& elapsed(if i == 0 { b.last_timestamp() } else { es[i - 1].2 }, es[i].2) <= b.reset_duration()
    }
}

impl ButtonMelody {
    /// The two melodies differ at most in where they are, when they last
    /// heard a button and which note sounds.
    pub closed spec fn same_melody(&self, other: ButtonMelody) -> bool {
        &&& self.button_device == other.button_device
        &&& self.button_notes == other.button_notes
        &&& self.notes == other.notes
        &&& self.base_note == other.base_note
        &&& self.output_device == other.output_device
        &&& self.reset_duration == other.reset_duration
        &&& self.reset_filter == other.reset_filter
    }
}

/// From its first note, a melody whose buttons are pressed without a pause
/// longer than the reset time plays its notes cyclically: after `j`
/// presses it is at note `j` modulo the number of notes, and the `j`-th
/// press (from zero) plays note `j` modulo that number, moved by the base
/// note. Releases in between stop notes and do not move the melody on.
pub proof fn lemma_melody_cycles(b: ButtonMelody, es: Seq<TimedEvent>)
    requires
        b.inv(),
        b.notes().len() > 0,
        b.notes_index() == 0,
        steady_presses(b, es),
    ensures
        melody_after(b, es).inv(),
        melody_after(b, es).same_melody(b),
        melody_after(b, es).notes() == b.notes(),
        melody_after(b, es).base_note() == b.base_note(),
        melody_after(b, es).output_device() == b.output_device(),
        melody_after(b, es).last_timestamp() == (if es.len() == 0 { b.last_timestamp() } else { es.last().2 }),
        melody_after(b, es).notes_index() == press_count(es) % b.notes().len(),
        es.len() > 0 && is_note_on_spec(es.last().1) ==> melody_after(b, es.drop_last()).on_event(es.last().0, es.last().1, es.last().2).1
            == seq![shown(b.output_device(), note_on_message(
                note_byte(b.notes()[((press_count(es) - 1) % (b.notes().len() as int))] + b.base_note()),
                es.last().1.data2,
            ))],
    decreases es.len(),
{
    let n = b.notes().len();
    if es.len() == 0 {
        vstd::arithmetic::div_mod::lemma_small_mod(0, n);
    } else {
        let p = es.drop_last();
        assert forall|i: int| 0 <= i < p.len() implies {
            &&& b.is_button(#[trigger] p[i].0, p[i].1)
            &&& !b.reset_hit(p[i].0, p[i].1)
            &&& elapsed(if i == 0 { b.last_timestamp() } else { p[i - 1].2 }, p[i].2) <= b.reset_duration()
        } by {
            assert(p[i] == es[i]);
            if i > 0 {
                assert(p[i - 1] == es[i - 1]);
            }
        }
        lemma_melody_cycles(b, p);
        let c = melody_after(b, p);
        let k = es.len() - 1;
        assert(es[k] == es.last());
        assert(b.is_button(es[k].0, es[k].1));
        if k > 0 {
            assert(es[k - 1] == p.last());
        }
        assert(c.is_button(es.last().0, es.last().1));
        assert(!c.reset_hit(es.last().0, es.last().1));
        assert(c.index_at(es.last().0, es.last().1, es.last().2) == c.notes_index);
        let cnt = press_count(p);
        vstd::arithmetic::div_mod::lemma_mod_bound(cnt as int, n as int);
        if is_note_on_spec(es.last().1) {
            vstd::arithmetic::div_mod::lemma_add_mod_noop(cnt as int, 1, n as int);
            if n == 1 {
                assert((cnt + 1) % 1 == 0) by (nonlinear_arith);
                assert(cnt % 1 == 0) by (nonlinear_arith);
            } else {
                vstd::arithmetic::div_mod::lemma_small_mod(1, n);
                if (cnt as int) % (n as int) + 1 < n {
                    vstd::arithmetic::div_mod::lemma_small_mod(((cnt as int) % (n as int) + 1) as nat, n);
                } else {
                    vstd::arithmetic::div_mod::lemma_mod_self_0(n as int);
                }
            }
        }
    }
}

/// A button melody whose melody depends on the base note: for each base note
/// its own list of notes.
pub struct ButtonMultiMelody {
    button_device: String,
    button_notes: Vec<u8>,
    notes_by_base_note: HashMap<i8, Vec<i8>>,
    base_note: i8,
    notes_index: usize,
    output_device: String,
    current_note: Option<u8>,
    reset_duration: u64,
    last_timestamp: u64,
}

/// The melody of each base note, as plain sequences.
pub open spec fn melodies_view(m: Map<i8, Vec<i8>>) -> Map<i8, Seq<i8>> {
    Map::new(|k: i8| m.contains_key(k), |k: i8| m[k]@)
}

impl ButtonMultiMelody {
    pub closed spec fn button_device(&self) -> Seq<char> {
        self.button_device@
    }

    pub closed spec fn button_notes(&self) -> Seq<u8> {
        self.button_notes@
    }

    pub closed spec fn melodies(&self) -> Map<i8, Seq<i8>> {
        melodies_view(self.notes_by_base_note@)
    }

    pub closed spec fn base_note(&self) -> i8 {
        self.base_note
    }

    pub closed spec fn notes_index(&self) -> nat {
        self.notes_index as nat
    }

    pub closed spec fn output_device(&self) -> Seq<char> {
        self.output_device@
    }

    pub closed spec fn current_note(&self) -> Option<u8> {
        self.current_note
    }

    pub closed spec fn reset_duration(&self) -> u64 {
        self.reset_duration
    }

    pub closed spec fn last_timestamp(&self) -> u64 {
        self.last_timestamp
    }

    /// `reset_duration` and `now` are in nanoseconds.
    pub fn new(
        button_device: &str,
        button_notes: Vec<u8>,
        output_device: &str,
        notes_by_base_note: HashMap<i8, Vec<i8>>,
        base_note: i8,
        reset_duration: u64,
        now: u64,
    ) -> (b: ButtonMultiMelody)
        ensures
            b.inv(),
            b.button_device() == button_device@,
            b.button_notes() == button_notes@,
            b.output_device() == output_device@,
            b.melodies() == melodies_view(notes_by_base_note@),
            b.base_note() == base_note,
            b.reset_duration() == reset_duration,
            b.notes_index() == 0,
            b.current_note() == None::<u8>,
            b.last_timestamp() == now,
    {
        ButtonMultiMelody {
            button_device: string_of(button_device),
            button_notes,
            output_device: string_of(output_device),
            notes_by_base_note,
            base_note,
            reset_duration,
            notes_index: 0,
            current_note: None,
            last_timestamp: now,
        }
    }

    pub closed spec fn is_button(&self, device: Seq<char>, m: MidiMessage) -> bool {
        &&& contains_chars(device, self.button_device@)
        &&& is_note_on_spec(m) || is_note_off_spec(m)
        &&& self.button_notes@.contains(m.data1)
    }

    /// The index the melody continues from at `now`.
    pub closed spec fn index_at(&self, now: u64) -> int {
        if elapsed(self.last_timestamp, now) > self.reset_duration {
            0
        } else {
            self.notes_index as int
        }
    }

    closed spec fn stopped(&self) -> (Self, Seq<OutputEventView>) {
        match self.current_note {
            Some(c) => (
                ButtonMultiMelody { current_note: None, ..*self },
                seq![shown(self.output_device@, note_off_message(c))],
            ),
            None => (*self, Seq::empty()),
        }
    }

    fn stop_current(&mut self) -> (out: Vec<OutputEvent>)
        ensures
            (*final(self), out.deep_view()) == old(self).stopped(),
    {
        let mut out: Vec<OutputEvent> = Vec::new();
        if let Some(current_note) = self.current_note {
            out.push(play_note_off(self.output_device.as_str(), current_note));
            self.current_note = None;
        }
        proof {
            assert(out.deep_view() =~= old(self).stopped().1);
        }
        out
    }
}

impl ButtonMultiMelody {
    /// Whether the melody with `base_note` as its base note could handle
    /// the event.
    fn can_handle_with_base(&self, base_note: i8, device: &str, midi_message: MidiMessage, now: u64) -> (b: bool)
        requires
            self.inv(),
        ensures
            b == (ButtonMultiMelody { base_note, ..*self }).event_ok(device@, midi_message, now),
    {
        broadcast use vstd::std_specs::hash::group_hash_axioms;
        let is_button = name_contains(device, self.button_device.as_str())
            && (is_note_on(midi_message) || is_note_off(midi_message))
            && byte_in(self.button_notes.as_slice(), midi_message.data1);
        if !is_button || !is_note_on(midi_message) {
            return true;
        }
        match self.notes_by_base_note.get(&base_note) {
            Some(notes) => {
                let n = notes.len();
                if n == 0 {
                    return false;
                }
                let index = if elapsed_since(self.last_timestamp, now) > self.reset_duration { 0 } else { self.notes_index };
                let sum = notes[index % n] as i16 + base_note as i16;
                -128 <= sum && sum <= 127
            },
            None => true,
        }
    }
}

impl Effect for ButtonMultiMelody {
    closed spec fn inv(&self) -> bool {
        self.notes_index < usize::MAX
    }

    /// A press can be played: the melody of the base note, if there is one,
    /// has a note, and adding the base note to it stays in the range of `i8`.
    closed spec fn event_ok(&self, device: Seq<char>, m: MidiMessage, now: u64) -> bool {
        (self.is_button(device, m) && is_note_on_spec(m) && self.notes_by_base_note@.contains_key(self.base_note)) ==> {
            let notes = self.notes_by_base_note@[self.base_note]@;
            &&& notes.len() > 0
            &&& in_i8(notes[self.index_at(now) % (notes.len() as int)] + self.base_note)
        }
    }

    /// Like a button melody, with the melody of the current base note; a
    /// press for a base note without a melody plays nothing.
    closed spec fn on_event(&self, device: Seq<char>, m: MidiMessage, now: u64) -> (Self, Seq<OutputEventView>) {
        if !self.is_button(device, m) {
            (*self, Seq::empty())
        } else {
            let index = self.index_at(now);
            let stamped = ButtonMultiMelody { notes_index: index as usize, last_timestamp: now, ..*self };
            if is_note_on_spec(m) {
                if self.notes_by_base_note@.contains_key(self.base_note) {
                    let notes = self.notes_by_base_note@[self.base_note]@;
                    let played = note_byte(notes[index % (notes.len() as int)] + self.base_note);
                    (
                        ButtonMultiMelody {
                            notes_index: ((index + 1) % (notes.len() as int)) as usize,
                            last_timestamp: now,
                            current_note: Some(played),
                            ..*self
                        },
                        seq![shown(self.output_device@, note_on_message(played, m.data2))],
                    )
                } else {
                    (stamped, Seq::empty())
                }
            } else {
                stamped.stopped()
            }
        }
    }

    open spec fn start_ok(&self, m: MidiMessage, now: u64) -> bool {
        true
    }

    open spec fn on_start(&self, m: MidiMessage, now: u64) -> (Self, StartOutcomeView) {
        (*self, nothing_started())
    }

    closed spec fn on_stop(&self) -> (Self, Seq<OutputEventView>) {
        self.stopped()
    }

    open spec fn running(&self) -> bool {
        false
    }

    open spec fn group(&self) -> MonoGroup {
        MonoGroup::Ungrouped
    }

    proof fn lemma_event_keeps_mode(&self, device: Seq<char>, m: MidiMessage, now: u64) {
        if self.notes_by_base_note@.contains_key(self.base_note) {
            let notes = self.notes_by_base_note@[self.base_note];
            assert(notes.len() == notes@.len());
        }
    }

    proof fn lemma_stop_halts(&self) {
    }

    proof fn lemma_start_keeps_group(&self, m: MidiMessage, now: u64) {
    }

    fn can_handle(&self, device: &str, midi_message: MidiMessage, now: u64) -> (b: bool) {
        self.can_handle_with_base(self.base_note, device, midi_message, now)
    }

    fn can_start(&self, midi_message: MidiMessage, now: u64) -> (b: bool) {
        true
    }

    fn on_midi_event(&mut self, device: &str, midi_message: MidiMessage, now: u64) -> (out: Vec<OutputEvent>) {
        broadcast use vstd::std_specs::hash::group_hash_axioms;
        let ghost before = *self;
        let is_button = name_contains(device, self.button_device.as_str())
            && (is_note_on(midi_message) || is_note_off(midi_message))
            && byte_in(self.button_notes.as_slice(), midi_message.data1);
        if !is_button {
            return no_events();
        }
        let duration_since_last_event = elapsed_since(self.last_timestamp, now);
        self.last_timestamp = now;
        if duration_since_last_event > self.reset_duration {
            self.notes_index = 0;
        }
        if is_note_on(midi_message) {
            let mut out: Vec<OutputEvent> = Vec::new();
            match self.notes_by_base_note.get(&self.base_note) {
                Some(notes) => {
                    let n = notes.len();
                    let played_note = notes[self.notes_index % n];
                    self.notes_index = (self.notes_index + 1) % n;
                    let final_played_note = melody_note(played_note, self.base_note);
                    out.push(play_note_on(self.output_device.as_str(), final_played_note, midi_message.data2));
                    self.current_note = Some(final_played_note);
                },
                None => {},
            }
            proof {
                assert(out.deep_view() =~= before.on_event(device@, midi_message, now).1);
            }
            out
        } else {
            self.stop_current()
        }
    }

    fn start(&mut self, midi_message: MidiMessage, now: u64) -> (out: StartOutcome) {
        start_nothing()
    }

    fn stop(&mut self) -> (out: Vec<OutputEvent>) {
        self.stop_current()
    }

    fn is_running(&self) -> (b: bool) {
        false
    }

    fn mono_group(&self) -> (g: MonoGroup) {
        MonoGroup::Ungrouped
    }
}

impl HasBaseNote for ButtonMultiMelody {
    closed spec fn with_base_note(&self, base_note: i8) -> Self {
        ButtonMultiMelody { base_note, ..*self }
    }

    fn can_handle_prepared(&self, stop: bool, base_note: Option<i8>, device: &str, midi_message: MidiMessage, now: u64) -> (b: bool) {
        let base = match base_note {
            Some(b) => b,
            None => self.base_note,
        };
        self.can_handle_with_base(base, device, midi_message, now)
    }

    fn set_base_note(&mut self, base_note: i8) {
        self.base_note = base_note;
    }

    proof fn lemma_base_note_keeps_mode(&self, base_note: i8) {
    }
}

/// The button melodies of a harmony melody, in order.
pub enum MelodyChain<T> {
    Empty,
    Link(T, Box<MelodyChain<T>>),
}

impl<T> MelodyChain<T> {
    pub open spec fn melodies(&self) -> Seq<T>
        decreases self,
    {
        match self {
            MelodyChain::Empty => Seq::empty(),
            MelodyChain::Link(first, rest) => seq![*first] + rest.melodies(),
        }
    }

    /// The chain of the melodies of `v`, in the same order.
    pub fn from_vec(v: Vec<T>) -> (c: MelodyChain<T>)
        ensures
            c.melodies() == v@,
    {
        let mut v = v;
        let ghost all = v@;
        let mut chain = MelodyChain::Empty;
        while v.len() > 0
            invariant
                all == v@ + chain.melodies(),
            decreases v@.len(),
        {
            let last = v.pop().unwrap();
            chain = MelodyChain::Link(last, Box::new(chain));
            assert(all =~= v@ + chain.melodies());
        }
        assert(all =~= chain.melodies());
        chain
    }
}

impl<T: HasBaseNote> MelodyChain<T> {
    pub open spec fn all_inv(&self) -> bool
        decreases self,
    {
        match self {
            MelodyChain::Empty => true,
            MelodyChain::Link(first, rest) => first.inv() && rest.all_inv(),
        }
    }

    pub open spec fn all_event_ok(&self, device: Seq<char>, m: MidiMessage, now: u64) -> bool
        decreases self,
    {
        match self {
            MelodyChain::Empty => true,
            MelodyChain::Link(first, rest) => first.event_ok(device, m, now) && rest.all_event_ok(device, m, now),
        }
    }

    /// Every melody stopped, and the events of the stops in order.
    pub open spec fn stopped(&self) -> (MelodyChain<T>, Seq<OutputEventView>)
        decreases self,
    {
        match self {
            MelodyChain::Empty => (MelodyChain::Empty, Seq::empty()),
            MelodyChain::Link(first, rest) => {
                let (s, out) = first.on_stop();
                let (r, outs) = rest.stopped();
                (MelodyChain::Link(s, Box::new(r)), out + outs)
            },
        }
    }

    /// Every melody with `base_note` as its base note.
    pub open spec fn rebased(&self, base_note: i8) -> MelodyChain<T>
        decreases self,
    {
        match self {
            MelodyChain::Empty => MelodyChain::Empty,
            MelodyChain::Link(first, rest) => MelodyChain::Link(first.with_base_note(base_note), Box::new(rest.rebased(base_note))),
        }
    }

    /// Every melody after the event, and the events it sent in order.
    pub open spec fn evented(&self, device: Seq<char>, m: MidiMessage, now: u64) -> (MelodyChain<T>, Seq<OutputEventView>)
        decreases self,
    {
        match self {
            MelodyChain::Empty => (MelodyChain::Empty, Seq::empty()),
            MelodyChain::Link(first, rest) => {
                let (s, out) = first.on_event(device, m, now);
                let (r, outs) = rest.evented(device, m, now);
                (MelodyChain::Link(s, Box::new(r)), out + outs)
            },
        }
    }

    /// Every melody prepared for an event: stopped if `stop`, with the base
    /// note `base_note` if there is one.
    pub open spec fn prepared_chain(&self, stop: bool, base_note: Option<i8>) -> MelodyChain<T>
        decreases self,
    {
        match self {
            MelodyChain::Empty => MelodyChain::Empty,
            MelodyChain::Link(first, rest) => MelodyChain::Link(prepare(*first, stop, base_note), Box::new(rest.prepared_chain(stop, base_note))),
        }
    }

    fn can_handle_all(&self, stop: bool, base_note: Option<i8>, device: &str, midi_message: MidiMessage, now: u64) -> (b: bool)
        requires
            self.all_inv(),
        ensures
            b == self.prepared_chain(stop, base_note).all_event_ok(device@, midi_message, now),
        decreases self,
    {
        match self {
            MelodyChain::Empty => true,
            MelodyChain::Link(first, rest) => {
                first.can_handle_prepared(stop, base_note, device, midi_message, now)
                    && rest.can_handle_all(stop, base_note, device, midi_message, now)
            },
        }
    }

    fn stop_all(self) -> (r: (MelodyChain<T>, Vec<OutputEvent>))
        requires
            self.all_inv(),
        ensures
            r.0.all_inv(),
            (r.0, r.1.deep_view()) == self.stopped(),
        decreases self,
    {
        match self {
            MelodyChain::Empty => (MelodyChain::Empty, no_events()),
            MelodyChain::Link(first, rest) => {
                let mut first = first;
                let mut out = first.stop();
                let (r, mut outs) = (*rest).stop_all();
                let ghost o1 = out.deep_view();
                let ghost o2 = outs.deep_view();
                out.append(&mut outs);
                assert(out.deep_view() =~= o1 + o2);
                (MelodyChain::Link(first, Box::new(r)), out)
            },
        }
    }

    fn rebase_all(self, base_note: i8) -> (r: MelodyChain<T>)
        requires
            self.all_inv(),
        ensures
            r.all_inv(),
            r == self.rebased(base_note),
        decreases self,
    {
        match self {
            MelodyChain::Empty => MelodyChain::Empty,
            MelodyChain::Link(first, rest) => {
                let mut first = first;
                first.set_base_note(base_note);
                MelodyChain::Link(first, Box::new((*rest).rebase_all(base_note)))
            },
        }
    }

    fn event_all(self, device: &str, midi_message: MidiMessage, now: u64) -> (r: (MelodyChain<T>, Vec<OutputEvent>))
        requires
            self.all_inv(),
            self.all_event_ok(device@, midi_message, now),
        ensures
            r.0.all_inv(),
            (r.0, r.1.deep_view()) == self.evented(device@, midi_message, now),
        decreases self,
    {
        match self {
            MelodyChain::Empty => (MelodyChain::Empty, no_events()),
            MelodyChain::Link(first, rest) => {
                let mut first = first;
                let mut out = first.on_midi_event(device, midi_message, now);
                let (r, mut outs) = (*rest).event_all(device, midi_message, now);
                let ghost o1 = out.deep_view();
                let ghost o2 = outs.deep_view();
                out.append(&mut outs);
                assert(out.deep_view() =~= o1 + o2);
                (MelodyChain::Link(first, Box::new(r)), out)
            },
        }
    }
}

/// Every button message stamps a multi-melody with its time, whether or not
/// a pause longer than the reset time came before it; other messages change
/// nothing.
pub proof fn lemma_multi_melody_stamps(b: ButtonMultiMelody, device: Seq<char>, m: MidiMessage, now: u64)
    ensures
        b.is_button(device, m) ==> b.on_event(device, m, now).0.last_timestamp() == now,
        !b.is_button(device, m) ==> b.on_event(device, m, now) == (b, Seq::<OutputEventView>::empty()),
        b.on_event(device, m, now).0.same_multi(b),
{
}

/// Two presses of a multi-melody's buttons, the second within the reset
/// time of the first, play consecutive notes of the melody of its base
/// note: the second press plays the note after the one the first played,
/// whatever pause came before the first.
pub proof fn lemma_multi_melody_consecutive(
    b: ButtonMultiMelody,
    d1: Seq<char>,
    m1: MidiMessage,
    t1: u64,
    d2: Seq<char>,
    m2: MidiMessage,
    t2: u64,
)
    requires
        b.inv(),
        b.is_button(d1, m1),
        is_note_on_spec(m1),
        b.is_button(d2, m2),
        is_note_on_spec(m2),
        b.melodies().contains_key(b.base_note()),
        b.melodies()[b.base_note()].len() > 0,
        elapsed(t1, t2) <= b.reset_duration(),
    ensures
        ({
            let notes = b.melodies()[b.base_note()];
            let n = notes.len() as int;
            let i1: int = if elapsed(b.last_timestamp(), t1) > b.reset_duration() { 0 } else { b.notes_index() as int };
            let first = b.on_event(d1, m1, t1);
            &&& first.1 == seq![shown(b.output_device(), note_on_message(note_byte(notes[i1 % n] + b.base_note()), m1.data2))]
            &&& first.0.on_event(d2, m2, t2).1
                == seq![shown(b.output_device(), note_on_message(note_byte(notes[(i1 + 1) % n] + b.base_note()), m2.data2))]
        }),
{
    let notes = b.melodies()[b.base_note()];
    let n = notes.len() as int;
    let i1: int = if elapsed(b.last_timestamp(), t1) > b.reset_duration() { 0 } else { b.notes_index() as int };
    let c = b.on_event(d1, m1, t1).0;
    assert(c.notes_by_base_note == b.notes_by_base_note);
    assert(c.is_button(d2, m2));
    vstd::std_specs::vec::axiom_spec_len(&b.notes_by_base_note@[b.base_note]);
    assert(b.index_at(t1) == i1);
    assert(c.last_timestamp == t1);
    vstd::arithmetic::div_mod::lemma_mod_bound(i1 + 1, n);
    vstd::arithmetic::div_mod::lemma_small_mod(((i1 + 1) % n) as nat, n as nat);
    assert(c.index_at(t2) == (i1 + 1) % n);
}

/// The multi-melody after the events `es`, in order.
pub open spec fn multi_after(b: ButtonMultiMelody, es: Seq<TimedEvent>) -> ButtonMultiMelody
    decreases es.len(),
{
    if es.len() == 0 {
        b
    } else {
        multi_after(b, es.drop_last()).on_event(es.last().0, es.last().1, es.last().2).0
    }
}

/// Every event presses or releases a button of the multi-melody, each
/// within the reset time of the one before (the first within the reset time
/// of its last event).
pub open spec fn steady_multi_presses(b: ButtonMultiMelody, es: Seq<TimedEvent>) -> bool {
    forall|i: int| 0 <= i < es.len() ==> {
        &&& b.is_button(#[trigger] es[i].0, es[i].1)
        &&& elapsed(if i == 0 { b.last_timestamp() } else { es[i - 1].2 }, es[i].2) <= b.reset_duration()
    }
}

impl ButtonMultiMelody {
    /// The two multi-melodies differ at most in where they are, when they
    /// last heard a button and which note sounds.
    pub closed spec fn same_multi(&self, other: ButtonMultiMelody) -> bool {
        &&& self.button_device == other.button_device
        &&& self.button_notes == other.button_notes
        &&& self.notes_by_base_note == other.notes_by_base_note
        &&& self.base_note == other.base_note
        &&& self.output_device == other.output_device
        &&& self.reset_duration == other.reset_duration
    }
}

/// With its base note unchanged and its buttons pressed without a pause
/// longer than the reset time, a multi-melody from its first note plays the
/// melody of its base note cyclically: the `j`-th press (from zero) plays
/// note `j` modulo the melody's length, moved by the base note. Without a
/// melody for the base note, no event sends anything.
pub proof fn lemma_multi_melody_cycles(b: ButtonMultiMelody, es: Seq<TimedEvent>)
    requires
        b.inv(),
        b.notes_index() == 0,
        b.current_note() is None,
        b.melodies().contains_key(b.base_note()) ==> b.melodies()[b.base_note()].len() > 0,
        steady_multi_presses(b, es),
    ensures
        multi_after(b, es).inv(),
        multi_after(b, es).same_multi(b),
        multi_after(b, es).base_note() == b.base_note(),
        multi_after(b, es).melodies() == b.melodies(),
        multi_after(b, es).last_timestamp() == (if es.len() == 0 { b.last_timestamp() } else { es.last().2 }),
        b.melodies().contains_key(b.base_note()) ==>
            multi_after(b, es).notes_index() == press_count(es) % b.melodies()[b.base_note()].len(),
        b.melodies().contains_key(b.base_note()) && es.len() > 0 && is_note_on_spec(es.last().1) ==>
            multi_after(b, es.drop_last()).on_event(es.last().0, es.last().1, es.last().2).1
            == seq![shown(b.output_device(), note_on_message(
                note_byte(b.melodies()[b.base_note()][((press_count(es) - 1) % (b.melodies()[b.base_note()].len() as int))] + b.base_note()),
                es.last().1.data2,
            ))],
        !b.melodies().contains_key(b.base_note()) ==> multi_after(b, es).current_note() is None,
        !b.melodies().contains_key(b.base_note()) && es.len() > 0 ==>
            multi_after(b, es.drop_last()).on_event(es.last().0, es.last().1, es.last().2).1 == Seq::<OutputEventView>::empty(),
    decreases es.len(),
{
    let has = b.melodies().contains_key(b.base_note());
    if es.len() == 0 {
        if has {
            vstd::arithmetic::div_mod::lemma_small_mod(0, b.melodies()[b.base_note()].len());
        }
    } else {
        let p = es.drop_last();
        assert forall|i: int| 0 <= i < p.len() implies {
            &&& b.is_button(#[trigger] p[i].0, p[i].1)
            &&& elapsed(if i == 0 { b.last_timestamp() } else { p[i - 1].2 }, p[i].2) <= b.reset_duration()
        } by {
            assert(p[i] == es[i]);
            assert(b.is_button(es[i].0, es[i].1));
            if i > 0 {
                assert(p[i - 1] == es[i - 1]);
            }
        }
        lemma_multi_melody_cycles(b, p);
        let c = multi_after(b, p);
        let k = es.len() - 1;
        assert(es[k] == es.last());
        assert(b.is_button(es[k].0, es[k].1));
        if k > 0 {
            assert(es[k - 1] == p.last());
        }
        assert(c.is_button(es.last().0, es.last().1));
        assert(c.index_at(es.last().2) == c.notes_index);
        if has {
            let n = b.melodies()[b.base_note()].len();
            assert(c.notes_by_base_note@.contains_key(c.base_note));
            vstd::std_specs::vec::axiom_spec_len(&c.notes_by_base_note@[c.base_note]);
            assert(c.notes_by_base_note@[c.base_note]@ == b.melodies()[b.base_note()]);
            let cnt = press_count(p);
            vstd::arithmetic::div_mod::lemma_mod_bound(cnt as int, n as int);
            vstd::arithmetic::div_mod::lemma_small_mod((cnt as int % n as int) as nat, n);
            if is_note_on_spec(es.last().1) {
                vstd::arithmetic::div_mod::lemma_add_mod_noop(cnt as int, 1, n as int);
                if n == 1 {
                    assert((cnt + 1) % 1 == 0) by (nonlinear_arith);
                    assert(cnt % 1 == 0) by (nonlinear_arith);
                } else {
                    vstd::arithmetic::div_mod::lemma_small_mod(1, n);
                    if (cnt as int) % (n as int) + 1 < n {
                        vstd::arithmetic::div_mod::lemma_small_mod(((cnt as int) % (n as int) + 1) as nat, n);
                    } else {
                        vstd::arithmetic::div_mod::lemma_mod_self_0(n as int);
                    }
                }
            }
        } else {
            assert(!c.notes_by_base_note@.contains_key(c.base_note));
        }
    }
}

/// Every melody of a chain handles the event: the chain's melodies are
/// moved, in order, to their states after the event, and the chain sends
/// what each melody sends, one melody after the other.
pub proof fn lemma_evented_all<T: HasBaseNote>(c: MelodyChain<T>, device: Seq<char>, m: MidiMessage, now: u64)
    ensures
        c.evented(device, m, now).0.melodies()
            == Seq::new(c.melodies().len(), |i: int| c.melodies()[i].on_event(device, m, now).0),
        c.evented(device, m, now).1
            == Seq::new(c.melodies().len(), |i: int| c.melodies()[i].on_event(device, m, now).1).flatten(),
    decreases c,
{
    if let MelodyChain::Link(first, rest) = c {
        lemma_evented_all(*rest, device, m, now);
        let outs = Seq::new(c.melodies().len(), |i: int| c.melodies()[i].on_event(device, m, now).1);
        let rest_outs = Seq::new(rest.melodies().len(), |i: int| rest.melodies()[i].on_event(device, m, now).1);
        assert(outs.drop_first() =~= rest_outs);
        assert(outs.first() == first.on_event(device, m, now).1);
        assert(c.evented(device, m, now).0.melodies()
            =~= Seq::new(c.melodies().len(), |i: int| c.melodies()[i].on_event(device, m, now).0));
    } else {
        assert(c.evented(device, m, now).0.melodies()
            =~= Seq::new(c.melodies().len(), |i: int| c.melodies()[i].on_event(device, m, now).0));
    }
}

/// Every melody of a chain stops: the chain's melodies are moved, in order,
/// to their stopped states, and the chain sends what each melody's stop
/// sends, one melody after the other.
pub proof fn lemma_stopped_all<T: HasBaseNote>(c: MelodyChain<T>)
    ensures
        c.stopped().0.melodies() == Seq::new(c.melodies().len(), |i: int| c.melodies()[i].on_stop().0),
        c.stopped().1 == Seq::new(c.melodies().len(), |i: int| c.melodies()[i].on_stop().1).flatten(),
    decreases c,
{
    if let MelodyChain::Link(first, rest) = c {
        lemma_stopped_all(*rest);
        let outs = Seq::new(c.melodies().len(), |i: int| c.melodies()[i].on_stop().1);
        let rest_outs = Seq::new(rest.melodies().len(), |i: int| rest.melodies()[i].on_stop().1);
        assert(outs.drop_first() =~= rest_outs);
        assert(c.stopped().0.melodies() =~= Seq::new(c.melodies().len(), |i: int| c.melodies()[i].on_stop().0));
    } else {
        assert(c.stopped().0.melodies() =~= Seq::new(c.melodies().len(), |i: int| c.melodies()[i].on_stop().0));
    }
}

/// Rebasing a chain gives every melody the base note, in order.
pub proof fn lemma_rebased_all<T: HasBaseNote>(c: MelodyChain<T>, base_note: i8)
    ensures
        c.rebased(base_note).melodies() == Seq::new(c.melodies().len(), |i: int| c.melodies()[i].with_base_note(base_note)),
    decreases c,
{
    if let MelodyChain::Link(first, rest) = c {
        lemma_rebased_all(*rest, base_note);
    }
    assert(c.rebased(base_note).melodies() =~= Seq::new(c.melodies().len(), |i: int| c.melodies()[i].with_base_note(base_note)));
}

/// A chain whose melodies all keep their invariant keeps it as a whole.
pub proof fn lemma_chain_all_inv<T: HasBaseNote>(c: MelodyChain<T>)
    requires
        forall|i: int| 0 <= i < c.melodies().len() ==> #[trigger] c.melodies()[i].inv(),
    ensures
        c.all_inv(),
    decreases c,
{
    if let MelodyChain::Link(first, rest) = c {
        assert(c.melodies()[0] == first);
        assert forall|i: int| 0 <= i < rest.melodies().len() implies #[trigger] rest.melodies()[i].inv() by {
            assert(c.melodies()[i + 1] == rest.melodies()[i]);
        }
        lemma_chain_all_inv(*rest);
    }
}

/// Button melodies whose base note follows a harmony input: a note of the
/// harmony input becomes the base note of all melodies and activates them;
/// a stop signal stops them and deactivates them.
pub struct HarmonyButtonMelody<T: HasBaseNote> {
    pub harmony_input_filter: MidiFilter,
    pub stop_signal_filter: Option<MidiFilter>,
    pub button_melodies: MelodyChain<T>,
    pub active: bool,
}

impl<T: HasBaseNote> HarmonyButtonMelody<T> {
    pub fn new(
        harmony_input_filter: MidiFilter,
        stop_signal_filter: Option<MidiFilter>,
        button_melodies: Vec<T>,
        active: bool,
    ) -> (h: Self)
        ensures
            h.harmony_input_filter == harmony_input_filter,
            h.stop_signal_filter == stop_signal_filter,
            h.button_melodies.melodies() == button_melodies@,
            h.active == active,
    {
        HarmonyButtonMelody {
            harmony_input_filter,
            stop_signal_filter,
            button_melodies: MelodyChain::from_vec(button_melodies),
            active,
        }
    }

    pub open spec fn stop_hit(&self, device: Seq<char>, m: MidiMessage) -> bool {
        match self.stop_signal_filter {
            Some(f) => filter_matches(f@, device, m),
            None => false,
        }
    }

    /// The melodies after the stop signal and the harmony input of `m`.
    pub open spec fn prepared(&self, device: Seq<char>, m: MidiMessage) -> MelodyChain<T> {
        let stopped = if self.stop_hit(device, m) { self.button_melodies.stopped().0 } else { self.button_melodies };
        if filter_matches(self.harmony_input_filter@, device, m) {
            stopped.rebased(m.data1 as i8)
        } else {
            stopped
        }
    }

    pub open spec fn active_after(&self, device: Seq<char>, m: MidiMessage) -> bool {
        filter_matches(self.harmony_input_filter@, device, m) || (!self.stop_hit(device, m) && self.active)
    }
}

proof fn lemma_prepared_chain<T: HasBaseNote>(c: MelodyChain<T>, stop: bool, base_note: Option<i8>)
    ensures
        c.prepared_chain(stop, base_note) == ({
            let s = if stop { c.stopped().0 } else { c };
            match base_note {
                Some(b) => s.rebased(b),
                None => s,
            }
        }),
    decreases c,
{
    if let MelodyChain::Link(first, rest) = c {
        lemma_prepared_chain(*rest, stop, base_note);
    }
}

proof fn lemma_stopped_keeps_inv<T: HasBaseNote>(c: MelodyChain<T>)
    requires
        c.all_inv(),
    ensures
        c.stopped().0.all_inv(),
    decreases c,
{
    if let MelodyChain::Link(first, rest) = c {
        first.lemma_stop_halts();
        lemma_stopped_keeps_inv(*rest);
        let (s, out) = first.on_stop();
        let (r, outs) = rest.stopped();
        assert(c.stopped().0 == MelodyChain::Link(s, Box::new(r)));
    }
}

proof fn lemma_rebased_keeps_inv<T: HasBaseNote>(c: MelodyChain<T>, b: i8)
    requires
        c.all_inv(),
    ensures
        c.rebased(b).all_inv(),
    decreases c,
{
    match c {
        MelodyChain::Empty => {},
        MelodyChain::Link(first, rest) => {
            first.lemma_base_note_keeps_mode(b);
            lemma_rebased_keeps_inv(*rest, b);
        },
    }
}

proof fn lemma_evented_keeps_inv<T: HasBaseNote>(c: MelodyChain<T>, device: Seq<char>, m: MidiMessage, now: u64)
    requires
        c.all_inv(),
        c.all_event_ok(device, m, now),
    ensures
        c.evented(device, m, now).0.all_inv(),
    decreases c,
{
    if let MelodyChain::Link(first, rest) = c {
        first.lemma_event_keeps_mode(device, m, now);
        lemma_evented_keeps_inv(*rest, device, m, now);
    }
}

impl<T: HasBaseNote> Effect for HarmonyButtonMelody<T> {
    open spec fn inv(&self) -> bool {
        self.button_melodies.all_inv()
    }

    /// The active melodies can handle the event.
    open spec fn event_ok(&self, device: Seq<char>, m: MidiMessage, now: u64) -> bool {
        self.active_after(device, m) ==> self.prepared(device, m).all_event_ok(device, m, now)
    }

    /// A stop signal stops all melodies and deactivates them; a harmony
    /// input sets the base note of all melodies to its note and activates
    /// them; active melodies then handle the event in order.
    open spec fn on_event(&self, device: Seq<char>, m: MidiMessage, now: u64) -> (Self, Seq<OutputEventView>) {
        let stop_events = if self.stop_hit(device, m) { self.button_melodies.stopped().1 } else { Seq::empty() };
        let prepared = self.prepared(device, m);
        let active = self.active_after(device, m);
        let (melodies, events) = if active { prepared.evented(device, m, now) } else { (prepared, Seq::empty()) };
        (
            HarmonyButtonMelody {
                harmony_input_filter: self.harmony_input_filter,
                stop_signal_filter: self.stop_signal_filter,
                button_melodies: melodies,
                active,
            },
            stop_events + events,
        )
    }

    open spec fn start_ok(&self, m: MidiMessage, now: u64) -> bool {
        true
    }

    open spec fn on_start(&self, m: MidiMessage, now: u64) -> (Self, StartOutcomeView) {
        (*self, nothing_started())
    }

    open spec fn on_stop(&self) -> (Self, Seq<OutputEventView>) {
        (*self, Seq::empty())
    }

    open spec fn running(&self) -> bool {
        false
    }

    open spec fn group(&self) -> MonoGroup {
        MonoGroup::Ungrouped
    }

    proof fn lemma_event_keeps_mode(&self, device: Seq<char>, m: MidiMessage, now: u64) {
        if self.stop_hit(device, m) {
            lemma_stopped_keeps_inv(self.button_melodies);
        }
        if filter_matches(self.harmony_input_filter@, device, m) {
            let stopped = if self.stop_hit(device, m) { self.button_melodies.stopped().0 } else { self.button_melodies };
            lemma_rebased_keeps_inv(stopped, m.data1 as i8);
        }
        if self.active_after(device, m) {
            lemma_evented_keeps_inv(self.prepared(device, m), device, m, now);
        }
    }

    proof fn lemma_stop_halts(&self) {
    }

    proof fn lemma_start_keeps_group(&self, m: MidiMessage, now: u64) {
    }

    fn can_handle(&self, device: &str, midi_message: MidiMessage, now: u64) -> (b: bool) {
        let stop = match &self.stop_signal_filter {
            Some(f) => f.matches(device, midi_message),
            None => false,
        };
        let harmony = self.harmony_input_filter.matches(device, midi_message);
        let base_note = if harmony { Some(midi_message.data1 as i8) } else { None };
        let active = harmony || (!stop && self.active);
        proof {
            lemma_prepared_chain(self.button_melodies, stop, base_note);
        }
        !active || self.button_melodies.can_handle_all(stop, base_note, device, midi_message, now)
    }

    fn can_start(&self, midi_message: MidiMessage, now: u64) -> (b: bool) {
        true
    }

    fn on_midi_event(&mut self, device: &str, midi_message: MidiMessage, now: u64) -> (out: Vec<OutputEvent>) {
        let ghost before = *self;
        let stop = match &self.stop_signal_filter {
            Some(f) => f.matches(device, midi_message),
            None => false,
        };
        let mut melodies = MelodyChain::Empty;
        std::mem::swap(&mut melodies, &mut self.button_melodies);
        let mut out: Vec<OutputEvent> = Vec::new();
        if stop {
            let (stopped, stop_events) = melodies.stop_all();
            melodies = stopped;
            out = stop_events;
            self.active = false;
        }
        if self.harmony_input_filter.matches(device, midi_message) {
            proof {
                if stop {
                    lemma_stopped_keeps_inv(before.button_melodies);
                }
            }
            melodies = melodies.rebase_all(midi_message.data1 as i8);
            self.active = true;
        }
        assert(melodies == before.prepared(device@, midi_message));
        proof {
            if stop {
                lemma_stopped_keeps_inv(before.button_melodies);
            }
            if filter_matches(before.harmony_input_filter@, device@, midi_message) {
                let stopped = if stop { before.button_melodies.stopped().0 } else { before.button_melodies };
                lemma_rebased_keeps_inv(stopped, midi_message.data1 as i8);
            }
        }
        if self.active {
            let ghost o1 = out.deep_view();
            let (evented, mut events) = melodies.event_all(device, midi_message, now);
            melodies = evented;
            let ghost o2 = events.deep_view();
            out.append(&mut events);
            assert(out.deep_view() =~= o1 + o2);
        } else {
            assert(out.deep_view() =~= out.deep_view() + Seq::<OutputEventView>::empty());
        }
        self.button_melodies = melodies;
        proof {
            assert(out.deep_view() =~= before.on_event(device@, midi_message, now).1);
        }
        out
    }

    fn start(&mut self, midi_message: MidiMessage, now: u64) -> (out: StartOutcome) {
        start_nothing()
    }

    fn stop(&mut self) -> (out: Vec<OutputEvent>) {
        no_events()
    }

    fn is_running(&self) -> (b: bool) {
        false
    }

    fn mono_group(&self) -> (g: MonoGroup) {
        MonoGroup::Ungrouped
    }
}

/// The melody `x` of a harmony button melody after the stop signal (if it
/// came) and the harmony input (if it came, with its note as base note).
pub open spec fn prepared_melody<T: HasBaseNote>(x: T, stop: bool, harmony: bool, m: MidiMessage) -> T {
    let s = if stop { x.on_stop().0 } else { x };
    if harmony { s.with_base_note(m.data1 as i8) } else { s }
}

/// What an event does to a harmony button melody: a stop signal stops every
/// melody and sends their stop events; a harmony input gives every melody
/// its note as base note; then, if the harmony input came or it was active
/// and no stop signal came, every melody handles the event in order and
/// what they send follows the stop events, one melody after the other.
pub proof fn lemma_harmony_event<T: HasBaseNote>(h: HarmonyButtonMelody<T>, device: Seq<char>, m: MidiMessage, now: u64)
    ensures
        ({
            let stop = h.stop_hit(device, m);
            let harmony = filter_matches(h.harmony_input_filter@, device, m);
            let ms = h.button_melodies.melodies();
            let ps = Seq::new(ms.len(), |i: int| prepared_melody(ms[i], stop, harmony, m));
            let stop_events = if stop { Seq::new(ms.len(), |i: int| ms[i].on_stop().1).flatten() } else { Seq::empty() };
            let active = harmony || (!stop && h.active);
            let next = h.on_event(device, m, now);
            &&& next.0.active == active
            &&& next.0.harmony_input_filter == h.harmony_input_filter
            &&& next.0.stop_signal_filter == h.stop_signal_filter
            &&& active ==> {
                &&& next.0.button_melodies.melodies() == Seq::new(ms.len(), |i: int| ps[i].on_event(device, m, now).0)
                &&& next.1 == stop_events + Seq::new(ms.len(), |i: int| ps[i].on_event(device, m, now).1).flatten()
            }
            &&& !active ==> next.0.button_melodies.melodies() == ps && next.1 == stop_events
        }),
{
    let stop = h.stop_hit(device, m);
    let harmony = filter_matches(h.harmony_input_filter@, device, m);
    let c = h.button_melodies;
    let ms = c.melodies();
    let ps = Seq::new(ms.len(), |i: int| prepared_melody(ms[i], stop, harmony, m));
    lemma_stopped_all(c);
    let s = if stop { c.stopped().0 } else { c };
    assert(s.melodies() =~= Seq::new(ms.len(), |i: int| if stop { ms[i].on_stop().0 } else { ms[i] }));
    if harmony {
        lemma_rebased_all(s, m.data1 as i8);
    }
    let p = h.prepared(device, m);
    assert(p.melodies() =~= ps);
    lemma_evented_all(p, device, m, now);
    assert(Seq::new(p.melodies().len(), |i: int| p.melodies()[i].on_event(device, m, now).0)
        =~= Seq::new(ms.len(), |i: int| ps[i].on_event(device, m, now).0));
    assert(Seq::new(p.melodies().len(), |i: int| p.melodies()[i].on_event(device, m, now).1)
        =~= Seq::new(ms.len(), |i: int| ps[i].on_event(device, m, now).1));
    if !stop {
        assert(Seq::<OutputEventView>::empty() + h.on_event(device, m, now).1 == h.on_event(device, m, now).1);
    }
}

} // verus!
