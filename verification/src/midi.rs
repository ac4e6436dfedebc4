//! MIDI short messages, their classification, the messages the effects send,
//! and matching of device names.
use vstd::prelude::*;

verus! {

/// A MIDI short message: a status byte and two data bytes.
#[derive(Clone, Copy, Debug, PartialEq, Eq, Structural)]
pub struct MidiMessage {
    pub status: u8,
    pub data1: u8,
    pub data2: u8,
}

/// Status byte of a note-on message on the first channel.
pub const NOTE_ON_STATUS: u8 = 0x90;

/// Status byte of a note-off message on the first channel.
pub const NOTE_OFF_STATUS: u8 = 0x80;

/// Status byte of a control-change message on the first channel.
pub const CONTROL_CHANGE_STATUS: u8 = 0xB0;

/// Status byte of a pitch-wheel message on the first channel.
pub const PITCH_WHEEL_STATUS: u8 = 0xE0;

/// Velocity sent with every note-off.
pub const NOTE_OFF_VELOCITY: u8 = 0x40;

/// A note-on on the first channel, or a note-on with positive velocity on the
/// drum channel (status 0x99).
pub open spec fn is_note_on_spec(m: MidiMessage) -> bool {
    m.status == 0x90 || (m.status == 0x99 && m.data2 > 0)
}

/// A note-off on the first channel or on the drum channel.
pub open spec fn is_note_off_spec(m: MidiMessage) -> bool {
    m.status == 0x80 || m.status == 0x89
}

/// A control change on any channel.
pub open spec fn is_control_change_spec(m: MidiMessage) -> bool {
    0xB0 <= m.status && m.status <= 0xBF
}

pub fn is_note_on(midi_message: MidiMessage) -> (b: bool)
    ensures
        b == is_note_on_spec(midi_message),
{
    midi_message.status == 0x90 || (midi_message.status == 0x99 && midi_message.data2 > 0)
}

pub fn is_note_off(midi_message: MidiMessage) -> (b: bool)
    ensures
        b == is_note_off_spec(midi_message),
{
    midi_message.status == 0x80 || midi_message.status == 0x89
}

pub fn is_control_change(midi_message: MidiMessage) -> (b: bool)
    ensures
        b == is_control_change_spec(midi_message),
{
    0xB0 <= midi_message.status && midi_message.status <= 0xBF
}

pub open spec fn note_on_message(note: u8, velocity: u8) -> MidiMessage {
    MidiMessage { status: NOTE_ON_STATUS, data1: note, data2: velocity }
}

pub open spec fn note_off_message(note: u8) -> MidiMessage {
    MidiMessage { status: NOTE_OFF_STATUS, data1: note, data2: NOTE_OFF_VELOCITY }
}

pub open spec fn control_change_message(control_index: u8, value: u8) -> MidiMessage {
    MidiMessage { status: CONTROL_CHANGE_STATUS, data1: control_index, data2: value }
}

pub open spec fn pitch_wheel_message(lsb: u8, msb: u8) -> MidiMessage {
    MidiMessage { status: PITCH_WHEEL_STATUS, data1: lsb, data2: msb }
}

/// What the application sends: a message for the output whose device name
/// contains `output`, and whether the light strip also shows it.
pub struct OutputEvent {
    pub output: String,
    pub message: MidiMessage,
    pub visualize: bool,
}

/// The plain value of an [`OutputEvent`].
pub struct OutputEventView {
    pub output: Seq<char>,
    pub message: MidiMessage,
    pub visualize: bool,
}

impl View for OutputEvent {
    type V = OutputEventView;

    open spec fn view(&self) -> OutputEventView {
        OutputEventView { output: self.output@, message: self.message, visualize: self.visualize }
    }
}

impl DeepView for OutputEvent {
    type V = OutputEventView;

    open spec fn deep_view(&self) -> OutputEventView {
        self@
    }
}

pub open spec fn sent(output: Seq<char>, message: MidiMessage) -> OutputEventView {
    OutputEventView { output, message, visualize: false }
}

pub open spec fn shown(output: Seq<char>, message: MidiMessage) -> OutputEventView {
    OutputEventView { output, message, visualize: true }
}

/// The values of a sequence of output events.
pub open spec fn events_view(events: Seq<OutputEvent>) -> Seq<OutputEventView> {
    Seq::new(events.len(), |i: int| events[i]@)
}

pub fn copy_string(s: &String) -> (r: String)
    ensures
        r@ == s@,
{
    s.clone()
}

pub fn string_of(s: &str) -> (r: String)
    ensures
        r@ == s@,
{
    s.to_owned()
}

/// The message `m` sent as is to `output`.
pub fn send_midi(output_name: &str, m: MidiMessage) -> (e: OutputEvent)
    ensures
        e@ == sent(output_name@, m),
{
    OutputEvent { output: string_of(output_name), message: m, visualize: false }
}

/// A control change of `control_index` to `value`, sent to `output_name`.
pub fn control_change(output_name: &str, control_index: u8, value: u8) -> (e: OutputEvent)
    ensures
        e@ == sent(output_name@, control_change_message(control_index, value)),
{
    OutputEvent {
        output: string_of(output_name),
        message: MidiMessage { status: CONTROL_CHANGE_STATUS, data1: control_index, data2: value },
        visualize: false,
    }
}

/// A pitch-wheel message, sent to `output_name`.
pub fn pitch_wheel(output_name: &str, lsb: u8, msb: u8) -> (e: OutputEvent)
    ensures
        e@ == sent(output_name@, pitch_wheel_message(lsb, msb)),
{
    OutputEvent {
        output: string_of(output_name),
        message: MidiMessage { status: PITCH_WHEEL_STATUS, data1: lsb, data2: msb },
        visualize: false,
    }
}

/// A note-on, sent to `output_name` and shown on the light strip.
pub fn play_note_on(output_name: &str, note: u8, velocity: u8) -> (e: OutputEvent)
    ensures
        e@ == shown(output_name@, note_on_message(note, velocity)),
{
    OutputEvent {
        output: string_of(output_name),
        message: MidiMessage { status: NOTE_ON_STATUS, data1: note, data2: velocity },
        visualize: true,
    }
}

/// A note-off, sent to `output_name` and shown on the light strip.
pub fn play_note_off(output_name: &str, note: u8) -> (e: OutputEvent)
    ensures
        e@ == shown(output_name@, note_off_message(note)),
{
    OutputEvent {
        output: string_of(output_name),
        message: MidiMessage { status: NOTE_OFF_STATUS, data1: note, data2: NOTE_OFF_VELOCITY },
        visualize: true,
    }
}

pub fn no_events() -> (v: Vec<OutputEvent>)
    ensures
        v.deep_view() == Seq::<OutputEventView>::empty(),
{
    let v: Vec<OutputEvent> = Vec::new();
    assert(v.deep_view() =~= Seq::<OutputEventView>::empty());
    v
}

/// Whether `x` is one of `xs`.
pub fn byte_in(xs: &[u8], x: u8) -> (b: bool)
    ensures
        b == xs@.contains(x),
{
    let mut i: usize = 0;
    while i < xs.len()
        invariant
            i <= xs@.len(),
            forall|k: int| 0 <= k < i ==> xs@[k] != x,
        decreases xs@.len() - i,
    {
        if xs[i] == x {
            assert(xs@[i as int] == x);
            return true;
        }
        i = i + 1;
    }
    false
}

/// `needle` occurs in `hay` as a contiguous run of characters.
pub open spec fn contains_chars(hay: Seq<char>, needle: Seq<char>) -> bool {
    exists|i: int|
        0 <= i && i + needle.len() <= hay.len() && #[trigger] hay.subrange(i, i + needle.len())
            == needle
}

fn chars_of(s: &str) -> (v: Vec<char>)
    ensures
        v@ == s@,
{
    let n = s.unicode_len();
    let mut v: Vec<char> = Vec::new();
    let mut i: usize = 0;
    while i < n
        invariant
            n == s@.len(),
            i <= n,
            v@ == s@.subrange(0, i as int),
        decreases n - i,
    {
        let c = s.get_char(i);
        v.push(c);
        i = i + 1;
        assert(v@ =~= s@.subrange(0, i as int));
    }
    assert(v@ =~= s@);
    v
}

/// Whether two names are equal.
pub fn same_name(a: &str, b: &str) -> (r: bool)
    ensures
        r == (a@ == b@),
{
    let x = chars_of(a);
    let y = chars_of(b);
    if x.len() != y.len() {
        return false;
    }
    let mut i: usize = 0;
    while i < x.len()
        invariant
            x@ == a@,
            y@ == b@,
            x@.len() == y@.len(),
            i <= x@.len(),
            forall|k: int| 0 <= k < i ==> x@[k] == y@[k],
        decreases x@.len() - i,
    {
        if x[i] != y[i] {
            assert(x@[i as int] != y@[i as int]);
            return false;
        }
        i = i + 1;
    }
    assert(x@ =~= y@);
    true
}

fn matches_at(hay: &Vec<char>, needle: &Vec<char>, start: usize) -> (b: bool)
    requires
        start + needle@.len() <= hay@.len(),
    ensures
        b == (hay@.subrange(start as int, start + needle@.len()) == needle@),
{
    let hay_len = hay.len();
    let mut j: usize = 0;
    while j < needle.len()
        invariant
            hay_len == hay@.len(),
            start + needle@.len() <= hay@.len(),
            j <= needle@.len(),
            forall|k: int| 0 <= k < j ==> hay@[start + k] == needle@[k],
        decreases needle@.len() - j,
    {
        assert(start + j < hay@.len());
        if hay[start + j] != needle[j] {
            assert(hay@.subrange(start as int, start + needle@.len())[j as int] != needle@[j as int]);
            return false;
        }
        j = j + 1;
    }
    assert(hay@.subrange(start as int, start + needle@.len()) =~= needle@);
    true
}

/// Whether the device name `hay` contains `needle`, as `str::contains` decides it.
pub fn name_contains(hay: &str, needle: &str) -> (b: bool)
    ensures
        b == contains_chars(hay@, needle@),
{
    let h = chars_of(hay);
    let n = chars_of(needle);
    if n.len() > h.len() {
        return false;
    }
    let last = h.len() - n.len();
    let mut i: usize = 0;
    while i <= last
        invariant
            h@ == hay@,
            n@ == needle@,
            last == h@.len() - n@.len(),
            n@.len() <= h@.len(),
            i <= last,
            forall|k: int| 0 <= k < i ==> #[trigger] h@.subrange(k, k + n@.len()) != n@,
        ensures
            forall|k: int| 0 <= k <= last ==> #[trigger] h@.subrange(k, k + n@.len()) != n@,
        decreases last - i,
    {
        if matches_at(&h, &n, i) {
            return true;
        }
        if i == last {
            break;
        }
        i = i + 1;
    }
    proof {
        assert forall|k: int| 0 <= k && k + needle@.len() <= hay@.len() implies #[trigger]
            hay@.subrange(k, k + needle@.len()) != needle@ by {
            assert(k <= last);
        }
    }
    false
}

} // verus!
