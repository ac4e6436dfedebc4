//! Filters that select MIDI messages by device, kind and data range.
use vstd::prelude::*;
use crate::midi::{MidiMessage, is_note_on_spec, is_note_off_spec, is_control_change_spec, is_note_on, is_note_off, is_control_change, contains_chars, name_contains, string_of, copy_string};
use crate::utils::range_mapper::{ValueRange, ALL_REAL_NOTES};

verus! {

#[derive(Clone, Copy, Debug, PartialEq, Eq, Structural)]
pub enum FilterType {
    Note,
    NoteOn,
    Control(u8),
}

/// Selects the messages of devices whose name contains `device`, of the
/// kind `filter_type`, whose first data byte lies in `range`.
#[derive(Debug)]
pub struct MidiFilter {
    pub device: String,
    pub range: ValueRange,
    pub filter_type: FilterType,
}

/// The plain value of a [`MidiFilter`].
pub struct MidiFilterView {
    pub device: Seq<char>,
    pub range: ValueRange,
    pub filter_type: FilterType,
}

impl View for MidiFilter {
    type V = MidiFilterView;

    open spec fn view(&self) -> MidiFilterView {
        MidiFilterView { device: self.device@, range: self.range, filter_type: self.filter_type }
    }
}

pub open spec fn type_matches(filter_type: FilterType, m: MidiMessage) -> bool {
    match filter_type {
        FilterType::Note => is_note_on_spec(m) || is_note_off_spec(m),
        FilterType::NoteOn => is_note_on_spec(m),
        FilterType::Control(control) => is_control_change_spec(m) && m.data1 == control,
    }
}

pub open spec fn filter_matches(f: MidiFilterView, device: Seq<char>, m: MidiMessage) -> bool {
    &&& contains_chars(device, f.device)
    &&& type_matches(f.filter_type, m)
    &&& f.range.0 <= m.data1 <= f.range.1
}

impl MidiFilter {
    pub fn note(device: &str, note: u8) -> (f: Self)
        ensures
            f@ == (MidiFilterView { device: device@, range: (note, note), filter_type: FilterType::Note }),
    {
        MidiFilter { device: string_of(device), range: (note, note), filter_type: FilterType::Note }
    }

    pub fn notes(device: &str) -> (f: Self)
        ensures
            f@ == (MidiFilterView { device: device@, range: ALL_REAL_NOTES, filter_type: FilterType::Note }),
    {
        MidiFilter { device: string_of(device), range: ALL_REAL_NOTES, filter_type: FilterType::Note }
    }

    pub fn notes_on(device: &str) -> (f: Self)
        ensures
            f@ == (MidiFilterView { device: device@, range: ALL_REAL_NOTES, filter_type: FilterType::NoteOn }),
    {
        MidiFilter { device: string_of(device), range: ALL_REAL_NOTES, filter_type: FilterType::NoteOn }
    }

    pub fn control(device: &str, control: u8) -> (f: Self)
        ensures
            f@ == (MidiFilterView { device: device@, range: (0, 127), filter_type: FilterType::Control(control) }),
    {
        MidiFilter { device: string_of(device), range: (0, 127), filter_type: FilterType::Control(control) }
    }

    pub fn matches(&self, device: &str, midi_message: MidiMessage) -> (b: bool)
        ensures
            b == filter_matches(self@, device@, midi_message),
    {
        if !name_contains(device, self.device.as_str()) {
            return false;
        }
        let matches_type = match self.filter_type {
            FilterType::Note => is_note_on(midi_message) || is_note_off(midi_message),
            FilterType::NoteOn => is_note_on(midi_message),
            FilterType::Control(control) => is_control_change(midi_message) && midi_message.data1 == control,
        };
        if !matches_type {
            return false;
        }
        self.range.0 <= midi_message.data1 && midi_message.data1 <= self.range.1
    }

    /// A filter equal to this one.
    pub fn duplicate(&self) -> (f: Self)
        ensures
            f@ == self@,
    {
        MidiFilter { device: copy_string(&self.device), range: self.range, filter_type: self.filter_type }
    }
}

/// A note filter lets through exactly the note-ons and note-offs of its one
/// note from the devices whose name contains its device name.
pub proof fn lemma_note_filter(device: Seq<char>, note: u8, from: Seq<char>, m: MidiMessage)
    ensures
        filter_matches(MidiFilterView { device, range: (note, note), filter_type: FilterType::Note }, from, m)
            <==> (contains_chars(from, device) && (is_note_on_spec(m) || is_note_off_spec(m)) && m.data1 == note),
{
}

/// A control filter lets through exactly the control changes of its controller.
pub proof fn lemma_control_filter(device: Seq<char>, control: u8, from: Seq<char>, m: MidiMessage)
    requires
        control <= 127,
    ensures
        filter_matches(MidiFilterView { device, range: (0, 127), filter_type: FilterType::Control(control) }, from, m)
            <==> (contains_chars(from, device) && is_control_change_spec(m) && m.data1 == control),
{
}

} // verus!
