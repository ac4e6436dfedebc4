//! Triggers: a note played on a device that starts an effect.
use vstd::prelude::*;
use crate::midi::{MidiMessage, is_note_on_spec, is_note_on, contains_chars, name_contains, string_of, copy_string};

verus! {

/// Fires on a note-on of `note` from a device whose name contains `device`.
#[derive(Debug)]
pub struct Trigger {
    device: String,
    note: u8,
}

impl View for Trigger {
    type V = (Seq<char>, u8);

    closed spec fn view(&self) -> (Seq<char>, u8) {
        (self.device@, self.note)
    }
}

/// The device name of the trigger that never fires on a real device.
pub open spec fn never_device() -> Seq<char> {
    seq!['N', 'E', 'V', 'E', 'R', '!']
}

pub open spec fn triggered_by(t: (Seq<char>, u8), device: Seq<char>, m: MidiMessage) -> bool {
    contains_chars(device, t.0) && is_note_on_spec(m) && m.data1 == t.1
}

impl Trigger {
    pub fn new(device: &str, note: u8) -> (t: Trigger)
        ensures
            t@ == (device@, note),
    {
        Trigger { device: string_of(device), note }
    }

    pub fn never() -> (t: Trigger)
        ensures
            t@ == (never_device(), 0u8),
    {
        let name = "NEVER!";
        proof {
            reveal_strlit("NEVER!");
        }
        assert(name@ =~= never_device());
        Trigger { device: string_of(name), note: 0 }
    }

    pub fn is_triggered(&self, device: &str, midi_message: MidiMessage) -> (b: bool)
        ensures
            b == triggered_by(self@, device@, midi_message),
    {
        name_contains(device, self.device.as_str()) && is_note_on(midi_message)
            && midi_message.data1 == self.note
    }

    /// A trigger equal to this one.
    pub fn duplicate(&self) -> (t: Trigger)
        ensures
            t@ == self@,
    {
        Trigger { device: copy_string(&self.device), note: self.note }
    }

    /// Whether two triggers are equal, as the derived equality decides it.
    pub fn same_as(&self, other: &Trigger) -> (b: bool)
        ensures
            b == (self@ == other@),
    {
        self.device == other.device && self.note == other.note
    }
}

} // verus!
