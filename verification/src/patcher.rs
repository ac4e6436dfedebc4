//! Decisions of the event loop: which messages select patches, and which
//! patch a program change or a changed file concerns.
use vstd::prelude::*;
use crate::midi::{MidiMessage, same_name};
use crate::patch::Patch;

verus! {

/// Status of MIDI clock ticks, which the loop ignores.
pub const TIMING_CLOCK_STATUS: u8 = 248;

/// Status of program changes on the first channel.
pub const PROGRAM_CHANGE_STATUS: u8 = 192;

#[derive(Copy, Clone, Debug, PartialEq, Eq, Structural)]
pub enum MidiRoute {
    /// A clock tick: nothing to do.
    Ignore,
    /// Select the patch of this program.
    SelectProgram(u8),
    /// Hand the message to the selected patch and show it.
    Forward,
}

pub open spec fn route_of(m: MidiMessage, patch_selection: bool) -> MidiRoute {
    if m.status == TIMING_CLOCK_STATUS {
        MidiRoute::Ignore
    } else if m.status == PROGRAM_CHANGE_STATUS && patch_selection {
        MidiRoute::SelectProgram(m.data1)
    } else {
        MidiRoute::Forward
    }
}

pub fn route_message(midi_message: MidiMessage, patch_selection: bool) -> (r: MidiRoute)
    ensures
        r == route_of(midi_message, patch_selection),
{
    if midi_message.status == TIMING_CLOCK_STATUS {
        MidiRoute::Ignore
    } else if midi_message.status == PROGRAM_CHANGE_STATUS && patch_selection {
        MidiRoute::SelectProgram(midi_message.data1)
    } else {
        MidiRoute::Forward
    }
}

/// The index of the first patch with the program `program`.
pub fn find_patch_by_program(patches: &Vec<Patch>, program: u8) -> (r: Option<usize>)
    ensures
        r matches Some(i) ==> i < patches@.len() && patches@[i as int].program_number() == program
            && forall|j: int| 0 <= j < i ==> #[trigger] patches@[j].program_number() != program,
        r is None ==> forall|j: int| 0 <= j < patches@.len() ==> #[trigger] patches@[j].program_number() != program,
{
    let mut i: usize = 0;
    while i < patches.len()
        invariant
            i <= patches@.len(),
            forall|j: int| 0 <= j < i ==> #[trigger] patches@[j].program_number() != program,
        decreases patches@.len() - i,
    {
        if patches[i].program() == program {
            return Some(i);
        }
        i = i + 1;
    }
    None
}

/// The index of the first patch named `name`.
pub fn find_patch_by_name(patches: &Vec<Patch>, name: &str) -> (r: Option<usize>)
    ensures
        r matches Some(i) ==> i < patches@.len() && patches@[i as int].patch_name() == name@
            && forall|j: int| 0 <= j < i ==> #[trigger] patches@[j].patch_name() != name@,
        r is None ==> forall|j: int| 0 <= j < patches@.len() ==> #[trigger] patches@[j].patch_name() != name@,
{
    let mut i: usize = 0;
    while i < patches.len()
        invariant
            i <= patches@.len(),
            forall|j: int| 0 <= j < i ==> #[trigger] patches@[j].patch_name() != name@,
        decreases patches@.len() - i,
    {
        if same_name(patches[i].name(), name) {
            return Some(i);
        }
        i = i + 1;
    }
    None
}

} // verus!
