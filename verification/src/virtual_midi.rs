//! Decisions of the virtual MIDI output: which port plays a message.
use vstd::prelude::*;
use crate::midi::{MidiMessage, contains_chars, name_contains};

verus! {

/// The index of the first port whose name contains `output_name`; none if
/// no port does, in which case the message loops back as an input.
pub open spec fn output_port_for(port_names: Seq<Seq<char>>, output_name: Seq<char>) -> Option<int>
    decreases port_names.len(),
{
    if port_names.len() == 0 {
        None
    } else {
        match output_port_for(port_names.drop_last(), output_name) {
            Some(i) => Some(i),
            None => if contains_chars(port_names.last(), output_name) { Some(port_names.len() - 1) } else { None },
        }
    }
}

pub open spec fn names_view(names: Seq<String>) -> Seq<Seq<char>> {
    Seq::new(names.len(), |i: int| names[i]@)
}

pub fn find_output_port(port_names: &Vec<String>, output_name: &str) -> (r: Option<usize>)
    ensures
        r matches Some(i) ==> output_port_for(names_view(port_names@), output_name@) == Some(i as int),
        r is None ==> output_port_for(names_view(port_names@), output_name@) is None,
{
    let ghost names = names_view(port_names@);
    let mut i: usize = 0;
    while i < port_names.len()
        invariant
            names == names_view(port_names@),
            i <= port_names@.len(),
            forall|j: int| 0 <= j < i ==> !contains_chars(#[trigger] names[j], output_name@),
        decreases port_names@.len() - i,
    {
        if name_contains(port_names[i].as_str(), output_name) {
            proof {
                lemma_first_port(names, output_name@, i as int);
            }
            return Some(i);
        }
        i = i + 1;
    }
    proof {
        lemma_no_port(names, output_name@);
    }
    None
}

proof fn lemma_first_port(names: Seq<Seq<char>>, output_name: Seq<char>, k: int)
    requires
        0 <= k < names.len(),
        contains_chars(names[k], output_name),
        forall|j: int| 0 <= j < k ==> !contains_chars(#[trigger] names[j], output_name),
    ensures
        output_port_for(names, output_name) == Some(k),
    decreases names.len(),
{
    if k < names.len() - 1 {
        lemma_first_port(names.drop_last(), output_name, k);
    } else {
        lemma_no_port(names.drop_last(), output_name);
    }
}

proof fn lemma_no_port(names: Seq<Seq<char>>, output_name: Seq<char>)
    requires
        forall|j: int| 0 <= j < names.len() ==> !contains_chars(#[trigger] names[j], output_name),
    ensures
        output_port_for(names, output_name) is None,
    decreases names.len(),
{
    if names.len() > 0 {
        lemma_no_port(names.drop_last(), output_name);
    }
}

/// The message that ends all notes on the first channel.
pub fn all_notes_off() -> (m: MidiMessage)
    ensures
        m == (MidiMessage { status: 176, data1: 123, data2: 0 }),
{
    MidiMessage { status: 176, data1: 123, data2: 0 }
}

} // verus!
