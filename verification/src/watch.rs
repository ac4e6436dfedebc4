//! Which watched patch files changed.
use vstd::prelude::*;
use crate::midi::copy_string;

verus! {

/// A file system event of the patch directory, by the path it concerns.
pub enum WatchEvent {
    Create(String),
    Other,
}

/// The paths of the created files, in the order of their events.
pub open spec fn created_paths(events: Seq<WatchEvent>) -> Seq<Seq<char>>
    decreases events.len(),
{
    if events.len() == 0 {
        Seq::empty()
    } else {
        created_paths(events.drop_last()) + match events.last() {
            WatchEvent::Create(p) => seq![p@],
            WatchEvent::Other => Seq::empty(),
        }
    }
}

pub fn get_changed_files(events: &Vec<WatchEvent>) -> (paths: Vec<String>)
    ensures
        Seq::new(paths@.len(), |i: int| paths@[i]@) == created_paths(events@),
{
    let mut paths: Vec<String> = Vec::new();
    let mut i: usize = 0;
    while i < events.len()
        invariant
            i <= events@.len(),
            Seq::new(paths@.len(), |k: int| paths@[k]@) == created_paths(events@.subrange(0, i as int)),
        decreases events@.len() - i,
    {
        let ghost before = Seq::new(paths@.len(), |k: int| paths@[k]@);
        match &events[i] {
            WatchEvent::Create(path) => {
                paths.push(copy_string(path));
            },
            WatchEvent::Other => {},
        }
        assert(events@.subrange(0, i + 1).drop_last() =~= events@.subrange(0, i as int));
        i = i + 1;
        assert(Seq::new(paths@.len(), |k: int| paths@[k]@) =~= created_paths(events@.subrange(0, i as int)));
    }
    assert(events@.subrange(0, events@.len() as int) =~= events@);
    paths
}

} // verus!
