//! Follows the beat of the messages a filter lets through: the time between
//! two such messages becomes the beat duration, when it is close to the
//! default.
use vstd::prelude::*;
use crate::midi::MidiMessage;
use crate::utils::midi_filter::{MidiFilter, MidiFilterView, filter_matches};
use crate::effects::button_melody::{elapsed, elapsed_since};

verus! {

pub struct MidiBeatTracker {
    filter: MidiFilter,
    last_time_stamp: Option<u64>,
    beat_duration: u64,
    default_beat_duration: u64,
}

/// A time between beats is taken as the new beat duration when it lies
/// strictly between two thirds of the default and the default. (The upper
/// bound is the default times `3 / 2`, which in integers is one.)
pub open spec fn accepted_beat(default_beat_duration: u64, last_beat_duration: u64) -> bool {
    default_beat_duration * 2 / 3 < last_beat_duration && last_beat_duration < default_beat_duration
}

impl MidiBeatTracker {
    pub closed spec fn filter(&self) -> MidiFilterView {
        self.filter@
    }

    pub closed spec fn last_time_stamp(&self) -> Option<u64> {
        self.last_time_stamp
    }

    pub closed spec fn beat_duration_spec(&self) -> u64 {
        self.beat_duration
    }

    pub closed spec fn default_beat_duration(&self) -> u64 {
        self.default_beat_duration
    }

    pub closed spec fn inv(&self) -> bool {
        &&& self.default_beat_duration <= u64::MAX / 2
        &&& self.beat_duration == self.default_beat_duration
            || accepted_beat(self.default_beat_duration, self.beat_duration)
    }

    /// `default_beat_duration` is in nanoseconds; twice it must fit in a `u64`.
    pub fn new(filter: MidiFilter, default_beat_duration: u64) -> (t: Self)
        requires
            default_beat_duration <= u64::MAX / 2,
        ensures
            t.inv(),
            t.filter() == filter@,
            t.last_time_stamp() == None::<u64>,
            t.beat_duration_spec() == default_beat_duration,
            t.default_beat_duration() == default_beat_duration,
    {
        MidiBeatTracker { filter, last_time_stamp: None, default_beat_duration, beat_duration: default_beat_duration }
    }

    /// A message that passes the filter is a beat at `now`: the time since
    /// the last beat becomes the beat duration if it is accepted.
    pub fn on_midi_event(&mut self, device: &str, midi_message: MidiMessage, now: u64)
        requires
            old(self).inv(),
        ensures
            final(self).inv(),
            final(self).filter() == old(self).filter(),
            final(self).default_beat_duration() == old(self).default_beat_duration(),
            !filter_matches(old(self).filter(), device@, midi_message) ==> final(self).last_time_stamp() == old(self).last_time_stamp()
                && final(self).beat_duration_spec() == old(self).beat_duration_spec(),
            filter_matches(old(self).filter(), device@, midi_message) ==> {
                &&& final(self).last_time_stamp() == Some(now)
                &&& final(self).beat_duration_spec() == match old(self).last_time_stamp() {
                    Some(last) => if accepted_beat(old(self).default_beat_duration(), elapsed(last, now)) {
                        elapsed(last, now)
                    } else {
                        old(self).beat_duration_spec()
                    },
                    None => old(self).beat_duration_spec(),
                }
            },
    {
        if !self.filter.matches(device, midi_message) {
            return;
        }
        if let Some(last_time_stamp) = self.last_time_stamp {
            let last_beat_duration = elapsed_since(last_time_stamp, now);
            if self.default_beat_duration * 2 / 3 < last_beat_duration && last_beat_duration < self.default_beat_duration {
                self.beat_duration = last_beat_duration;
            }
        }
        self.last_time_stamp = Some(now);
    }

    pub fn beat_duration(&self) -> (d: u64)
        ensures
            d == self.beat_duration_spec(),
    {
        self.beat_duration
    }
}

/// Whatever events a tracker has seen since it was made, its beat duration
/// is the default or a time between beats that was accepted: above two
/// thirds of the default and below it. (Every tracker is made by `new` and
/// changed by `on_midi_event`, which keep `inv`.)
pub proof fn lemma_beat_in_range(t: MidiBeatTracker)
    requires
        t.inv(),
    ensures
        t.beat_duration_spec() == t.default_beat_duration()
            || accepted_beat(t.default_beat_duration(), t.beat_duration_spec()),
        t.beat_duration_spec() <= t.default_beat_duration(),
{
}

} // verus!
