//! Sleeping towards absolute points in time, so that the small delays of
//! each step of a sequence do not add up.
use vstd::prelude::*;

verus! {

/// Times are nanoseconds on the application's monotonic clock.
#[derive(Copy, Clone, Debug, PartialEq, Eq, Structural)]
pub struct AbsoluteSleep {
    start_time: u64,
    duration_sum: u64,
}

impl AbsoluteSleep {
    pub closed spec fn start_time(&self) -> u64 {
        self.start_time
    }

    pub closed spec fn duration_sum(&self) -> u64 {
        self.duration_sum
    }

    /// A sleeper that counts from `now`.
    pub fn new(now: u64) -> (s: AbsoluteSleep)
        ensures
            s.start_time() == now,
            s.duration_sum() == 0,
    {
        AbsoluteSleep { start_time: now, duration_sum: 0 }
    }

    /// The sleeper after `duration` more was added to the total.
    pub closed spec fn slept(self, duration: u64) -> AbsoluteSleep {
        AbsoluteSleep { start_time: self.start_time(), duration_sum: (self.duration_sum() + duration) as u64 }
    }

    /// When a sleep by this sleeper ends: the start plus the total.
    pub open spec fn wake_time(self) -> int {
        self.start_time() + self.duration_sum()
    }

    /// Adds `duration` to the total and returns how long to sleep at `now`
    /// so that the total has passed since the start. The time already passed
    /// must not exceed the new total, as a duration cannot be negative.
    pub fn sleep(&mut self, duration: u64, now: u64) -> (sleep_time: u64)
        requires
            old(self).duration_sum() + duration <= u64::MAX,
            old(self).start_time() <= now,
            now - old(self).start_time() <= old(self).duration_sum() + duration,
        ensures
            *final(self) == old(self).slept(duration),
            now + sleep_time == final(self).wake_time(),
    {
        self.duration_sum = self.duration_sum + duration;
        self.duration_sum - (now - self.start_time)
    }
}

/// Adding to the total keeps the start and adds to the total.
pub proof fn lemma_slept(s: AbsoluteSleep, d: u64)
    requires
        s.duration_sum() + d <= u64::MAX,
    ensures
        s.slept(d).start_time() == s.start_time(),
        s.slept(d).duration_sum() == s.duration_sum() + d,
{
}

/// However late each sleep starts, the sleeps of a fresh sleeper end at its
/// start plus the sum of the durations so far: the delays do not add up.
pub proof fn lemma_sleeps_add_up(s: AbsoluteSleep, d1: u64, d2: u64)
    requires
        s.duration_sum() == 0,
        d1 + d2 <= u64::MAX,
    ensures
        s.slept(d1).wake_time() == s.start_time() + d1,
        s.slept(d1).slept(d2).wake_time() == s.start_time() + d1 + d2,
{
    lemma_slept(s, d1);
    lemma_slept(s.slept(d1), d2);
}

} // verus!
