//! Linear mapping of one value range onto another, clamped at both ends.
use vstd::prelude::*;

verus! {

/// An inclusive range of MIDI data values: (lowest, highest).
pub type ValueRange = (u8, u8);

/// Notes below 10 are often used for special purposes.
pub const ALL_REAL_NOTES: ValueRange = (10, 127);

pub struct RangeToRangeMapper {
    source: ValueRange,
    target: ValueRange,
}

/// The mapped value: the ends of the source map to the ends of the target,
/// values in between are scaled linearly and rounded down.
pub open spec fn map_value(source: ValueRange, target: ValueRange, value: u8) -> int {
    if value <= source.0 {
        target.0 as int
    } else if value >= source.1 {
        target.1 as int
    } else {
        (target.1 - target.0) * (value - source.0) / (source.1 - source.0) + target.0
    }
}

/// The mapping needs an ascending target range only for values strictly
/// inside the source range; elsewhere it never subtracts the target's ends.
pub open spec fn can_map(source: ValueRange, target: ValueRange, value: u8) -> bool {
    (source.0 < value && value < source.1) ==> target.0 <= target.1
}

impl RangeToRangeMapper {
    pub closed spec fn source(&self) -> ValueRange {
        self.source
    }

    pub closed spec fn target(&self) -> ValueRange {
        self.target
    }

    pub fn new(source: ValueRange, target: ValueRange) -> (m: Self)
        ensures
            m.source() == source,
            m.target() == target,
    {
        RangeToRangeMapper { source, target }
    }

    pub fn map(&self, value: u8) -> (r: u8)
        requires
            can_map(self.source(), self.target(), value),
        ensures
            r == map_value(self.source(), self.target(), value),
    {
        if value <= self.source.0 {
            self.target.0
        } else if value >= self.source.1 {
            self.target.1
        } else {
            let source_range = (self.source.1 - self.source.0) as i64;
            let target_range = (self.target.1 - self.target.0) as i64;
            let offset = (value - self.source.0) as i64;
            proof {
                lemma_scaled_below(target_range as int, offset as int, source_range as int);
            }
            let scaled = target_range * offset / source_range;
            (scaled + self.target.0 as i64) as u8
        }
    }
}

proof fn lemma_scaled_below(range: int, offset: int, whole: int)
    requires
        0 <= range <= 255,
        0 < offset < whole <= 255,
    ensures
        0 <= range * offset <= 255 * 255,
        0 <= range * offset / whole <= range,
{
    assert(0 <= range * offset <= 255 * 255) by (nonlinear_arith)
        requires
            0 <= range <= 255,
            0 < offset <= 255,
    ;
    assert(range * offset <= range * whole) by (nonlinear_arith)
        requires
            0 <= range,
            offset < whole,
    ;
    assert(range * offset / whole <= range) by (nonlinear_arith)
        requires
            0 <= range * offset <= range * whole,
            0 < whole,
    ;
    assert(0 <= range * offset / whole) by (nonlinear_arith)
        requires
            0 <= range * offset,
            0 < whole,
    ;
}

/// With an ascending target range, every mapped value lies in the target
/// range, and the ends of the source range map to the ends of the target.
pub proof fn lemma_map_within_target(source: ValueRange, target: ValueRange, value: u8)
    requires
        target.0 <= target.1,
    ensures
        target.0 <= map_value(source, target, value) <= target.1,
        value <= source.0 ==> map_value(source, target, value) == target.0,
        (value >= source.1 && value > source.0) ==> map_value(source, target, value) == target.1,
{
    if source.0 < value && value < source.1 {
        lemma_scaled_below(
            (target.1 - target.0) as int,
            (value - source.0) as int,
            (source.1 - source.0) as int,
        );
    }
}

/// With an ascending target range the mapping never decreases.
pub proof fn lemma_map_monotonic(source: ValueRange, target: ValueRange, v1: u8, v2: u8)
    requires
        target.0 <= target.1,
        v1 <= v2,
    ensures
        map_value(source, target, v1) <= map_value(source, target, v2),
{
    lemma_map_within_target(source, target, v1);
    lemma_map_within_target(source, target, v2);
    if source.0 < v1 && v2 < source.1 {
        let range = (target.1 - target.0) as int;
        let whole = (source.1 - source.0) as int;
        let a = (v1 - source.0) as int;
        let b = (v2 - source.0) as int;
        assert(range * a <= range * b) by (nonlinear_arith)
            requires
                0 <= range,
                a <= b,
        ;
        assert(range * a / whole <= range * b / whole) by (nonlinear_arith)
            requires
                range * a <= range * b,
                0 < whole,
        ;
    }
}

} // verus!
