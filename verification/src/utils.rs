//! Small helpers on note lists.
pub mod midi_filter;
pub mod range_mapper;

use vstd::prelude::*;

verus! {

/// `pattern` repeated `times` times, one copy after the other.
pub open spec fn repeated_spec<T>(pattern: Seq<T>, times: nat) -> Seq<T>
    decreases times,
{
    if times == 0 {
        Seq::empty()
    } else {
        repeated_spec(pattern, (times - 1) as nat) + pattern
    }
}

/// The sequences of `parts`, one after the other.
pub open spec fn concat_spec<T>(parts: Seq<Seq<T>>) -> Seq<T>
    decreases parts.len(),
{
    if parts.len() == 0 {
        Seq::empty()
    } else {
        concat_spec(parts.drop_last()) + parts.last()
    }
}

pub fn repeated<T: Copy>(pattern: &[T], times: usize) -> (r: Vec<T>)
    ensures
        r@ == repeated_spec(pattern@, times as nat),
{
    let mut result: Vec<T> = Vec::new();
    let mut k: usize = 0;
    while k < times
        invariant
            k <= times,
            result@ == repeated_spec(pattern@, k as nat),
        decreases times - k,
    {
        let ghost before = result@;
        let mut j: usize = 0;
        while j < pattern.len()
            invariant
                j <= pattern@.len(),
                result@ == before + pattern@.subrange(0, j as int),
            decreases pattern@.len() - j,
        {
            result.push(pattern[j]);
            j = j + 1;
            assert(result@ =~= before + pattern@.subrange(0, j as int));
        }
        assert(pattern@.subrange(0, pattern@.len() as int) =~= pattern@);
        k = k + 1;
    }
    result
}

/// Transposes every note by `y`; each sum must stay a note value.
pub fn add(mut xs: Vec<u8>, y: u8) -> (r: Vec<u8>)
    requires
        forall|i: int| 0 <= i < xs@.len() ==> xs@[i] + y <= u8::MAX,
    ensures
        r@.len() == xs@.len(),
        forall|i: int| 0 <= i < xs@.len() ==> r@[i] == xs@[i] + y,
{
    let ghost original = xs@;
    let mut i: usize = 0;
    while i < xs.len()
        invariant
            xs@.len() == original.len(),
            i <= xs@.len(),
            forall|k: int| 0 <= k < original.len() ==> original[k] + y <= u8::MAX,
            forall|k: int| 0 <= k < i ==> xs@[k] == original[k] + y,
            forall|k: int| i <= k < xs@.len() ==> xs@[k] == original[k],
        decreases original.len() - i,
    {
        let x = xs[i];
        assert(x == original[i as int]);
        assert(original[i as int] + y <= u8::MAX);
        xs.set(i, x + y);
        i = i + 1;
    }
    xs
}

pub fn concat<T: Copy>(input: Vec<Vec<T>>) -> (r: Vec<T>)
    ensures
        r@ == concat_spec(Seq::new(input@.len(), |i: int| input@[i]@)),
{
    let ghost parts = Seq::new(input@.len(), |i: int| input@[i]@);
    let mut result: Vec<T> = Vec::new();
    let mut k: usize = 0;
    while k < input.len()
        invariant
            k <= input@.len(),
            parts == Seq::new(input@.len(), |i: int| input@[i]@),
            result@ == concat_spec(parts.subrange(0, k as int)),
        decreases input@.len() - k,
    {
        let ghost before = result@;
        let part = &input[k];
        let mut j: usize = 0;
        while j < part.len()
            invariant
                j <= part@.len(),
                result@ == before + part@.subrange(0, j as int),
            decreases part@.len() - j,
        {
            result.push(part[j]);
            j = j + 1;
            assert(result@ =~= before + part@.subrange(0, j as int));
        }
        assert(part@.subrange(0, part@.len() as int) =~= part@);
        assert(parts.subrange(0, k + 1).drop_last() =~= parts.subrange(0, k as int));
        k = k + 1;
    }
    assert(parts.subrange(0, input@.len() as int) =~= parts);
    result
}

/// Repeating a pattern of notes at most `bound` gives notes at most `bound`.
pub proof fn lemma_repeated_bounded(pattern: Seq<u8>, times: nat, bound: u8)
    requires
        forall|j: int| 0 <= j < pattern.len() ==> #[trigger] pattern[j] <= bound,
    ensures
        forall|i: int| 0 <= i < repeated_spec(pattern, times).len() ==> #[trigger] repeated_spec(pattern, times)[i] <= bound,
    decreases times,
{
    if times > 0 {
        lemma_repeated_bounded(pattern, (times - 1) as nat, bound);
        let before = repeated_spec(pattern, (times - 1) as nat);
        assert forall|i: int| 0 <= i < repeated_spec(pattern, times).len() implies #[trigger] repeated_spec(pattern, times)[i] <= bound by {
            if i < before.len() {
                assert(repeated_spec(pattern, times)[i] == before[i]);
            } else {
                assert(repeated_spec(pattern, times)[i] == pattern[i - before.len()]);
            }
        }
    }
}

} // verus!
