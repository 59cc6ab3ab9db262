//! Searching a byte string for a byte.

use vstd::prelude::*;

verus! {

/// The first position at or after `from` that holds `byte`, or the length of
/// `s` where there is none.
pub open spec fn position_of(s: Seq<u8>, byte: u8, from: int) -> int
    decreases s.len() - from,
{
    if from < 0 || from >= s.len() {
        s.len() as int
    } else if s[from] == byte {
        from
    } else {
        position_of(s, byte, from + 1)
    }
}

/// Where `position_of` lands: at or after `from`, on the byte or at the end,
/// with the byte nowhere on the way.
pub proof fn lemma_position_of(s: Seq<u8>, byte: u8, from: int)
    requires
        0 <= from <= s.len(),
    ensures
        from <= position_of(s, byte, from) <= s.len(),
        position_of(s, byte, from) < s.len() ==> s[position_of(s, byte, from)] == byte,
        forall|i: int| from <= i < position_of(s, byte, from) ==> s[i] != byte,
    decreases s.len() - from,
{
    if from < s.len() && s[from] != byte {
        lemma_position_of(s, byte, from + 1);
    }
}

/// Finds the first position at or after `from` that holds `byte`. The result
/// is the length of `s` where there is none.
pub fn find(s: &[u8], byte: u8, from: usize) -> (r: usize)
    ensures
        r == position_of(s@, byte, from as int),
        r <= s@.len(),
        from <= s@.len() ==> from <= r,
{
    if from >= s.len() {
        return s.len();
    }
    let mut i: usize = from;
    while i < s.len() && s[i] != byte
        invariant
            from <= i <= s@.len(),
            position_of(s@, byte, from as int) == position_of(s@, byte, i as int),
        decreases s@.len() - i,
    {
        i = i + 1;
    }
    i
}

} // verus!
