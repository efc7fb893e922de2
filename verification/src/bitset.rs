//! The contract under which the engine uses `fixedbitset::FixedBitSet`.
//!
//! Nothing in this module is proved: each item states what the bit set's
//! source does, in terms of the sequence of bits that a set holds.

use fixedbitset::{Block, FixedBitSet};
use vstd::prelude::*;

verus! {

/// `fixedbitset::FixedBitSet`, taken as a value whose inside is not looked
/// into.
#[verifier::external_type_specification]
#[verifier::external_body]
pub struct ExFixedBitSet(FixedBitSet);

/// The bits that a set holds, in index order: entry `i` is `true` exactly
/// when bit `i` is enabled. Its length is the set's length in bits.
pub uninterp spec fn bits_of(set: FixedBitSet) -> Seq<bool>;

/// `FixedBitSet::with_capacity` builds a set of `bits` bits, all of them
/// disabled. Running out of memory ends the process and is not described.
pub assume_specification[ FixedBitSet::with_capacity ](bits: usize) -> (set: FixedBitSet)
    ensures
        bits_of(set) == Seq::new(bits as nat, |i: int| false),
;

/// `FixedBitSet::contains` reads one bit; an index past the end reads as
/// disabled.
pub assume_specification[ FixedBitSet::contains ](set: &FixedBitSet, bit: usize) -> (enabled: bool)
    ensures
        enabled == (bit < bits_of(*set).len() && bits_of(*set)[bit as int]),
;

/// `FixedBitSet::set` writes one bit and leaves every other bit and the
/// length as they were. It panics on an index past the end.
pub assume_specification[ FixedBitSet::set ](set: &mut FixedBitSet, bit: usize, enabled: bool)
    requires
        bit < bits_of(*old(set)).len(),
    ensures
        bits_of(*final(set)) == bits_of(*old(set)).update(bit as int, enabled),
;

/// `FixedBitSet::toggle` inverts one bit and leaves every other bit and the
/// length as they were. It panics on an index past the end.
pub assume_specification[ FixedBitSet::toggle ](set: &mut FixedBitSet, bit: usize)
    requires
        bit < bits_of(*old(set)).len(),
    ensures
        bits_of(*final(set)) == bits_of(*old(set)).update(
            bit as int,
            !bits_of(*old(set))[bit as int],
        ),
;

/// `Clone::clone` on a `FixedBitSet` copies the length and every bit.
pub assume_specification[ <FixedBitSet as Clone>::clone ](set: &FixedBitSet) -> (copy: FixedBitSet)
    ensures
        bits_of(copy) == bits_of(*set),
;

/// `FixedBitSet::set_range` writes `enabled` to every bit from `start` up to
/// but not including `end`, and leaves every other bit and the length as
/// they were. It panics when the range is reversed or runs past the end.
#[verifier::external_body]
pub(crate) fn set_range(set: &mut FixedBitSet, start: usize, end: usize, enabled: bool)
    requires
        start <= end <= bits_of(*old(set)).len(),
    ensures
        bits_of(*final(set)) == Seq::new(
            bits_of(*old(set)).len(),
            |i: int|
                if start <= i < end {
                    enabled
                } else {
                    bits_of(*old(set))[i]
                },
        ),
{
    set.set_range(start..end, enabled);
}

/// Whether bit number `place` of a machine word is set.
pub open spec fn word_bit(word: usize, place: int) -> bool {
    word & (1usize << (place as usize)) != 0
}

/// The number of machine words that hold `bits` bits.
pub open spec fn words_for(bits: nat) -> nat {
    let full = bits / (usize::BITS as nat);
    if bits % (usize::BITS as nat) > 0 {
        full + 1
    } else {
        full
    }
}

/// Bit `i` of a run of words: it is kept in word `i / usize::BITS` at place
/// `i % usize::BITS`.
pub open spec fn packed_bit(words: Seq<usize>, i: int) -> bool {
    word_bit(words[i / (usize::BITS as int)], i % (usize::BITS as int))
}

/// `words` is the packed form of `bits`: as many words as are needed to hold
/// them, with every bit at its place. The unused high places of the last
/// word are left open.
pub open spec fn packs(words: Seq<usize>, bits: Seq<bool>) -> bool {
    &&& words.len() == words_for(bits.len())
    &&& forall|i: int| 0 <= i < bits.len() ==> #[trigger] bits[i] == packed_bit(words, i)
}

/// `FixedBitSet::as_slice` lends the words in which the set keeps its bits.
pub assume_specification[ FixedBitSet::as_slice ](set: &FixedBitSet) -> (words: &[Block])
    ensures
        packs(words@, bits_of(*set)),
;

} // verus!
