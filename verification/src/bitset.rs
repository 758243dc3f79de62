//! The contract under which the universe uses `fixedbitset::FixedBitSet`.
//!
//! Nothing in this file is proved: each item states what the bit set's own
//! source shows, and the rest of the crate is verified against these statements.

use fixedbitset::FixedBitSet;
use vstd::prelude::*;

verus! {

/// `fixedbitset::FixedBitSet`, a set of bits of a fixed length. Its fields stay
/// hidden: all that the crate knows of a value is what [`bits`] names.
#[verifier::external_type_specification]
#[verifier::external_body]
pub struct ExFixedBitSet(fixedbitset::FixedBitSet);

/// The bits that a set holds, in index order: one entry for each bit of its
/// length, `true` where the bit is enabled.
pub uninterp spec fn bits(set: FixedBitSet) -> Seq<bool>;

/// `FixedBitSet::with_capacity` returns a set of `capacity` bits, all of them
/// clear.
pub assume_specification[ FixedBitSet::with_capacity ](capacity: usize) -> (set: FixedBitSet)
    ensures
        bits(set) == Seq::new(capacity as nat, |i: int| false),
;

/// `FixedBitSet::len` returns the number of bits, set or unset.
pub assume_specification[ FixedBitSet::len ](set: &FixedBitSet) -> (n: usize)
    ensures
        n == bits(*set).len(),
;

/// `FixedBitSet::contains` reads one bit. Of a bit past the length nothing is
/// claimed.
pub assume_specification[ FixedBitSet::contains ](set: &FixedBitSet, bit: usize) -> (enabled: bool)
    ensures
        bit < bits(*set).len() ==> enabled == bits(*set)[bit as int],
;

/// `FixedBitSet::set` writes one bit and leaves the others and the length as
/// they were. It panics on a bit past the length, which `requires` leaves out.
pub assume_specification[ FixedBitSet::set ](set: &mut FixedBitSet, bit: usize, enabled: bool)
    requires
        bit < bits(*old(set)).len(),
    ensures
        bits(*final(set)) == bits(*old(set)).update(bit as int, enabled),
;

/// `FixedBitSet::toggle` inverts one bit and leaves the others and the length
/// as they were. It panics on a bit past the length, which `requires` leaves out.
pub assume_specification[ FixedBitSet::toggle ](set: &mut FixedBitSet, bit: usize)
    requires
        bit < bits(*old(set)).len(),
    ensures
        bits(*final(set)) == bits(*old(set)).update(bit as int, !bits(*old(set))[bit as int]),
;

/// `Clone::clone` on a `FixedBitSet` copies the blocks and the length.
pub assume_specification[ <FixedBitSet as Clone>::clone ](set: &FixedBitSet) -> (copy: FixedBitSet)
    ensures
        bits(copy) == bits(*set),
;

/// Whether bit `i` is enabled in a sequence of 32-bit blocks, the bits counted
/// from the least significant bit of the first block.
pub open spec fn bit_of(blocks: Seq<u32>, i: int) -> bool {
    blocks[i / 32] & (1u32 << ((i % 32) as u32)) != 0
}

/// `FixedBitSet::as_slice` lends the blocks in which the bits are packed: just
/// enough blocks of 32 bits to hold the length, each block holding the next 32
/// bits from its least significant bit up.
pub assume_specification[ FixedBitSet::as_slice ](set: &FixedBitSet) -> (blocks: &[u32])
    ensures
        blocks@.len() == (bits(*set).len() + 31) / 32,
        forall|i: int| 0 <= i < bits(*set).len() ==> #[trigger] bits(*set)[i] == bit_of(blocks@, i),
;

/// `String::push` appends one character to the end of a string.
pub assume_specification[ String::push ](text: &mut String, ch: char)
    ensures
        final(text)@ == old(text)@.push(ch),
;

} // verus!
