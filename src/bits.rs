//! The packed cell buffer: `fixedbitset::FixedBitSet`, seen through the
//! sequence of bits that it holds.
use fixedbitset::FixedBitSet;
use vstd::prelude::*;

verus! {

#[verifier::external_type_specification]
#[verifier::external_body]
pub struct ExFixedBitSet(FixedBitSet);

/// The bits a `FixedBitSet` holds, one per index below its length.
pub uninterp spec fn bits_of(b: FixedBitSet) -> Seq<bool>;

/// Whether bit `i` is set in a slice of 32-bit blocks, bit `i` standing at
/// position `i % 32` of block `i / 32`.
pub open spec fn block_bit(blocks: Seq<u32>, i: int) -> bool {
    (blocks[i / 32] >> ((i % 32) as u32)) & 1u32 == 1u32
}

/// Relies on `FixedBitSet::with_capacity`: `n` bits, all clear.
#[verifier::external_body]
pub(crate) fn bits_cleared(n: usize) -> (r: FixedBitSet)
    ensures
        bits_of(r) == Seq::new(n as nat, |i: int| false),
{
    FixedBitSet::with_capacity(n)
}

/// Relies on `FixedBitSet::contains`: whether bit `i`, below the length, is set.
#[verifier::external_body]
pub(crate) fn bits_get(b: &FixedBitSet, i: usize) -> (r: bool)
    requires
        i < bits_of(*b).len(),
    ensures
        r == bits_of(*b)[i as int],
{
    b.contains(i)
}

/// Relies on `FixedBitSet::set`, which panics on an index past the length:
/// bit `i` takes the value `v`, the others stay.
#[verifier::external_body]
pub(crate) fn bits_set(b: &mut FixedBitSet, i: usize, v: bool)
    requires
        i < bits_of(*old(b)).len(),
    ensures
        bits_of(*final(b)) == bits_of(*old(b)).update(i as int, v),
{
    b.set(i, v)
}

/// Relies on `FixedBitSet::clone`: a copy with the same bits.
#[verifier::external_body]
pub(crate) fn bits_copy(b: &FixedBitSet) -> (r: FixedBitSet)
    ensures
        bits_of(r) == bits_of(*b),
{
    b.clone()
}

/// Relies on `FixedBitSet::as_slice`: the 32-bit blocks, as many as the bits
/// need, bit `i` at position `i % 32` of block `i / 32`.
#[verifier::external_body]
pub(crate) fn bits_blocks(b: &FixedBitSet) -> (r: &[u32])
    ensures
        r@.len() == (bits_of(*b).len() + 31) / 32,
        forall|i: int| 0 <= i < bits_of(*b).len() ==> #[trigger] block_bit(r@, i) == bits_of(*b)[i],
{
    b.as_slice()
}

} // verus!
