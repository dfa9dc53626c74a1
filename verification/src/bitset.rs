//! Trusted surface over the packed bit array that stores a grid generation.
//!
//! The simulation keeps each generation in a `fixedbitset::FixedBitSet`, one
//! bit per cell.  Verified code never looks inside that type: it goes through
//! the thin wrappers below, whose contracts speak of the abstract bit
//! sequence `bits`.

use vstd::prelude::*;
use fixedbitset::FixedBitSet;

verus! {

#[verifier::external_type_specification]
#[verifier::external_body]
pub struct ExFixedBitSet(FixedBitSet);

/// The content of a packed bit array, as a sequence of booleans indexed from
/// bit 0 upward; its length is the array's capacity in bits.
pub uninterp spec fn bits(s: FixedBitSet) -> Seq<bool>;

/// Relies on `FixedBitSet::with_capacity`: a bit array with `n` bits, all
/// initially clear.
#[verifier::external_body]
pub(crate) fn bitset_with_capacity(n: usize) -> (r: FixedBitSet)
    ensures
        bits(r).len() == n,
        forall|i: int| 0 <= i < n ==> !bits(r)[i],
{
    FixedBitSet::with_capacity(n)
}

/// Relies on `FixedBitSet::contains`: whether bit `i` is enabled.
#[verifier::external_body]
pub(crate) fn bitset_get(s: &FixedBitSet, i: usize) -> (r: bool)
    requires
        i < bits(*s).len(),
    ensures
        r == bits(*s)[i as int],
{
    s.contains(i)
}

/// Relies on `FixedBitSet::set`: writes bit `i` and leaves every other bit
/// alone; it panics only on an out-of-bounds index, which the precondition
/// rules out.
#[verifier::external_body]
pub(crate) fn bitset_set(s: &mut FixedBitSet, i: usize, b: bool)
    requires
        i < bits(*old(s)).len(),
    ensures
        bits(*final(s)) == bits(*old(s)).update(i as int, b),
{
    s.set(i, b)
}

/// Relies on `FixedBitSet::toggle`: inverts bit `i` and leaves every other
/// bit alone; it panics only on an out-of-bounds index, which the
/// precondition rules out.
#[verifier::external_body]
pub(crate) fn bitset_toggle(s: &mut FixedBitSet, i: usize)
    requires
        i < bits(*old(s)).len(),
    ensures
        bits(*final(s)) == bits(*old(s)).update(i as int, !bits(*old(s))[i as int]),
{
    s.toggle(i)
}

/// Relies on `FixedBitSet::set_range` over the full range: disables every
/// bit and keeps the capacity.
#[verifier::external_body]
pub(crate) fn bitset_clear(s: &mut FixedBitSet)
    ensures
        bits(*final(s)).len() == bits(*old(s)).len(),
        forall|i: int| 0 <= i < bits(*final(s)).len() ==> !bits(*final(s))[i],
{
    s.set_range(.., false)
}

/// Relies on `FixedBitSet`'s `Clone` impl: copies the block vector and the
/// bit length, so the copy holds exactly the same bits.
#[verifier::external_body]
pub(crate) fn bitset_clone(s: &FixedBitSet) -> (r: FixedBitSet)
    ensures
        bits(r) == bits(*s),
{
    s.clone()
}

} // verus!
