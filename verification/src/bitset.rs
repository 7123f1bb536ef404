//! The bit set that stores the cells, and what this crate relies on from it.
//!
//! `FixedBitSet` comes from the `fixedbitset` crate. Nothing in this file is
//! proved: each contract says what the crate's source does, and the proofs
//! in the other files rest on it.

use fixedbitset::FixedBitSet;
use vstd::prelude::*;

verus! {

/// `fixedbitset::FixedBitSet`, taken as it is: what is inside a value is
/// known only through `bits`.
#[verifier::external_type_specification]
#[verifier::external_body]
pub struct ExFixedBitSet(fixedbitset::FixedBitSet);

/// The bits of `set`, from bit 0 to bit `set.len() - 1`: the sequence is as
/// long as `set.len()` says, and entry `i` is what `set.contains(i)` answers.
pub uninterp spec fn bits(set: FixedBitSet) -> Seq<bool>;

/// `FixedBitSet::with_capacity`: a new set of `n` bits, all of them clear.
#[verifier::external_body]
pub(crate) fn bitset_with_capacity(n: usize) -> (set: FixedBitSet)
    ensures
        bits(set) == Seq::new(n as nat, |i: int| false),
{
    FixedBitSet::with_capacity(n)
}

/// `FixedBitSet::index`, written `set[bit]`: the state of one bit. It is
/// asked here only for a bit inside the set's length.
#[verifier::external_body]
pub(crate) fn bitset_get(set: &FixedBitSet, bit: usize) -> (on: bool)
    requires
        bit < bits(*set).len(),
    ensures
        on == bits(*set)[bit as int],
{
    set[bit]
}

/// `FixedBitSet::set`: one bit takes the given state; the other bits and
/// the length stay. The crate panics on a bit outside the length, which the
/// precondition rules out.
#[verifier::external_body]
pub(crate) fn bitset_set(set: &mut FixedBitSet, bit: usize, enabled: bool)
    requires
        bit < bits(*old(set)).len(),
    ensures
        bits(*final(set)) == bits(*old(set)).update(bit as int, enabled),
{
    set.set(bit, enabled)
}

/// `FixedBitSet::clone`: a new set of the same length with the same bits.
#[verifier::external_body]
pub(crate) fn bitset_clone(set: &FixedBitSet) -> (copy: FixedBitSet)
    ensures
        bits(copy) == bits(*set),
{
    set.clone()
}

} // verus!
