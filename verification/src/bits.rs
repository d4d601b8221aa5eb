//! Trusted boundary around `fixedbitset::FixedBitSet`, the packed bit buffer
//! that stores one generation of cells. Each wrapper states, over the ghost
//! bit sequence [`bits_of`], what the crate's own source shows of the call.

use vstd::prelude::*;

verus! {

/// Declares `fixedbitset::FixedBitSet` so it can stand in signatures and
/// fields; the verifier sees values of it only through the wrappers below.
#[verifier::external_type_specification]
#[verifier::external_body]
pub struct ExFixedBitSet(fixedbitset::FixedBitSet);

/// The bits a `FixedBitSet` holds, in index order; its length is the
/// capacity the set was created with.
pub uninterp spec fn bits_of(fb: fixedbitset::FixedBitSet) -> Seq<bool>;

/// Relies on `FixedBitSet::with_capacity`: a set with `bits` bits, all
/// initially clear.
#[verifier::external_body]
pub(crate) fn bitset_with_capacity(bits: usize) -> (r: fixedbitset::FixedBitSet)
    ensures
        bits_of(r).len() == bits,
        forall|i: int| 0 <= i < bits ==> !bits_of(r)[i],
{
    fixedbitset::FixedBitSet::with_capacity(bits)
}

/// Relies on `FixedBitSet::set`: writes one bit in place, leaving every other
/// bit as it was. The call panics when `bit` is out of range, so that case is
/// excluded here.
#[verifier::external_body]
pub(crate) fn bitset_set(fb: &mut fixedbitset::FixedBitSet, bit: usize, enabled: bool)
    requires
        bit < bits_of(*old(fb)).len(),
    ensures
        bits_of(*final(fb)) == bits_of(*old(fb)).update(bit as int, enabled),
{
    fb.set(bit, enabled)
}

/// Relies on `FixedBitSet::contains`: reads one bit without changing the set.
#[verifier::external_body]
pub(crate) fn bitset_contains(fb: &fixedbitset::FixedBitSet, bit: usize) -> (r: bool)
    requires
        bit < bits_of(*fb).len(),
    ensures
        r == bits_of(*fb)[bit as int],
{
    fb.contains(bit)
}

/// Relies on `FixedBitSet`'s `Clone` impl: the copy holds the same bits over
/// the same capacity.
#[verifier::external_body]
pub(crate) fn bitset_clone(fb: &fixedbitset::FixedBitSet) -> (r: fixedbitset::FixedBitSet)
    ensures
        bits_of(r) == bits_of(*fb),
{
    fb.clone()
}

} // verus!
