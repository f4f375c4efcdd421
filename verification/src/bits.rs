use vstd::prelude::*;

verus! {

// Both the ring of cells and the rule table are packed bit buffers from the
// `fixedbitset` crate. The buffer is opaque to the verifier; `bits_of` names
// the sequence of booleans it holds, and the wrappers below state how each
// operation of the crate reads or rewrites that sequence.

#[verifier::external_type_specification]
#[verifier::external_body]
pub struct ExFixedBitSet(fixedbitset::FixedBitSet);

/// The booleans a `FixedBitSet` holds, lowest bit index first.
pub uninterp spec fn bits_of(s: fixedbitset::FixedBitSet) -> Seq<bool>;

/// How many of the booleans in a sequence are true.
pub open spec fn count_true(s: Seq<bool>) -> nat
    decreases s.len(),
{
    if s.len() == 0 {
        0
    } else {
        count_true(s.drop_last()) + (if s.last() { 1nat } else { 0nat })
    }
}

/// No more booleans are true than the sequence holds.
pub proof fn lemma_count_true_le_len(s: Seq<bool>)
    ensures
        count_true(s) <= s.len(),
    decreases s.len(),
{
    if s.len() > 0 {
        lemma_count_true_le_len(s.drop_last());
    }
}

/// A sequence with no true boolean counts zero.
pub proof fn lemma_count_true_all_false(s: Seq<bool>)
    requires
        forall|j: int| 0 <= j < s.len() ==> !s[j],
    ensures
        count_true(s) == 0,
    decreases s.len(),
{
    if s.len() > 0 {
        lemma_count_true_all_false(s.drop_last());
    }
}

/// A sequence that is true at exactly one index counts one.
pub proof fn lemma_count_true_single(s: Seq<bool>, t: int)
    requires
        0 <= t < s.len(),
        forall|j: int| 0 <= j < s.len() ==> s[j] == (j == t),
    ensures
        count_true(s) == 1,
    decreases s.len(),
{
    if t == s.len() - 1 {
        lemma_count_true_all_false(s.drop_last());
    } else {
        lemma_count_true_single(s.drop_last(), t);
    }
}

/// Relies on `fixedbitset::FixedBitSet::with_capacity`: a buffer of `bits`
/// bits, all initially clear.
#[verifier::external_body]
pub(crate) fn bitset_new(bits: usize) -> (r: fixedbitset::FixedBitSet)
    ensures
        bits_of(r) == Seq::new(bits as nat, |i: int| false),
{
    fixedbitset::FixedBitSet::with_capacity(bits)
}

/// Relies on `fixedbitset::FixedBitSet::len`: the number of bits the buffer
/// was created with.
#[verifier::external_body]
pub(crate) fn bitset_len(s: &fixedbitset::FixedBitSet) -> (r: usize)
    ensures
        r == bits_of(*s).len(),
{
    s.len()
}

/// Relies on `fixedbitset::FixedBitSet::contains`: whether the bit at `bit`
/// is enabled; `requires` keeps the call inside the buffer, where the crate
/// returns the stored bit.
#[verifier::external_body]
pub(crate) fn bitset_get(s: &fixedbitset::FixedBitSet, bit: usize) -> (r: bool)
    requires
        bit < bits_of(*s).len(),
    ensures
        r == bits_of(*s)[bit as int],
{
    s.contains(bit)
}

/// Relies on `fixedbitset::FixedBitSet::set`: rewrites the bit at `bit`. The
/// crate panics on an out-of-range index, so `requires` keeps that out.
#[verifier::external_body]
pub(crate) fn bitset_set(s: &mut fixedbitset::FixedBitSet, bit: usize, enabled: bool)
    requires
        bit < bits_of(*old(s)).len(),
    ensures
        bits_of(*final(s)) == bits_of(*old(s)).update(bit as int, enabled),
{
    s.set(bit, enabled)
}

/// Relies on `fixedbitset::FixedBitSet::count_ones` over the full range: the
/// number of enabled bits in the whole buffer.
#[verifier::external_body]
pub(crate) fn bitset_count_ones(s: &fixedbitset::FixedBitSet) -> (r: usize)
    ensures
        r == count_true(bits_of(*s)),
{
    s.count_ones(..)
}

} // verus!
