use vstd::prelude::*;
use vstd::arithmetic::power2::{
    pow2, lemma_pow2_pos, lemma_pow2_unfold, lemma_pow2_strictly_increases, lemma2_to64,
};

use crate::bits::{bits_of, bitset_get, bitset_len, bitset_new, bitset_set};
use crate::errors::AutomatonError;

verus! {

/// The table index of a neighborhood bit-vector: the leftmost sampled bit is
/// the least-significant bit of the index, so `encode(b) == sum of b[i] * 2^i`.
pub open spec fn encode(b: Seq<bool>) -> nat
    decreases b.len(),
{
    if b.len() == 0 {
        0
    } else {
        (if b[0] { 1nat } else { 0nat }) + 2 * encode(b.drop_first())
    }
}

/// An encoded neighborhood of `n` bits fits in a table of `2^n` entries.
pub proof fn lemma_encode_bound(b: Seq<bool>)
    ensures
        encode(b) < pow2(b.len()),
    decreases b.len(),
{
    if b.len() == 0 {
        lemma2_to64();
    } else {
        lemma_encode_bound(b.drop_first());
        lemma_pow2_unfold(b.len());
    }
}

/// Powers of two do not decrease.
pub proof fn lemma_pow2_le(e1: nat, e2: nat)
    requires
        e1 <= e2,
    ensures
        pow2(e1) <= pow2(e2),
{
    if e1 < e2 {
        lemma_pow2_strictly_increases(e1, e2);
    }
}

/// A rule table: for each of the `2^r` neighborhoods of `r` cells, the next
/// state of the cell at the center.
pub struct Pattern {
    r: u32,
    outcomes: fixedbitset::FixedBitSet,
}

impl Pattern {
    /// The neighborhood size this rule was built for.
    pub closed spec fn size(self) -> nat {
        self.r as nat
    }

    /// The stored outcomes, indexed by encoded neighborhood.
    pub closed spec fn table(self) -> Seq<bool> {
        bits_of(self.outcomes)
    }

    /// The shape every constructed rule keeps: an odd positive neighborhood
    /// size and one outcome per neighborhood.
    pub open spec fn wf(self) -> bool {
        1 <= self.size() && self.size() % 2 == 1 && self.table().len() == pow2(self.size())
    }

    /// The outcome stored for a neighborhood vector.
    pub open spec fn lookup_spec(self, b: Seq<bool>) -> bool {
        self.table()[encode(b) as int]
    }

    /// Builds the rule for neighborhood size `r`: the all-false neighborhood
    /// (index `0`) maps to `false`, every other neighborhood to `true`.
    /// Rejects an even or zero `r`, and an `r` whose `2^r` outcome slots
    /// cannot be counted in a `usize`.
    pub fn new(r: u32) -> (res: Result<Pattern, AutomatonError>)
        ensures
            match res {
                Ok(p) => r % 2 == 1 && pow2(r as nat) <= usize::MAX && p.wf() && p.size() == r
                    && p.table() == Seq::new(pow2(r as nat), |i: int| i != 0),
                Err(e) => e == AutomatonError::InvalidParameter
                    && (r % 2 == 0 || pow2(r as nat) > usize::MAX),
            },
    {
        if r % 2 == 0 {
            return Err(AutomatonError::InvalidParameter);
        }

        let mut combinations: usize = 1;
        let mut j: u32 = 0;
        proof {
            lemma2_to64();
        }
        while j < r
            invariant
                j <= r,
                combinations == pow2(j as nat),
            decreases r - j,
        {
            proof {
                lemma_pow2_unfold((j + 1) as nat);
            }
            combinations = match combinations.checked_mul(2) {
                Some(c) => c,
                None => {
                    proof {
                        lemma_pow2_le((j + 1) as nat, r as nat);
                    }
                    return Err(AutomatonError::InvalidParameter);
                },
            };
            j = j + 1;
        }

        proof {
            lemma_pow2_pos(r as nat);
        }
        let mut outcomes = bitset_new(combinations);
        let mut i: usize = 1;
        while i < combinations
            invariant
                1 <= i <= combinations,
                bits_of(outcomes).len() == combinations,
                forall|k: int| 0 <= k < combinations ==> bits_of(outcomes)[k] == (0 < k < i),
            decreases combinations - i,
        {
            bitset_set(&mut outcomes, i, true);
            i = i + 1;
        }

        let p = Pattern { r, outcomes };
        proof {
            assert(p.table() =~= Seq::new(pow2(r as nat), |i: int| i != 0));
        }
        Ok(p)
    }

    /// The neighborhood size, as an executable value.
    pub fn neighborhood_size(&self) -> (r: u32)
        ensures
            r == self.size(),
    {
        self.r
    }

    /// Looks up the outcome for a neighborhood vector of length `size()`;
    /// a vector of any other length is rejected.
    pub fn outcome(&self, b: &Vec<bool>) -> (res: Result<bool, AutomatonError>)
        requires
            self.wf(),
        ensures
            b@.len() == self.size() ==> res == Ok::<bool, AutomatonError>(self.lookup_spec(b@)),
            b@.len() != self.size() ==> res == Err::<bool, AutomatonError>(
                AutomatonError::NeighborhoodLengthMismatch,
            ),
    {
        if b.len() != self.r as usize {
            return Err(AutomatonError::NeighborhoodLengthMismatch);
        }

        let table_len = bitset_len(&self.outcomes);
        let mut index: usize = 0;
        let mut i: usize = b.len();
        proof {
            assert(b@.skip(i as int) =~= Seq::<bool>::empty());
        }
        while i > 0
            invariant
                i <= b@.len(),
                b@.len() == self.size(),
                self.wf(),
                table_len == self.table().len(),
                index == encode(b@.skip(i as int)),
            decreases i,
        {
            proof {
                assert(b@.skip(i - 1).drop_first() =~= b@.skip(i as int));
                lemma_encode_bound(b@.skip(i - 1));
                lemma_pow2_le((b@.len() - (i - 1)) as nat, self.size());
            }
            i = i - 1;
            index = 2 * index + (if b[i] { 1 } else { 0 });
        }
        proof {
            assert(b@.skip(0) =~= b@);
            lemma_encode_bound(b@);
        }
        Ok(bitset_get(&self.outcomes, index))
    }

    /// Overwrites the outcome stored at `index`; an index outside the table
    /// is rejected and leaves the table unchanged.
    pub fn set_outcome(&mut self, index: usize, outcome: bool) -> (res: Result<
        (),
        AutomatonError,
    >)
        requires
            old(self).wf(),
        ensures
            final(self).wf(),
            final(self).size() == old(self).size(),
            index < old(self).table().len() ==> res == Ok::<(), AutomatonError>(())
                && final(self).table() == old(self).table().update(index as int, outcome),
            index >= old(self).table().len() ==> res == Err::<(), AutomatonError>(
                AutomatonError::IndexOutOfRange,
            ) && final(self).table() == old(self).table(),
    {
        let table_len = bitset_len(&self.outcomes);
        if index >= table_len {
            return Err(AutomatonError::IndexOutOfRange);
        }
        bitset_set(&mut self.outcomes, index, outcome);
        Ok(())
    }

    /// Reads the outcome stored at `index`; an index outside the table is
    /// rejected.
    pub fn get_outcome(&self, index: usize) -> (res: Result<bool, AutomatonError>)
        requires
            self.wf(),
        ensures
            index < self.table().len() ==> res == Ok::<bool, AutomatonError>(
                self.table()[index as int],
            ),
            index >= self.table().len() ==> res == Err::<bool, AutomatonError>(
                AutomatonError::IndexOutOfRange,
            ),
    {
        let table_len = bitset_len(&self.outcomes);
        if index >= table_len {
            return Err(AutomatonError::IndexOutOfRange);
        }
        Ok(bitset_get(&self.outcomes, index))
    }
}

/// Writing one rule entry and reading the same index back yields exactly the
/// value that was written: `set_outcome` ensures the table of the updated
/// rule, and `get_outcome` at that index returns the written value.
pub proof fn lemma_set_get_round_trip(before: Pattern, after: Pattern, index: int, value: bool)
    requires
        0 <= index < before.table().len(),
        after.table() == before.table().update(index, value),
    ensures
        after.table()[index] == value,
{
}

} // verus!
