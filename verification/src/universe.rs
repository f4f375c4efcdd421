use vstd::prelude::*;
use vstd::arithmetic::div_mod::{lemma_mod_multiples_vanish, lemma_small_mod};

use crate::bits::{
    bits_of, bitset_count_ones, bitset_get, bitset_len, bitset_new, bitset_set, count_true,
    lemma_count_true_le_len, lemma_count_true_single,
};
use crate::errors::AutomatonError;
use crate::pattern::Pattern;

verus! {

/// The neighborhood of length `2 * radius + 1` sampled around cell `i` on the
/// cyclic generation `cells`, left to right: positions `i - radius` through
/// `i + radius`, each taken modulo the ring width.
pub open spec fn neighborhood(cells: Seq<bool>, i: int, radius: int) -> Seq<bool> {
    Seq::new((2 * radius + 1) as nat, |k: int| cells[(i - radius + k) % (cells.len() as int)])
}

/// The generation that follows `cells` under rule `p`: every cell is replaced
/// synchronously by the rule's outcome for its neighborhood in `cells`.
pub open spec fn next_gen(cells: Seq<bool>, p: Pattern) -> Seq<bool> {
    Seq::new(cells.len(), |i: int| p.lookup_spec(neighborhood(cells, i, (p.size() - 1) / 2)))
}

/// The generation a fresh or resized ring starts from: `2 * span + 1` cells,
/// all inactive but the single cell at index `span + 1`, one past the middle.
pub open spec fn seeded_gen(span: u32) -> Seq<bool> {
    Seq::new((2 * span + 1) as nat, |i: int| i == span + 1)
}

/// One generation of a binary cellular automaton on a cyclic domain of
/// `2 * span + 1` cells.
pub struct Universe {
    span: u32,
    cells: fixedbitset::FixedBitSet,
}

impl View for Universe {
    type V = Seq<bool>;

    closed spec fn view(&self) -> Seq<bool> {
        bits_of(self.cells)
    }
}

impl Universe {
    /// The domain parameter: the ring holds `2 * span + 1` cells.
    pub closed spec fn span_spec(self) -> u32 {
        self.span
    }

    /// The shape every ring keeps: a cell count of `2 * span + 1` that fits
    /// in a `u32`.
    pub open spec fn wf(self) -> bool {
        self.span_spec() <= (u32::MAX - 1) / 2 && self@.len() == 2 * self.span_spec() + 1
    }

    /// A freshly seeded cell buffer for the given span.
    fn seeded_cells(span: u32) -> (c: fixedbitset::FixedBitSet)
        requires
            1 <= span <= (u32::MAX - 1) / 2,
        ensures
            bits_of(c) == seeded_gen(span),
    {
        let size = (2 * span + 1) as usize;
        let mut cells = bitset_new(size);
        let midpoint = (span + 1) as usize;
        bitset_set(&mut cells, midpoint, true);
        proof {
            assert(bits_of(cells) =~= seeded_gen(span));
        }
        cells
    }

    /// A ring with the default span of `200`: `401` cells, all inactive but
    /// the one at index `201`.
    pub fn new() -> (u: Universe)
        ensures
            u.wf(),
            u.span_spec() == 200,
            u@ == seeded_gen(200),
    {
        Universe { span: 200, cells: Self::seeded_cells(200) }
    }

    /// The current domain parameter.
    pub fn span(&self) -> (r: u32)
        ensures
            r == self.span_spec(),
    {
        self.span
    }

    /// Discards the current generation and starts over on a domain of
    /// `2 * span + 1` cells, seeded like a fresh ring.
    pub fn set_span(&mut self, span: u32)
        requires
            1 <= span <= (u32::MAX - 1) / 2,
        ensures
            final(self).wf(),
            final(self).span_spec() == span,
            final(self)@ == seeded_gen(span),
    {
        self.span = span;
        self.cells = Self::seeded_cells(span);
    }

    /// The current generation as a vector of booleans, lowest index first.
    #[verifier::loop_isolation(false)]
    pub fn cells(&self) -> (v: Vec<bool>)
        ensures
            v@ == self@,
    {
        let n = bitset_len(&self.cells);
        let mut v: Vec<bool> = Vec::new();
        let mut i: usize = 0;
        while i < n
            invariant
                i <= n,
                v@.len() == i,
                forall|j: int| 0 <= j < i ==> v@[j] == self@[j],
            decreases n - i,
        {
            v.push(bitset_get(&self.cells, i));
            i = i + 1;
        }
        proof {
            assert(v@ =~= self@);
        }
        v
    }

    /// How many cells of the current generation are active.
    pub fn count_active(&self) -> (r: u32)
        requires
            self.wf(),
        ensures
            r == count_true(self@),
    {
        proof {
            lemma_count_true_le_len(self@);
        }
        let ones = bitset_count_ones(&self.cells);
        ones as u32
    }

    /// Overwrites the whole generation with the given values: cell `i` takes
    /// `draws[i]`. The span is kept; one value per cell is demanded.
    #[verifier::loop_isolation(false)]
    pub fn fill(&mut self, draws: &Vec<bool>)
        requires
            draws@.len() == old(self)@.len(),
        ensures
            final(self)@ == draws@,
            final(self).span_spec() == old(self).span_spec(),
    {
        let width = bitset_len(&self.cells);
        let mut i: usize = 0;
        while i < width
            invariant
                i <= width,
                self.span_spec() == old(self).span_spec(),
                self@.len() == old(self)@.len(),
                width == self@.len(),
                forall|j: int| 0 <= j < i ==> self@[j] == draws@[j],
            decreases width - i,
        {
            bitset_set(&mut self.cells, i, draws[i]);
            i = i + 1;
        }
        proof {
            assert(self@ =~= draws@);
        }
    }

    /// Overwrites every cell independently with a draw from the thread-local
    /// random source: one draw per cell, in index order, handed to `fill`.
    /// Nothing is promised of the drawn values; the width and the span are
    /// kept.
    #[verifier::loop_isolation(false)]
    pub fn randomize(&mut self)
        ensures
            final(self).span_spec() == old(self).span_spec(),
            final(self)@.len() == old(self)@.len(),
    {
        let width = bitset_len(&self.cells);
        let mut draws: Vec<bool> = Vec::new();
        let mut i: usize = 0;
        while i < width
            invariant
                i <= width,
                draws@.len() == i,
            decreases width - i,
        {
            draws.push(random_bool());
            i = i + 1;
        }
        self.fill(&draws);
    }

    /// Advances the ring one generation under `pattern`, synchronously: the
    /// new value of every cell is the rule's outcome for that cell's
    /// neighborhood in the old generation, with wraparound at both ends. A
    /// ring narrower than the rule's neighborhood is rejected unchanged.
    #[verifier::loop_isolation(false)]
    pub fn tick(&mut self, pattern: &Pattern) -> (res: Result<(), AutomatonError>)
        requires
            old(self).wf(),
            pattern.wf(),
        ensures
            final(self).wf(),
            final(self).span_spec() == old(self).span_spec(),
            pattern.size() <= old(self)@.len() ==> res == Ok::<(), AutomatonError>(())
                && final(self)@ == next_gen(old(self)@, *pattern),
            pattern.size() > old(self)@.len() ==> res == Err::<(), AutomatonError>(
                AutomatonError::InvalidParameter,
            ) && final(self)@ == old(self)@,
    {
        let width = bitset_len(&self.cells);
        let r = pattern.neighborhood_size();
        let rs = ((r - 1) / 2) as usize;
        if (r as usize) > width {
            return Err(AutomatonError::InvalidParameter);
        }

        let mut next: Vec<bool> = Vec::new();
        let mut i: usize = 0;
        while i < width
            invariant
                i <= width,
                next@.len() == i,
                forall|j: int| 0 <= j < i ==> next@[j] == next_gen(self@, *pattern)[j],
            decreases width - i,
        {
            let mut bits: Vec<bool> = Vec::new();
            let mut k: usize = 0;
            while k < r as usize
                invariant
                    k <= r,
                    i < width,
                    bits@.len() == k,
                    forall|j: int| 0 <= j < k ==> bits@[j] == neighborhood(
                        self@,
                        i as int,
                        rs as int,
                    )[j],
                decreases r - k,
            {
                let idx64 = (i as u64) + (width as u64) - (rs as u64) + (k as u64);
                let idx = (idx64 % (width as u64)) as usize;
                proof {
                    lemma_mod_multiples_vanish(1, i - rs + k, width as int);
                }
                bits.push(bitset_get(&self.cells, idx));
                k = k + 1;
            }
            proof {
                assert(bits@ =~= neighborhood(self@, i as int, rs as int));
            }
            let value = match pattern.outcome(&bits) {
                Ok(v) => v,
                Err(_) => {
                    proof {
                        assert(false);
                    }
                    false
                },
            };
            next.push(value);
            i = i + 1;
        }

        let ghost previous = self@;
        let mut w: usize = 0;
        while w < width
            invariant
                w <= width,
                self.span_spec() == old(self).span_spec(),
                self@.len() == previous.len(),
                forall|j: int| 0 <= j < w ==> self@[j] == next@[j],
                forall|j: int| w <= j < width ==> self@[j] == previous[j],
            decreases width - w,
        {
            bitset_set(&mut self.cells, w, next[w]);
            w = w + 1;
        }
        proof {
            assert(self@ =~= next@);
            assert(next@ =~= next_gen(previous, *pattern));
        }
        Ok(())
    }
}

/// Relies on `rand::random::<bool>`: one draw from the thread-local
/// generator; nothing is promised of the value.
#[verifier::external_body]
fn random_bool() -> bool {
    rand::random::<bool>()
}

/// Advancing a generation is a pure function of the generation and the
/// rule's content: two rings holding equal generations advance to equal
/// generations under rules of equal size and table, as `tick` ensures each
/// result equals `next_gen` of its input.
pub proof fn lemma_tick_deterministic(g1: Seq<bool>, g2: Seq<bool>, p1: Pattern, p2: Pattern)
    requires
        g1 == g2,
        p1.size() == p2.size(),
        p1.table() == p2.table(),
    ensures
        next_gen(g1, p1) == next_gen(g2, p2),
{
    assert(next_gen(g1, p1) =~= next_gen(g2, p2));
}

/// A freshly seeded generation holds exactly one active cell, whatever the
/// span: construction and every resize leave an active count of one on a
/// ring of `2 * span + 1` cells.
pub proof fn lemma_seeded_one_active(span: u32)
    requires
        span >= 1,
    ensures
        seeded_gen(span).len() == 2 * span + 1,
        count_true(seeded_gen(span)) == 1,
{
    lemma_count_true_single(seeded_gen(span), span + 1);
}

/// Toroidal wraparound: the first cell's left-hand neighbors are the last
/// `radius` cells of the ring, and the last cell's right-hand neighbors are
/// the first `radius` cells.
pub proof fn lemma_wraparound(cells: Seq<bool>, radius: int)
    requires
        0 <= radius,
        2 * radius + 1 <= cells.len(),
    ensures
        forall|k: int| 0 <= k < radius ==> neighborhood(cells, 0, radius)[k] == cells[cells.len()
            - radius + k],
        forall|k: int| 0 <= k < radius ==> neighborhood(cells, cells.len() - 1, radius)[radius + 1
            + k] == cells[k],
{
    let w = cells.len() as int;
    assert forall|k: int| 0 <= k < radius implies neighborhood(cells, 0, radius)[k] == cells[w
        - radius + k] by {
        lemma_mod_multiples_vanish(1, k - radius, w);
        lemma_small_mod((w + k - radius) as nat, w as nat);
    }
    assert forall|k: int| 0 <= k < radius implies neighborhood(cells, w - 1, radius)[radius + 1 + k]
        == cells[k] by {
        lemma_mod_multiples_vanish(1, k, w);
        lemma_small_mod(k as nat, w as nat);
    }
}

} // verus!
