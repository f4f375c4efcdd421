//! A one-dimensional binary cellular automaton on a cyclic domain.
//!
//! A [`Universe`] owns one generation of boolean cells arranged on a ring;
//! a [`Pattern`] is a lookup table from an encoded neighborhood bit-vector
//! to the next state of a cell. `Universe::tick` applies a pattern
//! synchronously to every cell, with toroidal wraparound at both ends.

mod bits;
mod errors;
mod pattern;
mod universe;

pub use bits::count_true;
pub use errors::AutomatonError;
pub use pattern::Pattern;
pub use pattern::encode;
pub use pattern::lemma_set_get_round_trip;
pub use universe::Universe;
pub use universe::neighborhood;
pub use universe::next_gen;
pub use universe::seeded_gen;
pub use universe::lemma_seeded_one_active;
pub use universe::lemma_tick_deterministic;
pub use universe::lemma_wraparound;
