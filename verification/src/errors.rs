use vstd::prelude::*;

verus! {

/// The recoverable failures of the automaton's operations.
#[derive(Clone, Copy, Debug, PartialEq, Eq, Structural)]
pub enum AutomatonError {
    /// A construction or update parameter is outside its allowed range,
    /// such as an even or zero neighborhood size, or a ring narrower than
    /// the rule's neighborhood.
    InvalidParameter,
    /// A neighborhood vector presented for lookup has a length other than
    /// the rule's neighborhood size.
    NeighborhoodLengthMismatch,
    /// A rule-table index lies outside the table.
    IndexOutOfRange,
}

} // verus!
