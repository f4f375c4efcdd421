use ring_automaton::{AutomatonError, Pattern, Universe};

// With neighborhood size 3, the table index of a neighborhood
// `[left, center, right]` is `left + 2 * center + 4 * right`.
fn index_of(left: bool, center: bool, right: bool) -> usize {
    (left as usize) + 2 * (center as usize) + 4 * (right as usize)
}

#[test]
fn pattern_default_table() {
    let p = Pattern::new(3).unwrap();
    assert_eq!(p.get_outcome(0).unwrap(), false);
    for index in 1..8 {
        assert_eq!(p.get_outcome(index).unwrap(), true);
    }
}

#[test]
fn pattern_rejects_even_or_zero_size() {
    assert!(matches!(Pattern::new(0), Err(AutomatonError::InvalidParameter)));
    assert!(matches!(Pattern::new(2), Err(AutomatonError::InvalidParameter)));
    assert!(matches!(Pattern::new(8), Err(AutomatonError::InvalidParameter)));
}

#[test]
fn pattern_set_get_round_trip() {
    let mut p = Pattern::new(3).unwrap();
    for index in 0..8 {
        p.set_outcome(index, index % 3 == 0).unwrap();
        assert_eq!(p.get_outcome(index).unwrap(), index % 3 == 0);
    }
    // Earlier writes stay behind later writes to other indices.
    for index in 0..8 {
        assert_eq!(p.get_outcome(index).unwrap(), index % 3 == 0);
    }
}

#[test]
fn pattern_index_out_of_range() {
    let mut p = Pattern::new(3).unwrap();
    assert!(matches!(p.get_outcome(8), Err(AutomatonError::IndexOutOfRange)));
    assert!(matches!(p.set_outcome(8, true), Err(AutomatonError::IndexOutOfRange)));
    // The failed write left the table unchanged.
    assert_eq!(p.get_outcome(7).unwrap(), true);
}

#[test]
fn pattern_outcome_encoding() {
    let mut p = Pattern::new(3).unwrap();
    // Make the table the identity on the center bit, then flip one entry so
    // a lookup tells the encoded index apart from every other index.
    for index in 0..8 {
        p.set_outcome(index, false).unwrap();
    }
    p.set_outcome(index_of(true, false, false), true).unwrap();
    assert_eq!(p.outcome(&vec![true, false, false]).unwrap(), true);
    assert_eq!(p.outcome(&vec![false, true, false]).unwrap(), false);
    assert_eq!(p.outcome(&vec![false, false, true]).unwrap(), false);
}

#[test]
fn pattern_outcome_length_mismatch() {
    let p = Pattern::new(3).unwrap();
    assert!(matches!(
        p.outcome(&vec![true, false]),
        Err(AutomatonError::NeighborhoodLengthMismatch)
    ));
    assert!(matches!(
        p.outcome(&vec![true, false, true, false]),
        Err(AutomatonError::NeighborhoodLengthMismatch)
    ));
}

#[test]
fn universe_new_seed() {
    let u = Universe::new();
    assert_eq!(u.span(), 200);
    let cells = u.cells();
    assert_eq!(cells.len(), 401);
    assert_eq!(u.count_active(), 1);
    assert_eq!(cells[201], true);
    assert_eq!(cells[200], false);
}

#[test]
fn set_span_reseeds() {
    let mut u = Universe::new();
    u.set_span(5);
    assert_eq!(u.span(), 5);
    let cells = u.cells();
    assert_eq!(cells.len(), 11);
    assert_eq!(u.count_active(), 1);
    assert_eq!(cells[6], true);
}

#[test]
fn tick_default_rule_width_three() {
    // Width 3, one active cell: every neighborhood is non-zero, and the
    // default rule maps every non-zero index to an active cell.
    let mut u = Universe::new();
    u.set_span(1);
    assert_eq!(u.cells(), vec![false, false, true]);
    let p = Pattern::new(3).unwrap();
    u.tick(&p).unwrap();
    assert_eq!(u.cells(), vec![true, true, true]);
}

#[test]
fn tick_shift_rule_wraps_around() {
    // A rule that copies the left-hand neighbor shifts the generation one
    // step to the right; the active cell wraps from the last index to 0.
    let mut shift = Pattern::new(3).unwrap();
    for index in 0..8 {
        shift.set_outcome(index, index % 2 == 1).unwrap();
    }
    let mut u = Universe::new();
    u.set_span(2);
    assert_eq!(u.cells(), vec![false, false, false, true, false]);
    u.tick(&shift).unwrap();
    assert_eq!(u.cells(), vec![false, false, false, false, true]);
    u.tick(&shift).unwrap();
    assert_eq!(u.cells(), vec![true, false, false, false, false]);
    u.tick(&shift).unwrap();
    assert_eq!(u.cells(), vec![false, true, false, false, false]);
}

#[test]
fn tick_is_deterministic() {
    let mut rule = Pattern::new(3).unwrap();
    rule.set_outcome(3, false).unwrap();
    rule.set_outcome(5, false).unwrap();
    let mut a = Universe::new();
    let mut b = Universe::new();
    for _ in 0..10 {
        a.tick(&rule).unwrap();
        b.tick(&rule).unwrap();
    }
    assert_eq!(a.cells(), b.cells());
}

#[test]
fn tick_rejects_narrow_ring() {
    let mut u = Universe::new();
    u.set_span(1);
    let p = Pattern::new(5).unwrap();
    let before = u.cells();
    assert!(matches!(u.tick(&p), Err(AutomatonError::InvalidParameter)));
    assert_eq!(u.cells(), before);
}

#[test]
fn tick_width_five_rule_five() {
    // Neighborhood as wide as the whole ring: every cell sees every cell
    // once, so under the default rule a single active cell activates all.
    let mut u = Universe::new();
    u.set_span(2);
    let p = Pattern::new(5).unwrap();
    u.tick(&p).unwrap();
    assert_eq!(u.cells(), vec![true, true, true, true, true]);
}

#[test]
fn fill_overwrites_every_cell() {
    let mut u = Universe::new();
    u.set_span(2);
    let draws = vec![true, false, true, false, true];
    u.fill(&draws);
    assert_eq!(u.cells(), draws);
    assert_eq!(u.count_active(), 3);
    assert_eq!(u.span(), 2);
}

#[test]
fn randomize_keeps_width_and_span() {
    let mut u = Universe::new();
    u.set_span(10);
    u.randomize();
    assert_eq!(u.span(), 10);
    assert_eq!(u.cells().len(), 21);
}

#[test]
fn randomize_mean_activity() {
    // Width 401, unbiased cells: the mean active count over many trials
    // stays near 200.5. The bound below is over seven standard deviations
    // away from the mean of the summed counts.
    let mut u = Universe::new();
    let trials = 50u32;
    let mut total: u64 = 0;
    for _ in 0..trials {
        u.randomize();
        total += u.count_active() as u64;
    }
    assert!(total >= 9500, "active counts summed too low: {total}");
    assert!(total <= 10550, "active counts summed too high: {total}");
}
