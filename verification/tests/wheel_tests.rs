use survivors_core::events::SimError;
use survivors_core::wheel::WeightedTable;

#[test]
fn popping_an_empty_table_yields_nothing() {
    let mut t = WeightedTable::new();
    assert_eq!(t.pop(), None);
    // It stays empty: a second pop still yields nothing.
    assert_eq!(t.pop(), None);
}

#[test]
fn a_required_draw_from_an_empty_table_is_the_explicit_error() {
    let mut t = WeightedTable::new();
    assert_eq!(t.pop_required(), Err(SimError::EmptyWeightedTable));
}

#[test]
fn pop_returns_a_pushed_entry_and_removes_it() {
    let mut t = WeightedTable::new();
    t.push(10, 7);
    t.push(5, 9);
    let first = t.pop().expect("two entries are in the table");
    assert!(first == (10, 7) || first == (5, 9));
    let second = t.pop().expect("one entry is left");
    assert!(second == (10, 7) || second == (5, 9));
    assert_ne!(first.1, second.1);
    assert_eq!(t.pop(), None);
}

#[test]
fn single_entry_tables_always_yield_that_entry() {
    for _ in 0..50 {
        let mut t = WeightedTable::new();
        t.push(3, 42);
        assert_eq!(t.pop(), Some((3, 42)));
    }
}

#[test]
fn pop_frequencies_follow_the_weights() {
    // Entries weighted 10, 10 and 5: expected frequencies 0.4, 0.4 and 0.2.
    // Each pop removes the drawn entry, so it is pushed back before the next
    // draw. The tolerance is far above the expected statistical noise.
    let trials = 20_000u32;
    let mut counts = [0u32; 3];
    let mut t = WeightedTable::new();
    t.push(10, 0);
    t.push(10, 1);
    t.push(5, 2);
    for _ in 0..trials {
        let (w, v) = t.pop().expect("the table has three entries");
        counts[v as usize] += 1;
        t.push(w, v);
    }
    let expected = [0.4f64, 0.4, 0.2];
    for i in 0..3 {
        let freq = counts[i] as f64 / trials as f64;
        let diff = (freq - expected[i]).abs();
        assert!(
            diff < 0.04,
            "entry {} drawn with frequency {} but expected {}",
            i,
            freq,
            expected[i]
        );
    }
}
