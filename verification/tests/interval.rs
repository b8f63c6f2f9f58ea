use pathtracer::interval::Interval;

#[test]
fn new_keeps_both_ends() {
    let range = Interval::new(-3, 8);
    assert_eq!(range.low, -3);
    assert_eq!(range.high, 8);
}

#[test]
fn contains_is_closed_at_both_ends() {
    let range = Interval::new(-3, 8);
    assert!(range.contains(-3));
    assert!(range.contains(8));
    assert!(range.contains(0));
    assert!(!range.contains(-4));
    assert!(!range.contains(9));
}

#[test]
fn contains_of_a_single_key() {
    let range = Interval::new(5, 5);
    assert!(range.contains(5));
    assert!(!range.contains(4));
    assert!(!range.contains(6));
}

#[test]
fn contains_nothing_when_ends_are_crossed() {
    let range = Interval::new(8, -3);
    assert!(!range.contains(-3));
    assert!(!range.contains(0));
    assert!(!range.contains(8));
}

#[test]
fn contains_reaches_the_ends_of_the_key_range() {
    let range = Interval::new(i64::MIN, i64::MAX);
    assert!(range.contains(i64::MIN));
    assert!(range.contains(i64::MAX));
    assert!(range.contains(0));
}

#[test]
fn shrink_right_moves_only_the_upper_end() {
    let mut range = Interval::new(1, 100);
    range.shrink_right(40);
    assert_eq!(range, Interval::new(1, 40));
    assert!(range.contains(40));
    assert!(!range.contains(41));
    assert!(range.contains(1));
}

#[test]
fn shrink_right_narrows_step_by_step() {
    let mut range = Interval::new(0, 50);
    let mut held_before: Vec<i64> = (-5..60).filter(|key| range.contains(*key)).collect();
    for end in [30, 30, 12, 0] {
        range.shrink_right(end);
        let held: Vec<i64> = (-5..60).filter(|key| range.contains(*key)).collect();
        assert!(held.iter().all(|key| held_before.contains(key)));
        assert!(held.iter().all(|key| *key <= end));
        held_before = held;
    }
    assert_eq!(held_before, vec![0]);
}

#[test]
fn shrink_right_below_the_lower_end_leaves_nothing() {
    let mut range = Interval::new(10, 20);
    range.shrink_right(9);
    assert_eq!(range.low, 10);
    assert_eq!(range.high, 9);
    assert!(!range.contains(9));
    assert!(!range.contains(10));
}
