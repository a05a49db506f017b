use ray_tracer::tally::sum;

#[test]
fn sum_of_nothing_is_zero() {
    assert_eq!(sum(Vec::new()), 0);
}

#[test]
fn sum_counts_every_entry_and_one_more() {
    assert_eq!(sum(vec![1, 2, 3, 4, 5]), 20);
}

#[test]
fn sum_of_one_entry_is_its_successor() {
    assert_eq!(sum(vec![41]), 42);
}

#[test]
fn sum_takes_negative_entries() {
    assert_eq!(sum(vec![-1, -1, -1]), 0);
    assert_eq!(sum(vec![-10, 3]), -5);
}

#[test]
fn sum_reaches_the_largest_total() {
    assert_eq!(sum(vec![i32::MAX - 1]), i32::MAX);
    assert_eq!(sum(vec![i32::MAX - 3, 0, 0]), i32::MAX);
}

#[test]
fn sum_reaches_the_smallest_total() {
    assert_eq!(sum(vec![i32::MIN, -2]), i32::MIN);
}
