use loadtest::sorting::sort_ascending;

#[test]
fn sorting_puts_the_shortest_first() {
    let mut nanos = vec![30u128, 10, 20, 10, 0, u128::MAX];
    sort_ascending(&mut nanos);
    assert_eq!(nanos, vec![0, 10, 10, 20, 30, u128::MAX]);
}

#[test]
fn sorting_keeps_what_is_sorted() {
    let mut nanos: Vec<u128> = vec![];
    sort_ascending(&mut nanos);
    assert!(nanos.is_empty());
    let mut nanos = vec![1u128, 2, 3];
    sort_ascending(&mut nanos);
    assert_eq!(nanos, vec![1, 2, 3]);
}
