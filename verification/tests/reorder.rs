use aetherment::reorder::move_entry;

#[test]
fn moving_down_shifts_the_rest_up() {
    let mut v = vec!['a', 'b', 'c', 'd'];
    assert!(move_entry(&mut v, 0, 2));
    assert_eq!(v, vec!['b', 'c', 'a', 'd']);
}

#[test]
fn moving_up_shifts_the_rest_down() {
    let mut v = vec!['a', 'b', 'c', 'd'];
    assert!(move_entry(&mut v, 3, 1));
    assert_eq!(v, vec!['a', 'd', 'b', 'c']);
}

#[test]
fn moving_in_place_changes_nothing() {
    let mut v = vec![1, 2, 3];
    assert!(!move_entry(&mut v, 1, 1));
    assert_eq!(v, vec![1, 2, 3]);
}
