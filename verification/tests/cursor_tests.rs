use promkit::CompositeCursor;

#[test]
fn test_composite_forward() {
    let mut cursor = CompositeCursor::new(vec![vec![1, 2], vec![3, 4, 5]], 0);
    assert!(cursor.shift(0, 3)); // 0 -> 3
    assert_eq!(cursor.cross_contents_position(), 3);
}

#[test]
fn test_composite_backward() {
    let mut cursor = CompositeCursor::new(vec![vec![1, 2], vec![3, 4, 5]], 4);
    assert!(cursor.shift(2, 0)); // 4 -> 2
    assert_eq!(cursor.cross_contents_position(), 2);
}

#[test]
fn test_composite_forward_fail() {
    let mut cursor = CompositeCursor::new(vec![vec![1, 2], vec![3, 4, 5]], 4);
    assert!(!cursor.shift(0, 2)); // 4 -> fail, no wrap around
}

#[test]
fn test_composite_backward_fail() {
    let mut cursor = CompositeCursor::new(vec![vec![1, 2], vec![3, 4, 5]], 0);
    assert!(!cursor.shift(1, 0)); // 0 -> fail, can't move backward
}

#[test]
fn test_composite_forward_success() {
    let mut cursor = CompositeCursor::new(vec![vec![1, 2], vec![3, 4, 5]], 2);
    assert!(cursor.shift(0, 1)); // 2 -> 3
    assert_eq!(cursor.cross_contents_position(), 3);
}

#[test]
fn test_composite_backward_success() {
    let mut cursor = CompositeCursor::new(vec![vec![1, 2], vec![3, 4, 5]], 3);
    assert!(cursor.shift(1, 0)); // 3 -> 2
    assert_eq!(cursor.cross_contents_position(), 2);
}

#[test]
fn test_composite_new_clamps_out_of_range_position() {
    let cursor = CompositeCursor::new(vec![vec![1, 2], vec![3, 4, 5]], 100);
    assert_eq!(cursor.cross_contents_position(), 4);
    let empty = CompositeCursor::new(Vec::<Vec<i32>>::new(), 7);
    assert_eq!(empty.cross_contents_position(), 0);
}

#[test]
fn test_composite_bundle_index_and_inner_position() {
    let cursor = CompositeCursor::new(vec![vec![1, 2], vec![3, 4, 5]], 3);
    assert_eq!(cursor.current_bundle_index_and_inner_position(), (1, 1));
    let head = CompositeCursor::new(vec![vec![1, 2], vec![3, 4, 5]], 0);
    assert_eq!(head.current_bundle_index_and_inner_position(), (0, 0));
}

#[test]
fn test_composite_forward_then_backward_roundtrip() {
    let mut cursor = CompositeCursor::new(vec![vec![1, 2], vec![3, 4, 5]], 2);
    assert!(cursor.forward());
    assert!(cursor.backward());
    assert_eq!(cursor.cross_contents_position(), 2);
}

#[test]
fn test_composite_tail_then_forward_is_noop() {
    let mut cursor = CompositeCursor::new(vec![vec![1, 2], vec![3, 4, 5]], 1);
    cursor.move_to_tail();
    assert_eq!(cursor.cross_contents_position(), 4);
    assert!(!cursor.forward());
    assert_eq!(cursor.cross_contents_position(), 4);
}

#[test]
fn test_composite_head_and_shift_net() {
    let mut cursor = CompositeCursor::new(vec![vec![1, 2], vec![3, 4, 5]], 3);
    cursor.move_to_head();
    assert_eq!(cursor.cross_contents_position(), 0);
    // a successful shift nets exactly forward - backward
    assert!(cursor.shift(0, 2));
    assert_eq!(cursor.cross_contents_position(), 2);
    assert!(cursor.shift(1, 2));
    assert_eq!(cursor.cross_contents_position(), 3);
    // a failing shift leaves the position untouched
    assert!(!cursor.shift(0, 5));
    assert_eq!(cursor.cross_contents_position(), 3);
}
