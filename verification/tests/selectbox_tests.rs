use promkit::SelectBox;

#[test]
fn prev() {
    let mut b = SelectBox::default();
    b.register_all(vec!["a", "b", "c"]);
    assert!(!b.prev());
    b.idx = 1;
    assert!(b.prev());
}

#[test]
fn next() {
    let mut b = SelectBox::default();
    b.register_all(vec!["a", "b", "c"]);
    assert!(b.next());
    b.idx = b.data.len() - 1;
    assert!(!b.next());
}

#[test]
fn test_selectbox_head_tail_and_get() {
    let mut b = SelectBox::new();
    b.register_all(vec!["a", "b", "c"]);
    assert_eq!(0, b.pos());
    b.to_tail();
    assert_eq!(2, b.pos());
    assert_eq!("c", b.get().text());
    b.to_head();
    assert_eq!(0, b.pos());
    assert_eq!("a", b.get().text());
    assert!(b.get_with(1).is_some());
    assert_eq!("b", b.get_with(1).unwrap().text());
    assert!(b.get_with(3).is_none());
}

#[test]
fn test_selectbox_get_out_of_range_is_empty() {
    let mut b = SelectBox::new();
    b.register("a");
    b.idx = 9;
    assert_eq!("", b.get().text());
}
