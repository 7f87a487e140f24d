use relview::list::List;

#[test]
fn down_from_the_last_index_is_a_no_op() {
    let mut l = List::new(vec![10, 20, 30]);
    l.down();
    l.down();
    assert_eq!(l.cursor, 2);
    l.down();
    assert_eq!(l.cursor, 2);
}

#[test]
fn up_from_index_zero_is_a_no_op() {
    let mut l = List::new(vec![10, 20]);
    assert_eq!(l.cursor, 0);
    l.up();
    assert_eq!(l.cursor, 0);
    l.down();
    l.up();
    assert_eq!(l.cursor, 0);
}

#[test]
fn empty_list_navigation_is_safe() {
    let mut l: List<u32> = List::new(vec![]);
    l.down();
    l.up();
    assert_eq!(l.cursor, 0);
    l.confirm();
    assert!(l.confirmed.is_none());
    assert!(l.selected().is_none());
}

#[test]
fn confirm_decouples_browsing_from_activation() {
    let mut l = List::new(vec!["a", "b", "c"]);
    l.down();
    assert!(l.selected().is_none());
    l.confirm();
    assert_eq!(l.confirmed, Some(1));
    assert_eq!(*l.selected().unwrap(), "b");
    l.down();
    // Browsing further does not move the activated selection.
    assert_eq!(*l.selected().unwrap(), "b");
    assert_eq!(l.selected_index(), Some(1));
}

#[test]
fn mark_reflects_the_predicate_at_call_time() {
    let mut l = List::new(vec![1, 2, 3, 4]);
    l.mark(|x: &i32| *x % 2 == 0);
    assert_eq!(l.marked, vec![1, 3]);
    // Re-marking replaces the old marks entirely: no stale mark
    // survives, also after the cursor moved.
    l.down();
    l.up();
    l.mark(|x: &i32| *x > 3);
    assert_eq!(l.marked, vec![3]);
    l.mark(|_x: &i32| false);
    assert_eq!(l.marked, Vec::<usize>::new());
}
