use acpied::nav::StatefulList;

#[test]
fn advance_from_none_selects_first() {
    let mut l = StatefulList::with_items(vec![10u32, 20, 30]);
    assert_eq!(l.selected, None);
    l.next();
    assert_eq!(l.selected, Some(0));
}

#[test]
fn advance_wraps_past_end() {
    let mut l = StatefulList::with_items(vec![1u32, 2, 3]);
    // One advance selects index 0; three more walk 1, 2 and wrap to 0.
    for _ in 0..4 {
        l.next();
    }
    assert_eq!(l.selected, Some(0));
}

#[test]
fn retreat_from_zero_wraps_to_last() {
    let mut l = StatefulList::with_items(vec![1u32, 2, 3, 4, 5]);
    l.next();
    assert_eq!(l.selected, Some(0));
    l.previous();
    assert_eq!(l.selected, Some(4));
}

#[test]
fn empty_list_navigation_is_a_no_op() {
    let mut l: StatefulList<u32> = StatefulList::with_items(Vec::new());
    l.next();
    assert_eq!(l.selected, None);
    l.previous();
    assert_eq!(l.selected, None);
}

#[test]
fn full_cycle_returns_to_start() {
    let mut l = StatefulList::with_items(vec![7u32, 8, 9]);
    l.next();
    l.next();
    assert_eq!(l.selected, Some(1));
    for _ in 0..3 {
        l.next();
    }
    assert_eq!(l.selected, Some(1));
}
