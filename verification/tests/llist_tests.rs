use wfprust::llist::List;
use wfprust::test::{check_container, init_container, test_linked_list, total_increments, LIMIT, MAX_PER_THREAD, NUM_THREADS};

#[test]
fn new_list_is_empty() {
    let mut list = List::init(0, 4);
    assert!(list.is_empty());
}

#[test]
fn remove_from_empty_list_gives_head() {
    let mut list = List::init(2, 4);
    assert_eq!(list.remove_head(), 2);
    assert_eq!(list.remove_tail(), 2);
    assert!(list.is_empty());
}

#[test]
fn insert_head_then_remove_head_gives_entry_back() {
    let mut list = List::init(0, 5);
    list.insert_tail(1);
    list.insert_tail(2);
    list.insert_head(3);
    assert_eq!(list.remove_head(), 3);
    assert_eq!(list.remove_head(), 1);
    assert_eq!(list.remove_head(), 2);
    assert!(list.is_empty());
}

#[test]
fn insert_tail_then_remove_tail_gives_entry_back() {
    let mut list = List::init(4, 5);
    list.insert_head(0);
    list.insert_tail(3);
    assert_eq!(list.remove_tail(), 3);
    assert_eq!(list.remove_tail(), 0);
    assert_eq!(list.remove_tail(), 4);
}

#[test]
fn tail_to_head_is_first_in_first_out() {
    let mut list = List::init(0, 6);
    for e in 1..6 {
        list.insert_tail(e);
    }
    for e in 1..6 {
        assert_eq!(list.remove_head(), e);
    }
    assert!(list.is_empty());
}

#[test]
fn head_to_head_is_last_in_first_out() {
    let mut list = List::init(0, 6);
    for e in 1..6 {
        list.insert_head(e);
    }
    for e in (1..6).rev() {
        assert_eq!(list.remove_head(), e);
    }
    assert_eq!(list.remove_head(), 0);
}

#[test]
fn removed_entry_can_be_inserted_again() {
    let mut list = List::init(0, 3);
    list.insert_head(1);
    list.insert_head(2);
    let e = list.remove_tail();
    assert_eq!(e, 1);
    list.insert_head(e);
    assert!(!list.is_empty());
    assert_eq!(list.remove_tail(), 2);
    assert_eq!(list.remove_tail(), 1);
    assert!(list.is_empty());
}

#[test]
fn list_self_test_finds_no_fault() {
    assert!(test_linked_list().is_empty());
}

#[test]
fn spin_lock_test_counts_to_the_limit() {
    assert_eq!(MAX_PER_THREAD, 286331153);
    assert_eq!(total_increments(), LIMIT);
    assert_eq!(NUM_THREADS as u64 * MAX_PER_THREAD as u64, u32::MAX as u64);
}

#[test]
fn container_checks_against_the_items_it_was_made_with() {
    let c = init_container(1, 2, 3, 4, 7);
    assert_eq!(c.entry, 7);
    assert!(check_container(&c, 1, 2, 3, 4));
    assert!(!check_container(&c, 1, 2, 3, 5));
    assert!(!check_container(&c, 0, 2, 3, 4));
    assert!(!check_container(&c, 1, 2, -3, 4));
}
