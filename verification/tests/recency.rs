use std::collections::VecDeque;
use winflow::recency::{find_window, order_items, present, toggle_target, touch_mru};
use winflow::state::Item;

fn item(id: u32) -> Item {
    Item {
        id,
        pid: 1,
        owner: "o".to_string(),
        title: "t".to_string(),
        aspect: 1_000_000,
        x: 0,
        y: 0,
        w: 100_000,
        h: 100_000,
        n_same_pid: 1,
    }
}

fn ids(items: &[Item]) -> Vec<u32> {
    items.iter().map(|i| i.id).collect()
}

#[test]
fn order_after_a_to_b() {
    let mut items = vec![item(3), item(1), item(2), item(4)];
    let mut mru = VecDeque::new();
    for id in [2, 1, 3, 4] {
        mru.push_back(id);
    }
    order_items(&mut items, &mru, Some(1), Some(2));
    assert_eq!(ids(&items), vec![1, 2, 3, 4]);
}

#[test]
fn order_after_b_to_a_toggle() {
    let mut items = vec![item(1), item(2), item(3), item(4)];
    let mut mru = VecDeque::new();
    for id in [1, 2, 3, 4] {
        mru.push_back(id);
    }
    order_items(&mut items, &mru, Some(2), Some(1));
    assert_eq!(ids(&items), vec![2, 1, 3, 4]);
}

#[test]
fn order_external_switch() {
    let mut items = vec![item(1), item(2), item(3), item(4)];
    let mut mru = VecDeque::new();
    for id in [4, 3, 1, 2] {
        mru.push_back(id);
    }
    order_items(&mut items, &mru, Some(3), Some(4));
    assert_eq!(ids(&items), vec![3, 4, 1, 2]);
}

#[test]
fn order_first_show() {
    let mut items = vec![item(1), item(2), item(3)];
    order_items(&mut items, &VecDeque::new(), Some(1), Some(1));
    assert_eq!(ids(&items), vec![1, 2, 3]);
}

#[test]
fn touch_mru_moves_to_front() {
    let mut mru: VecDeque<u32> = [1, 2, 3].into_iter().collect();
    touch_mru(&mut mru, 2);
    assert_eq!(mru.iter().copied().collect::<Vec<_>>(), vec![2, 1, 3]);
    touch_mru(&mut mru, 2);
    assert_eq!(mru.iter().copied().collect::<Vec<_>>(), vec![2, 1, 3]);
}

#[test]
fn toggle_target_prefers_prev() {
    let items = vec![item(1), item(2), item(3)];
    assert_eq!(toggle_target(&items, 1, Some(2)), Some(2));
}

#[test]
fn toggle_target_skips_prev_equal_current() {
    let items = vec![item(1), item(2), item(3)];
    assert_eq!(toggle_target(&items, 1, Some(1)), Some(2));
}

#[test]
fn toggle_target_defaults_to_first_other_window() {
    let items = vec![item(1), item(2), item(3)];
    assert_eq!(toggle_target(&items, 1, None), Some(2));
    assert_eq!(toggle_target(&items, 1, Some(99)), Some(2));
    assert_eq!(toggle_target(&items, 2, None), Some(1));
}

#[test]
fn toggle_target_none_for_single_window() {
    let items = vec![item(1)];
    assert_eq!(toggle_target(&items, 1, None), None);
}

#[test]
fn touching_a_new_window_adds_it() {
    let mut mru: VecDeque<u32> = [1, 2].into_iter().collect();
    touch_mru(&mut mru, 9);
    assert_eq!(mru.iter().copied().collect::<Vec<_>>(), vec![9, 1, 2]);
}

#[test]
fn unknown_windows_keep_their_order_at_the_end() {
    let mut items = vec![item(7), item(5), item(6), item(1)];
    let mru: VecDeque<u32> = [1, 42].into_iter().collect();
    order_items(&mut items, &mru, None, None);
    assert_eq!(ids(&items), vec![1, 7, 5, 6]);
    // Ordering again changes nothing.
    order_items(&mut items, &mru, None, None);
    assert_eq!(ids(&items), vec![1, 7, 5, 6]);
}

#[test]
fn selected_then_active_come_first() {
    let mut items = vec![item(1), item(2), item(3), item(4)];
    let mru: VecDeque<u32> = [1, 2].into_iter().collect();
    order_items(&mut items, &mru, Some(4), Some(3));
    assert_eq!(ids(&items), vec![4, 3, 1, 2]);
    // A window that is not there takes no place.
    order_items(&mut items, &mru, Some(99), Some(2));
    assert_eq!(ids(&items), vec![2, 1, 4, 3]);
}

#[test]
fn toggling_goes_back_and_forth() {
    let items = vec![item(1), item(2), item(3)];
    assert_eq!(toggle_target(&items, 3, Some(1)), Some(1));
    assert_eq!(toggle_target(&items, 1, Some(3)), Some(3));
}

#[test]
fn windows_are_found_by_id() {
    let items = vec![item(1), item(2)];
    assert!(present(&items, 2));
    assert!(!present(&items, 3));
    assert_eq!(find_window(&items, 2).map(|i| i.id), Some(2));
    assert!(find_window(&items, 3).is_none());
}
