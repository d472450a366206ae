use winflow::keys::{FLAG_COMMAND, KEY_GRAVE, KEY_TAB};
use winflow::layout::Dir;
use winflow::state::{
    clock_after, free_tag_slot, has_elapsed, hotkey_app, hotkey_space, Core, Hotkey, Item, Mode,
};

fn item(id: u32) -> Item {
    Item {
        id,
        pid: 1,
        owner: "o".to_string(),
        title: "t".to_string(),
        aspect: 1_000_000,
        x: 0,
        y: 0,
        w: 100_000,
        h: 100_000,
        n_same_pid: 1,
    }
}

#[test]
fn tags_fill_in_order() {
    let mut tags = [None, None, None];
    assert_eq!(free_tag_slot(&tags, |_| true), Some(0));
    tags[0] = Some(1);
    assert_eq!(free_tag_slot(&tags, |_| true), Some(1));
    tags[1] = Some(2);
    assert_eq!(free_tag_slot(&tags, |_| true), Some(2));
    tags[2] = Some(3);
    assert_eq!(free_tag_slot(&tags, |_| true), None);
}

#[test]
fn closed_window_frees_lowest_slot_without_compaction() {
    let tags = [Some(1), Some(2), Some(3)];
    assert_eq!(free_tag_slot(&tags, |id| id != 1), Some(0));
    let tags = [Some(1), Some(2), Some(3)];
    assert_eq!(free_tag_slot(&tags, |id| id != 2), Some(1));
}

#[test]
fn all_slots_live_means_full() {
    let tags = [Some(1), Some(2), Some(3)];
    assert_eq!(free_tag_slot(&tags, |_| true), None);
}

#[test]
fn tag_of_returns_one_based_number() {
    let mut core = Core::new(true, 0);
    assert_eq!(core.tag_of(7), None);
    core.tags[0] = Some(7);
    core.tags[2] = Some(9);
    assert_eq!(core.tag_of(7), Some(1));
    assert_eq!(core.tag_of(9), Some(3));
    assert_eq!(core.tag_of(42), None);
}

#[test]
fn new_core_is_hidden_and_empty() {
    let core = Core::new(false, 5_000_000);
    assert!(!core.visible);
    assert_eq!(core.mode, Mode::Space);
    assert_eq!(core.selection, 0);
    assert_eq!(core.quick_delay_ms, 80);
    assert_eq!(core.quick_deadline, 5_000_000);
    assert_eq!(core.capture_interval_ms, 45_000);
    assert!(!core.wrap);
    assert!(core.items.is_empty() && core.tracked_ids.is_empty());
}

#[test]
fn selection_moves_in_a_circle() {
    let mut core = Core::new(true, 0);
    core.nav_next();
    core.nav_prev();
    assert_eq!(core.selection, 0);
    core.items = vec![item(1), item(2), item(3)];
    core.nav_prev();
    assert_eq!(core.selection, 2);
    core.nav_next();
    assert_eq!(core.selection, 0);
    core.nav_next();
    assert_eq!(core.selection, 1);
}

#[test]
fn without_a_grid_only_the_list_is_walked() {
    let mut core = Core::new(true, 0);
    core.nav_dir(Dir::Next);
    assert_eq!(core.selection, 0);
    core.items = vec![item(1), item(2)];
    core.nav_dir(Dir::Down);
    assert_eq!(core.selection, 0);
    core.nav_dir(Dir::Prev);
    assert_eq!(core.selection, 1);
    core.nav_dir(Dir::Next);
    assert_eq!(core.selection, 0);
}

#[test]
fn hotkeys_are_fixed() {
    assert_eq!(hotkey_space(), Hotkey { mods: FLAG_COMMAND, keycode: KEY_TAB });
    assert_eq!(hotkey_app(), Hotkey { mods: FLAG_COMMAND, keycode: KEY_GRAVE });
}

#[test]
fn clock_arithmetic() {
    assert!(has_elapsed(5_000_000, 2_000_000, 3));
    assert!(!has_elapsed(5_000_000, 2_000_001, 3));
    assert!(!has_elapsed(1, 2, 1));
    assert_eq!(clock_after(1, 2), 2_000_001);
    assert_eq!(clock_after(u64::MAX - 1, 1), u64::MAX);
    assert_eq!(clock_after(0, u64::MAX), u64::MAX);
}
