use winflow::keys::{
    EVENT_FLAGS_CHANGED, EVENT_KEY_DOWN, FLAG_ALTERNATE, FLAG_COMMAND, FLAG_SHIFT, KEY_2,
    KEY_ESCAPE, KEY_GRAVE, KEY_H, KEY_L, KEY_P, KEY_RETURN, KEY_TAB,
};
use winflow::state::{Core, Item, MainCmd, Mode};
use winflow::tap::{poll_quick_timer, TapCtx};

const MS: u64 = 1_000_000;

/// An event type that the tap does not handle: a key release.
const KEY_UP: u32 = 11;

fn item(id: u32) -> Item {
    Item {
        id,
        pid: 1,
        owner: "o".to_string(),
        title: "t".to_string(),
        aspect: 1_000_000,
        x: 0,
        y: 0,
        w: 100_000,
        h: 100_000,
        n_same_pid: 1,
    }
}

/// A hidden switcher with the command key held.
fn held() -> (TapCtx, Core) {
    let mut tap = TapCtx::new();
    let mut core = Core::new(true, 0);
    let r = tap.handle(&mut core, EVENT_FLAGS_CHANGED, 0, FLAG_COMMAND, 0);
    assert!(!r.swallow && r.cmd.is_none());
    assert!(core.cmd_held);
    (tap, core)
}

/// A visible switcher with three entries.
fn shown() -> (TapCtx, Core) {
    let (tap, mut core) = held();
    core.visible = true;
    core.items = vec![item(10), item(20), item(30)];
    (tap, core)
}

#[test]
fn quick_tap_switches_without_overlay() {
    let (mut tap, mut core) = held();
    let r = tap.handle(&mut core, EVENT_KEY_DOWN, KEY_TAB, FLAG_COMMAND, 0);
    assert!(r.swallow && r.cmd.is_none());
    assert!(core.quick_pending);
    assert!(poll_quick_timer(&mut core, 79 * MS).is_none());
    let r = tap.handle(&mut core, EVENT_FLAGS_CHANGED, 0, 0, 79 * MS);
    assert!(!r.swallow);
    assert!(matches!(r.cmd, Some(MainCmd::QuickSwitch(Mode::Space))));
    assert!(!core.quick_pending && !core.cmd_held);
    // The key is up: nothing more happens.
    let r = tap.handle(&mut core, EVENT_FLAGS_CHANGED, 0, FLAG_SHIFT, 80 * MS);
    assert!(r.cmd.is_none());
}

#[test]
fn holding_shows_the_overlay_once() {
    let (mut tap, mut core) = held();
    tap.handle(&mut core, EVENT_KEY_DOWN, KEY_GRAVE, FLAG_COMMAND, 0);
    assert!(matches!(poll_quick_timer(&mut core, 80 * MS), Some(MainCmd::Show(Mode::App, true))));
    assert!(poll_quick_timer(&mut core, 100 * MS).is_none());
    assert!(core.quick_show_dispatched && core.quick_pending);
    // Released while the overlay is loading: a quick switch.
    let r = tap.handle(&mut core, EVENT_FLAGS_CHANGED, 0, 0, 120 * MS);
    assert!(matches!(r.cmd, Some(MainCmd::QuickSwitch(Mode::App))));
    assert!(!core.quick_pending && !core.quick_show_dispatched);
}

#[test]
fn hotkey_works_again_after_a_release_while_loading() {
    let (mut tap, mut core) = held();
    tap.handle(&mut core, EVENT_KEY_DOWN, KEY_TAB, FLAG_COMMAND, 0);
    assert!(poll_quick_timer(&mut core, 90 * MS).is_some());
    tap.handle(&mut core, EVENT_FLAGS_CHANGED, 0, 0, 120 * MS);
    // A hold shows the overlay again.
    tap.handle(&mut core, EVENT_FLAGS_CHANGED, 0, FLAG_COMMAND, 200 * MS);
    tap.handle(&mut core, EVENT_KEY_DOWN, KEY_GRAVE, FLAG_COMMAND, 210 * MS);
    assert!(core.quick_pending && !core.quick_show_dispatched);
    assert_eq!((core.quick_mode, core.quick_deadline), (Mode::App, 290 * MS));
    assert!(poll_quick_timer(&mut core, 289 * MS).is_none());
    assert!(matches!(poll_quick_timer(&mut core, 290 * MS), Some(MainCmd::Show(Mode::App, true))));
    tap.handle(&mut core, EVENT_FLAGS_CHANGED, 0, 0, 300 * MS);
    // And a tap switches.
    tap.handle(&mut core, EVENT_FLAGS_CHANGED, 0, FLAG_COMMAND, 400 * MS);
    tap.handle(&mut core, EVENT_KEY_DOWN, KEY_TAB, FLAG_COMMAND, 410 * MS);
    let r = tap.handle(&mut core, EVENT_FLAGS_CHANGED, 0, 0, 420 * MS);
    assert!(matches!(r.cmd, Some(MainCmd::QuickSwitch(Mode::Space))));
}

#[test]
fn repeated_presses_keep_the_deadline() {
    let (mut tap, mut core) = held();
    tap.handle(&mut core, EVENT_KEY_DOWN, KEY_TAB, FLAG_COMMAND, 0);
    tap.handle(&mut core, EVENT_KEY_DOWN, KEY_TAB, FLAG_COMMAND, 70 * MS);
    assert_eq!(core.quick_deadline, 80 * MS);
    // Another hotkey starts anew.
    tap.handle(&mut core, EVENT_KEY_DOWN, KEY_GRAVE, FLAG_COMMAND, 75 * MS);
    assert_eq!(core.quick_deadline, 155 * MS);
    assert_eq!(core.quick_mode, Mode::App);
}

#[test]
fn loading_overlay_is_not_armed_again() {
    let (mut tap, mut core) = held();
    tap.handle(&mut core, EVENT_KEY_DOWN, KEY_TAB, FLAG_COMMAND, 0);
    poll_quick_timer(&mut core, 90 * MS);
    tap.handle(&mut core, EVENT_KEY_DOWN, KEY_GRAVE, FLAG_COMMAND, 95 * MS);
    assert_eq!(core.quick_mode, Mode::Space);
    assert_eq!(core.quick_deadline, 80 * MS);
}

#[test]
fn timer_needs_the_key_held() {
    let (mut tap, mut core) = held();
    tap.handle(&mut core, EVENT_KEY_DOWN, KEY_TAB, FLAG_COMMAND, 0);
    core.cmd_held = false;
    assert!(poll_quick_timer(&mut core, 500 * MS).is_none());
}

#[test]
fn release_activates_the_selection() {
    let (mut tap, mut core) = shown();
    tap.handle(&mut core, EVENT_KEY_DOWN, KEY_TAB, FLAG_COMMAND, 0);
    assert_eq!(core.selection, 1);
    let r = tap.handle(&mut core, EVENT_FLAGS_CHANGED, 0, 0, MS);
    assert!(matches!(r.cmd, Some(MainCmd::Activate(1))));
}

#[test]
fn release_with_nothing_up_cancels_a_show() {
    let (mut tap, mut core) = held();
    let r = tap.handle(&mut core, EVENT_KEY_DOWN, KEY_TAB, FLAG_COMMAND | FLAG_SHIFT, 0);
    assert!(r.swallow);
    assert!(matches!(r.cmd, Some(MainCmd::ShowBackwards(Mode::Space))));
    let r = tap.handle(&mut core, EVENT_FLAGS_CHANGED, 0, FLAG_SHIFT, MS);
    assert!(matches!(r.cmd, Some(MainCmd::Hide)));
}

#[test]
fn overlay_swallows_every_key() {
    let (mut tap, mut core) = shown();
    for code in 0..200u16 {
        for flags in [0, FLAG_COMMAND, FLAG_ALTERNATE, FLAG_COMMAND | FLAG_SHIFT] {
            let r = tap.handle(&mut core, EVENT_KEY_DOWN, code, flags, 0);
            assert!(r.swallow, "{} {}", code, flags);
        }
    }
}

#[test]
fn plain_typing_passes() {
    let mut tap = TapCtx::new();
    let mut core = Core::new(true, 0);
    for code in 0..200u16 {
        for flags in [0, FLAG_SHIFT, FLAG_ALTERNATE] {
            let r = tap.handle(&mut core, EVENT_KEY_DOWN, code, flags, 0);
            assert!(!r.swallow && r.cmd.is_none());
        }
    }
    let r = tap.handle(&mut core, KEY_UP, KEY_TAB, FLAG_COMMAND, 0);
    assert!(!r.swallow && r.cmd.is_none());
    // Other shortcuts pass, too.
    let r = tap.handle(&mut core, EVENT_KEY_DOWN, KEY_TAB, FLAG_COMMAND | FLAG_ALTERNATE, 0);
    assert!(!r.swallow);
}

#[test]
fn overlay_keys() {
    let (mut tap, mut core) = shown();
    let r = tap.handle(&mut core, EVENT_KEY_DOWN, KEY_TAB, FLAG_COMMAND | FLAG_SHIFT, 0);
    assert!(matches!(r.cmd, Some(MainCmd::Redraw)));
    assert_eq!(core.selection, 2);
    let r = tap.handle(&mut core, EVENT_KEY_DOWN, KEY_ESCAPE, FLAG_COMMAND, 0);
    assert!(matches!(r.cmd, Some(MainCmd::Hide)));
    let r = tap.handle(&mut core, EVENT_KEY_DOWN, KEY_RETURN, FLAG_COMMAND, 0);
    assert!(matches!(r.cmd, Some(MainCmd::Activate(2))));
    // Without a grid a step in the grid moves nothing.
    let r = tap.handle(&mut core, EVENT_KEY_DOWN, KEY_H, FLAG_COMMAND, 0);
    assert!(matches!(r.cmd, Some(MainCmd::Redraw)));
    let r = tap.handle(&mut core, EVENT_KEY_DOWN, KEY_L, FLAG_COMMAND, 0);
    assert!(matches!(r.cmd, Some(MainCmd::Redraw)));
    assert_eq!(core.selection, 2);
    // The other switcher's hotkey arms it.
    tap.handle(&mut core, EVENT_KEY_DOWN, KEY_GRAVE, FLAG_COMMAND, 0);
    assert!(core.quick_pending);
}

#[test]
fn tag_hotkey_cancels_a_pending_tap() {
    let (mut tap, mut core) = held();
    tap.handle(&mut core, EVENT_KEY_DOWN, KEY_TAB, FLAG_COMMAND, 0);
    let r = tap.handle(&mut core, EVENT_KEY_DOWN, KEY_2, FLAG_COMMAND | FLAG_SHIFT, MS);
    assert!(r.swallow);
    assert!(matches!(r.cmd, Some(MainCmd::ActivateTag(2))));
    assert!(poll_quick_timer(&mut core, 900 * MS).is_none());
    let r = tap.handle(&mut core, EVENT_FLAGS_CHANGED, 0, 0, 901 * MS);
    assert!(matches!(r.cmd, Some(MainCmd::Hide)));
}

#[test]
fn tag_key_has_to_be_pressed_twice() {
    let (mut tap, mut core) = shown();
    core.selection = 1;
    let r = tap.handle(&mut core, EVENT_KEY_DOWN, KEY_P, FLAG_COMMAND, 0);
    match r.cmd {
        Some(MainCmd::TagHint(t)) => {
            assert_eq!(t, "再按一次 P 添加/移除标签（⌘⇧1-3 快速切换）");
        }
        other => panic!("{:?}", other),
    }
    let r = tap.handle(&mut core, EVENT_KEY_DOWN, KEY_P, FLAG_COMMAND, 400 * MS);
    assert!(matches!(r.cmd, Some(MainCmd::ToggleTag(20))));
    // A third press begins anew; a late fourth one is no double press.
    let r = tap.handle(&mut core, EVENT_KEY_DOWN, KEY_P, FLAG_COMMAND, 401 * MS);
    assert!(matches!(r.cmd, Some(MainCmd::TagHint(_))));
    let r = tap.handle(&mut core, EVENT_KEY_DOWN, KEY_P, FLAG_COMMAND, 802 * MS);
    assert!(matches!(r.cmd, Some(MainCmd::TagHint(_))));
    // With no entry there is nothing to tag.
    core.items.clear();
    core.selection = 0;
    let r = tap.handle(&mut core, EVENT_KEY_DOWN, KEY_P, FLAG_COMMAND, 803 * MS);
    assert!(r.swallow && r.cmd.is_none());
}
