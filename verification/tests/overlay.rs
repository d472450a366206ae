use std::collections::HashSet;
use winflow::config::Config;
use winflow::commands::{handle_cmd, handle_mouse, ImagePlan, Mouse};
use winflow::capture::{Thumb, ThumbCache};
use winflow::overlay::{
    collect_show, current_capture_interval, current_quick_delay, init_app, may_refocus,
    needs_refocus, set_capture_interval, set_quick_delay, warm_up, AppInner, Focus, Hidden, Step,
};
use winflow::state::{Core, Item, MainCmd, Mode, ShowData};
use winflow::windows::Win;

const MS: u64 = 1_000_000;

fn item(id: u32, pid: i32) -> Item {
    Item {
        id,
        pid,
        owner: "o".to_string(),
        title: "t".to_string(),
        aspect: 1_600_000,
        x: 0,
        y: 0,
        w: 160_000,
        h: 100_000,
        n_same_pid: 1,
    }
}

fn ids(core: &Core) -> Vec<u32> {
    core.items.iter().map(|i| i.id).collect()
}

fn start() -> (AppInner, Core) {
    let mut core = Core::new(true, 0);
    let app = init_app(Config::default(), &mut core, 0);
    (app, core)
}

fn data(list: &[u32], front: Option<u32>) -> ShowData {
    ShowData {
        mode: Mode::Space,
        display_id: 3,
        items: list.iter().map(|id| item(*id, *id as i32)).collect(),
        front_window: front,
        last_window_ids: vec![1, 2],
        require_cmd_held: true,
        backwards: false,
    }
}

fn show(app: &mut AppInner, core: &mut Core, d: ShowData) -> bool {
    core.cmd_held = true;
    app.finish_show(core, d, 1_440_000, 900_000)
}

fn focus(id: u32) -> Option<Focus> {
    Some(Focus { pid: id as i32, window_id: Some(id), display_id: Some(1) })
}

#[test]
fn interval_set_get_roundtrip() {
    let mut core = Core::new(true, 0);
    set_capture_interval(&mut core, 25);
    assert_eq!(current_capture_interval(&core), 25);
    set_capture_interval(&mut core, 1);
    assert_eq!(current_capture_interval(&core), 1);
    // out-of-range clamps
    set_capture_interval(&mut core, 0);
    assert_eq!(current_capture_interval(&core), 1);
    set_capture_interval(&mut core, 99999);
    assert_eq!(current_capture_interval(&core), 3600);
}

#[test]
fn delay_set_get_roundtrip() {
    let mut core = Core::new(true, 0);
    assert_eq!(current_quick_delay(&core), 80);
    set_quick_delay(&mut core, 300);
    assert_eq!(current_quick_delay(&core), 300);
    set_quick_delay(&mut core, 1);
    assert_eq!(current_quick_delay(&core), 50);
    set_quick_delay(&mut core, 5000);
    assert_eq!(current_quick_delay(&core), 2000);
}

#[test]
fn configuration_is_applied_at_start() {
    let mut core = Core::new(true, 0);
    let mut cfg = Config::default();
    cfg.capture_interval = 100;
    cfg.quick_delay = 9000;
    let app = init_app(cfg, &mut core, 5);
    assert_eq!(core.capture_interval_ms, 200);
    assert_eq!(core.quick_delay_ms, 2000);
    assert_eq!(app.last_gc, 5);
    assert!(!app.initialized);
}

#[test]
fn show_takes_the_focused_display() {
    let (mut app, mut core) = start();
    core.mru_app.push_back(9);
    assert!(app.ensure_panel());
    assert!(!app.ensure_panel());
    let f = Some(Focus { pid: 4, window_id: Some(40), display_id: Some(2) });
    let job = app.begin_show(&mut core, Mode::App, true, false, f, 7);
    assert_eq!(job.display_id, 2);
    assert_eq!(job.front_pid, Some(4));
    assert_eq!(job.focused_window, Some(40));
    assert_eq!(core.mode, Mode::App);
    assert_eq!(core.mru.iter().copied().collect::<Vec<u32>>(), vec![9]);
    assert_eq!(app.prev_app_pid, Some(4));
    // Without a focused window the pointer's display counts.
    let job = app.begin_show(&mut core, Mode::Space, false, true, None, 7);
    assert_eq!(job.display_id, 7);
    assert!(job.backwards);
    assert_eq!(app.prev_app_pid, None);
}

fn win(id: u32, pid: i32) -> Win {
    Win {
        id,
        pid,
        owner: "App".to_string(),
        title: "t".to_string(),
        x: id as i32 * 10_000,
        y: 0,
        w: 800_000,
        h: 600_000,
        layer: 0,
        alpha: 1_000_000,
        onscreen: true,
    }
}

#[test]
fn collected_show_finds_the_front_window() {
    let (mut app, mut core) = start();
    let wins = vec![win(1, 10), win(2, 20), win(3, 20)];
    let bounds = Some((0, 0, 1_440_000, 900_000));
    let f = Some(Focus { pid: 20, window_id: Some(3), display_id: None });
    let job = app.begin_show(&mut core, Mode::Space, true, false, f, 7);
    let d = collect_show(&job, &wins, &app.cfg, 999, bounds);
    assert_eq!(d.front_window, Some(3));
    assert_eq!(d.last_window_ids, vec![1, 2, 3]);
    assert_eq!(d.items.len(), 3);
    assert_eq!(d.items[1].n_same_pid, 2);
    // A focused window that is not listed: the app's first window.
    let f = Some(Focus { pid: 20, window_id: Some(77), display_id: None });
    let job = app.begin_show(&mut core, Mode::Space, true, false, f, 7);
    assert_eq!(collect_show(&job, &wins, &app.cfg, 999, bounds).front_window, Some(2));
    let job = app.begin_show(&mut core, Mode::Space, true, false, None, 7);
    let d = collect_show(&job, &wins, &app.cfg, 999, None);
    assert_eq!(d.front_window, None);
    assert!(d.last_window_ids.is_empty());
}

#[test]
fn first_show_selects_the_front_window() {
    let (mut app, mut core) = start();
    assert!(show(&mut app, &mut core, data(&[1, 2, 3], Some(2))));
    assert_eq!(ids(&core), vec![2, 1, 3]);
    assert_eq!(core.selection, 0);
    assert!(core.visible && core.refresh_all);
    assert_eq!(core.active, Some(2));
    assert_eq!(app.display_id, 3);
    let mut tracked_ids = core.tracked_ids.clone();
    tracked_ids.sort();
    assert_eq!(tracked_ids, vec![1, 2, 3]);
    assert_eq!(core.layout.as_ref().unwrap().rects.len(), 3);
}

#[test]
fn window_left_is_preselected() {
    let (mut app, mut core) = start();
    // In window 1, switch to window 2.
    assert!(show(&mut app, &mut core, data(&[1, 2, 3], Some(1))));
    assert_eq!(ids(&core)[0], 1);
    match app.activate(&mut core, 1, 0) {
        Step::Switch(s) => assert_eq!(s.item.id, 2),
        other => panic!("{:?}", other),
    }
    assert!(!core.visible);
    // Summoned again, window 1 is selected and window 2 stands next to it.
    app.begin_show(&mut core, Mode::Space, true, false, focus(2), 1);
    assert!(show(&mut app, &mut core, data(&[2, 1, 3], Some(2))));
    assert_eq!(ids(&core), vec![1, 2, 3]);
    assert_eq!(core.selection, 0);
    // Back to window 1: now window 2 is selected.
    app.activate(&mut core, 0, 0);
    app.begin_show(&mut core, Mode::Space, true, false, focus(1), 1);
    assert!(show(&mut app, &mut core, data(&[1, 2, 3], Some(1))));
    assert_eq!(ids(&core), vec![2, 1, 3]);
}

#[test]
fn switches_made_elsewhere_are_noticed() {
    let (mut app, mut core) = start();
    core.active = Some(1);
    assert!(show(&mut app, &mut core, data(&[3, 1, 2], Some(3))));
    assert_eq!(core.active, Some(3));
    assert_eq!(core.prev, Some(1));
    assert_eq!(ids(&core), vec![1, 3, 2]);
}

#[test]
fn missing_previous_window_falls_back_to_the_recent_one() {
    let (mut app, mut core) = start();
    core.active = Some(1);
    core.prev = Some(99);
    core.mru.push_back(1);
    core.mru.push_back(3);
    assert!(show(&mut app, &mut core, data(&[1, 2, 3], Some(1))));
    assert_eq!(ids(&core), vec![3, 1, 2]);
}

#[test]
fn backwards_starts_at_the_end() {
    let (mut app, mut core) = start();
    let mut d = data(&[1, 2, 3], Some(1));
    d.backwards = true;
    assert!(show(&mut app, &mut core, d));
    assert_eq!(core.selection, 2);
    let mut d = data(&[], None);
    d.backwards = true;
    assert!(show(&mut app, &mut core, d));
    assert_eq!(core.selection, 0);
}

#[test]
fn late_windows_are_dropped() {
    let (mut app, mut core) = start();
    core.cmd_held = false;
    assert!(!app.finish_show(&mut core, data(&[1], Some(1)), 1_440_000, 900_000));
    assert!(!core.visible && core.items.is_empty());
    // A show that does not need the key held goes on.
    let mut d = data(&[1], Some(1));
    d.require_cmd_held = false;
    assert!(app.finish_show(&mut core, d, 1_440_000, 900_000));
    // Another mode by now.
    core.mode = Mode::App;
    core.visible = false;
    assert!(!show(&mut app, &mut core, data(&[1], Some(1))));
}

#[test]
fn shown_overlay_ends_the_pending_tap() {
    let (mut app, mut core) = start();
    core.quick_pending = true;
    core.quick_show_dispatched = true;
    core.hover = Some(1);
    assert!(show(&mut app, &mut core, data(&[1, 2], Some(1))));
    assert!(!core.quick_pending && !core.quick_show_dispatched);
    assert_eq!(core.hover, None);
}

#[test]
fn closing_restores_the_app_and_keeps_the_recent_windows() {
    let (mut app, mut core) = start();
    app.ensure_panel();
    app.begin_show(&mut core, Mode::Space, true, false, focus(1), 1);
    show(&mut app, &mut core, data(&[1, 2], Some(1)));
    app.scroll_acc = 9000;
    let h = app.close(&mut core, true);
    assert!(matches!(h, Some(Hidden { order_out: true, restore: Some(1) })));
    assert!(!core.visible);
    assert_eq!(core.mru_space.iter().copied().collect::<Vec<u32>>(), vec![1]);
    assert_eq!(app.scroll_acc, 0);
    assert_eq!(app.prev_app_pid, None);
    // Closing again changes nothing.
    assert!(app.close(&mut core, true).is_none());
}

#[test]
fn activating_no_entry_closes_the_overlay() {
    let (mut app, mut core) = start();
    assert!(matches!(app.activate(&mut core, 0, 0), Step::Nothing));
    show(&mut app, &mut core, data(&[1], Some(1)));
    assert!(matches!(
        app.activate(&mut core, 5, 0),
        Step::Hidden(Hidden { order_out: false, restore: None })
    ));
    assert_eq!(app.activation_gen, 0);
}

#[test]
fn switching_to_the_active_window_keeps_the_pair() {
    let (mut app, mut core) = start();
    core.active = Some(1);
    core.prev = Some(2);
    let s = app.activate_item(&mut core, item(1, 1), 77);
    assert_eq!(core.prev, Some(2));
    assert_eq!(s.gen, 1);
    assert_eq!(app.last_activate, Some(77));
    let s = app.activate_item(&mut core, item(3, 3), 78);
    assert_eq!((core.active, core.prev), (Some(3), Some(1)));
    assert_eq!(s.gen, 2);
    assert!(s.hidden.is_none());
}

#[test]
fn quick_switch_toggles_between_two_windows() {
    let (mut app, mut core) = start();
    let list = || vec![item(1, 1), item(2, 2), item(3, 3)];
    assert!(!app.cache_hit(Mode::Space, 1, 0));
    app.remember(Mode::Space, 1, list(), 0);
    assert!(app.cache_hit(Mode::Space, 1, 299 * MS));
    assert!(!app.cache_hit(Mode::Space, 1, 300 * MS));
    assert!(!app.cache_hit(Mode::App, 1, 0));
    assert!(!app.cache_hit(Mode::Space, 2, 0));
    // In window 1: the first other window.
    let s = app.quick_switch(&mut core, Mode::Space, focus(1), 0).unwrap();
    assert_eq!(s.item.id, 2);
    assert_eq!((core.active, core.prev), (Some(2), Some(1)));
    // The focus lags behind: the own record counts.
    let s = app.quick_switch(&mut core, Mode::Space, focus(1), 100 * MS).unwrap();
    assert_eq!(s.item.id, 1);
    // Much later the focus counts.
    let s = app.quick_switch(&mut core, Mode::Space, focus(1), 900 * MS).unwrap();
    assert_eq!(s.item.id, 2);
    assert_eq!(core.mru_space.iter().copied().collect::<Vec<u32>>(), vec![2, 1]);
}

#[test]
fn quick_switch_after_a_switch_made_elsewhere() {
    let (mut app, mut core) = start();
    app.remember(Mode::Space, 1, vec![item(3, 3), item(1, 1), item(2, 2)], 0);
    core.active = Some(1);
    core.prev = Some(2);
    let s = app.quick_switch(&mut core, Mode::Space, focus(3), 0).unwrap();
    assert_eq!(s.item.id, 1);
    assert_eq!((core.active, core.prev), (Some(1), Some(3)));
}

#[test]
fn quick_switch_needs_another_window() {
    let (mut app, mut core) = start();
    assert!(app.quick_switch(&mut core, Mode::App, None, 0).is_none());
    assert_eq!(core.mode, Mode::Space);
    app.remember(Mode::App, 1, Vec::new(), 0);
    assert!(app.quick_switch(&mut core, Mode::App, None, 0).is_none());
    assert_eq!(core.active, None);
    app.remember(Mode::App, 1, vec![item(5, 5)], 0);
    assert!(app.quick_switch(&mut core, Mode::App, None, 0).is_none());
    assert_eq!(core.mode, Mode::App);
    assert_eq!(core.active, Some(5));
    assert_eq!(app.activation_gen, 0);
}

#[test]
fn desktop_switch_refreshes_the_windows() {
    let (mut app, mut core) = start();
    show(&mut app, &mut core, data(&[1, 2, 3], Some(1)));
    core.selection = 2;
    app.prev_app_pid = Some(8);
    assert!(!app.desktop_changed(&vec![1, 2]));
    assert!(app.desktop_changed(&vec![1]));
    assert!(app.desktop_changed(&vec![1, 3]));
    app.thumb_dirty = true;
    let display = app.recollect_display(&None, 9);
    assert_eq!(display, 3);
    app.refresh_windows(&mut core, vec![item(7, 7), item(8, 8)], vec![7, 8], display, 1_440_000, 900_000);
    assert_eq!(ids(&core), vec![7, 8]);
    assert_eq!(core.selection, 1);
    assert_eq!(app.front_window, Some(8));
    assert!(!app.thumb_dirty);
    assert_eq!(core.tracked_ids.len(), 5);
    app.display_id = 0;
    assert_eq!(app.recollect_display(&None, 9), 9);
}

#[test]
fn startup_warms_the_thumbnails() {
    let mut core = Core::new(true, 0);
    warm_up(&mut core, &vec![item(4, 1), item(2, 1)]);
    assert_eq!(core.tracked_ids, vec![4, 2]);
    assert!(core.refresh_all);
}

#[test]
fn refocus_is_limited() {
    let mut i = item(1, 5);
    assert!(!needs_refocus(&i, true));
    i.n_same_pid = 2;
    assert!(needs_refocus(&i, true));
    assert!(!needs_refocus(&i, false));
    assert!(may_refocus(&i, Some(5)));
    assert!(!may_refocus(&i, Some(6)));
    assert!(!may_refocus(&i, None));
}

#[test]
fn commands_are_dispatched() {
    let (mut app, mut core) = start();
    let step = |app: &mut AppInner, core: &mut Core, cmd: MainCmd| handle_cmd(app, core, cmd, 0);
    assert!(matches!(
        step(&mut app, &mut core, MainCmd::Show(Mode::App, false)),
        Step::Show(Mode::App, false, false)
    ));
    assert!(matches!(
        step(&mut app, &mut core, MainCmd::ShowBackwards(Mode::Space)),
        Step::Show(Mode::Space, true, true)
    ));
    assert!(matches!(
        step(&mut app, &mut core, MainCmd::ShowReady(data(&[1], None))),
        Step::FinishShow(_)
    ));
    assert!(matches!(step(&mut app, &mut core, MainCmd::Redraw), Step::Redraw));
    assert!(matches!(step(&mut app, &mut core, MainCmd::Activate(0)), Step::Nothing));
    assert!(matches!(step(&mut app, &mut core, MainCmd::Hide), Step::Nothing));
    assert!(matches!(
        step(&mut app, &mut core, MainCmd::QuickSwitch(Mode::App)),
        Step::QuickSwitch(Mode::App)
    ));
    assert!(matches!(step(&mut app, &mut core, MainCmd::ToggleTag(4)), Step::ToggleTag(4)));
    assert!(matches!(step(&mut app, &mut core, MainCmd::OpenPanel), Step::OpenPanel));
    assert!(matches!(step(&mut app, &mut core, MainCmd::PermDialog), Step::PermDialog));
    assert!(matches!(step(&mut app, &mut core, MainCmd::Tick), Step::Tick));
    assert!(matches!(step(&mut app, &mut core, MainCmd::Quit), Step::Quit));
    app.activation_gen = 4;
    assert!(matches!(
        step(&mut app, &mut core, MainCmd::Refocus(item(1, 1), 4)),
        Step::Refocus(_)
    ));
    assert!(matches!(
        step(&mut app, &mut core, MainCmd::Refocus(item(1, 1), 3)),
        Step::Nothing
    ));
}

#[test]
fn changed_thumbnail_releases_its_image() {
    let (mut app, mut core) = start();
    assert_eq!(app.image_built(6, 1, 600), None);
    assert_eq!(app.image_built(6, 2, 601), Some(600));
    assert!(matches!(
        handle_cmd(&mut app, &mut core, MainCmd::ThumbUpdated(6), 0),
        Step::Release(Some(601))
    ));
    assert!(app.thumb_dirty);
    assert!(matches!(
        handle_cmd(&mut app, &mut core, MainCmd::ThumbUpdated(6), 0),
        Step::Release(None)
    ));
}

#[test]
fn images_are_built_for_new_generations() {
    let (mut app, _) = start();
    let mut thumbs: ThumbCache = ThumbCache::new();
    assert!(matches!(app.image_plan(&thumbs, 1), ImagePlan::Missing));
    thumbs.insert(1, Thumb { image: 50, at: 0, gen: 8, confirmed: false });
    assert!(matches!(app.image_plan(&thumbs, 1), ImagePlan::Build(50, 8)));
    app.image_built(1, 8, 500);
    assert!(matches!(app.image_plan(&thumbs, 1), ImagePlan::Use(500)));
    thumbs.insert(1, Thumb { image: 51, at: 0, gen: 9, confirmed: true });
    assert!(matches!(app.image_plan(&thumbs, 1), ImagePlan::Build(51, 9)));
}

#[test]
fn garbage_is_what_is_not_tracked() {
    let (mut app, mut core) = start();
    core.tracked_ids = vec![2];
    let mut thumbs: ThumbCache = ThumbCache::new();
    for id in 1..4 {
        thumbs.insert(id, Thumb { image: id as u64, at: 0, gen: 1, confirmed: true });
        app.image_built(id, 1, 100 + id as u64);
    }
    let (images, drawn) = app.collect_garbage(&core, &mut thumbs);
    let images: HashSet<u64> = images.iter().map(|(_, t)| t.image).collect();
    let drawn: HashSet<u64> = drawn.iter().map(|(_, d)| d.image).collect();
    assert_eq!(images, [1, 3].into_iter().collect());
    assert_eq!(drawn, [101, 103].into_iter().collect());
    assert_eq!(thumbs.len(), 1);
    assert_eq!(app.thumb_ns.len(), 1);
}

#[test]
fn hidden_overlay_ignores_the_mouse() {
    let (mut app, mut core) = start();
    assert!(matches!(handle_mouse(&mut app, &mut core, Mouse::Scroll(90_000), 0), Step::Nothing));
    assert!(matches!(handle_mouse(&mut app, &mut core, Mouse::Down(0, 0), 0), Step::Nothing));
    assert_eq!(app.scroll_acc, 0);
}

#[test]
fn mouse_selects_and_switches() {
    let (mut app, mut core) = start();
    show(&mut app, &mut core, data(&[1, 2, 3], Some(1)));
    let r = core.layout.as_ref().unwrap().rects[2].thumb;
    let at = (r.x + 1000, r.y + 1000);
    assert!(matches!(
        handle_mouse(&mut app, &mut core, Mouse::Moved(at.0, at.1), 0),
        Step::Redraw
    ));
    assert_eq!((core.selection, core.hover), (2, Some(2)));
    assert!(matches!(
        handle_mouse(&mut app, &mut core, Mouse::Moved(at.0 + 1, at.1), 0),
        Step::Nothing
    ));
    // Off the cards the selection stays.
    assert!(matches!(handle_mouse(&mut app, &mut core, Mouse::Moved(0, 0), 0), Step::Redraw));
    assert_eq!((core.selection, core.hover), (2, None));
    match handle_mouse(&mut app, &mut core, Mouse::Down(at.0, at.1), 0) {
        Step::Switch(s) => assert_eq!(s.item.id, 3),
        other => panic!("{:?}", other),
    }
    show(&mut app, &mut core, data(&[1, 2, 3], Some(1)));
    app.prev_app_pid = Some(12);
    assert!(matches!(
        handle_mouse(&mut app, &mut core, Mouse::Down(0, 0), 0),
        Step::Hidden(Hidden { order_out: false, restore: Some(12) })
    ));
}

#[test]
fn scrolling_steps_through_the_entries() {
    let (mut app, mut core) = start();
    show(&mut app, &mut core, data(&[1, 2, 3], Some(1)));
    assert!(matches!(handle_mouse(&mut app, &mut core, Mouse::Scroll(-9_000), 0), Step::Nothing));
    assert_eq!(app.scroll_acc, -9_000);
    assert!(matches!(handle_mouse(&mut app, &mut core, Mouse::Scroll(-6_000), 0), Step::Redraw));
    assert_eq!((core.selection, app.scroll_acc), (1, 0));
    handle_mouse(&mut app, &mut core, Mouse::Scroll(15_000), 0);
    assert_eq!(core.selection, 0);
    handle_mouse(&mut app, &mut core, Mouse::Scroll(99_000), 0);
    assert_eq!(core.selection, 2);
}

#[test]
fn tick_checks_the_desktop_from_time_to_time() {
    let (mut app, mut core) = start();
    assert!(!app.tick(&core, 600 * MS).check_desktop);
    show(&mut app, &mut core, data(&[1], Some(1)));
    assert!(!app.tick(&core, 499 * MS).check_desktop);
    assert!(app.tick(&core, 500 * MS).check_desktop);
    assert!(!app.tick(&core, 600 * MS).check_desktop);
    app.display_id = 0;
    assert!(!app.tick(&core, 5000 * MS).check_desktop);
}

#[test]
fn tick_ends_a_hint() {
    let (mut app, mut core) = start();
    app.set_hint("x".to_string(), 0);
    assert!(!app.tick(&core, 1999 * MS).redraw);
    assert!(app.hint.is_some());
    core.visible = true;
    assert!(app.tick(&core, 2000 * MS).redraw);
    assert!(app.hint.is_none());
    assert!(!app.tick(&core, 2001 * MS).redraw);
    app.set_hint("x".to_string(), 0);
    core.visible = false;
    assert!(!app.tick(&core, 2000 * MS).redraw);
    assert!(app.hint.is_none());
}

#[test]
fn tick_draws_changed_thumbnails_together() {
    let (mut app, mut core) = start();
    for id in 0..5 {
        handle_cmd(&mut app, &mut core, MainCmd::ThumbUpdated(id), 0);
    }
    let end = app.tick_end(10 * MS);
    assert!(end.redraw && !end.collect_garbage);
    let end = app.tick_end(1000 * MS);
    assert!(!end.redraw && end.collect_garbage);
    assert!(!app.tick_end(1999 * MS).collect_garbage);
}
