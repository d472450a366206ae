use winflow::config::Config;
use winflow::state::Mode;
use winflow::windows::{
    all_windows, center_in_bounds, collect, display_window_ids, is_noise_owner,
    onscreen_window_ids, sanitize, scope_and_annotate, window_ids_all, RawWin, Win,
};

/// Points as milli-points.
fn pt(v: f64) -> i32 {
    (v * 1000.0).round() as i32
}

fn win(pid: i32, id: u32, title: &str, x: f64, y: f64, w: f64, h: f64) -> Win {
    Win {
        id,
        pid,
        owner: "App".to_string(),
        title: title.to_string(),
        x: pt(x),
        y: pt(y),
        w: pt(w),
        h: pt(h),
        layer: 0,
        alpha: 1_000_000,
        onscreen: true,
    }
}

fn area(x: f64, y: f64, w: f64, h: f64) -> (i32, i32, i32, i32) {
    (pt(x), pt(y), pt(w), pt(h))
}

#[test]
fn feishu_keeps_titled_main_window() {
    let mut wins = vec![
        win(1375, 112, "", 0.0, 30.0, 1920.0, 1050.0),
        win(1375, 99, "飞书", 0.0, 30.0, 1920.0, 1050.0),
    ];
    sanitize(&mut wins, &Config::default());
    assert_eq!(wins.len(), 1, "Feishu must keep exactly one window");
    assert_eq!(wins[0].id, 99, "the titled main window must survive");
    assert!(!wins[0].title.is_empty());
}

#[test]
fn app_with_all_untitled_windows_keeps_one_main() {
    let mut wins = vec![
        win(7, 1, "", 0.0, 0.0, 800.0, 600.0),
        win(7, 2, "", 100.0, 100.0, 400.0, 300.0),
    ];
    sanitize(&mut wins, &Config::default());
    assert!(!wins.is_empty(), "app with only untitled windows must survive");
    assert!(wins.iter().all(|w| w.pid == 7));
    assert_eq!(wins.len(), 1, "the frontmost main window is kept");
    assert_eq!(wins[0].id, 1);
}

#[test]
fn real_watermark_layer_still_dropped() {
    let mut wins = vec![
        win(1375, 100, "飞书", 0.0, 30.0, 1920.0, 1050.0),
        win(1375, 101, "", 200.0, 200.0, 400.0, 300.0),
    ];
    sanitize(&mut wins, &Config::default());
    assert_eq!(wins.len(), 1);
    assert_eq!(wins[0].id, 100);
    assert!(!wins[0].title.is_empty());
}

#[test]
fn exact_duplicate_bounds_dedupe_prefers_title() {
    let mut wins =
        vec![win(3, 11, "", 0.0, 0.0, 500.0, 400.0), win(3, 12, "", 0.0, 0.0, 500.0, 400.0)];
    sanitize(&mut wins, &Config::default());
    assert_eq!(wins.len(), 1);
    assert_eq!(wins[0].id, 11);
}

#[test]
fn two_titled_windows_same_bounds_both_kept() {
    let mut wins = vec![
        win(24334, 9603, "dev.log — workspace [SSH: a]", 0.0, 30.0, 1920.0, 1050.0),
        win(24334, 9602, ".gitignore — workspace [SSH: b]", 0.0, 30.0, 1920.0, 1050.0),
    ];
    sanitize(&mut wins, &Config::default());
    assert_eq!(wins.len(), 2, "both titled same-bounds windows must survive");
    assert_eq!(wins[0].id, 9603);
    assert_eq!(wins[1].id, 9602);
}

#[test]
fn sanitizing_again_keeps_the_windows() {
    let mut wins = vec![
        win(1, 10, "", 0.0, 0.0, 900.0, 700.0),
        win(1, 11, "", 0.0, 0.0, 900.0, 700.0),
        win(2, 20, "main", 50.0, 50.0, 900.0, 700.0),
        win(2, 21, "", 60.0, 60.0, 300.0, 200.0),
    ];
    sanitize(&mut wins, &Config::default());
    let once: Vec<u32> = wins.iter().map(|w| w.id).collect();
    assert_eq!(once, vec![20, 10]);
    sanitize(&mut wins, &Config::default());
    let twice: Vec<u32> = wins.iter().map(|w| w.id).collect();
    assert_eq!(twice, once);
}

#[test]
fn distinct_windows_all_kept() {
    let mut wins = vec![
        win(5, 20, "a", 0.0, 0.0, 800.0, 600.0),
        win(5, 21, "b", 900.0, 0.0, 800.0, 600.0),
        win(5, 22, "c", 0.0, 700.0, 800.0, 600.0),
    ];
    sanitize(&mut wins, &Config::default());
    assert_eq!(wins.len(), 3);
}

#[test]
fn multi_display_app_keeps_global_sibling_count() {
    let wins = vec![
        win(24334, 9601, "a.ts", 0.0, 30.0, 1920.0, 1050.0),
        win(24334, 9602, "b.ts", 2560.0, 30.0, 1920.0, 1050.0),
    ];
    let display2 = area(2560.0, 0.0, 1920.0, 1080.0);
    let items = scope_and_annotate(wins, Mode::Space, Some(display2), None, 9999);
    assert_eq!(items.len(), 1, "only the display-2 window is in scope");
    assert_eq!(items[0].id, 9602);
    assert_eq!(items[0].n_same_pid, 2, "sibling count must be global, not scoped");
}

#[test]
fn single_window_app_sibling_count_one() {
    let wins = vec![win(7, 1, "only", 0.0, 0.0, 800.0, 600.0)];
    let items = scope_and_annotate(wins, Mode::Space, None, None, 9999);
    assert_eq!(items.len(), 1);
    assert_eq!(items[0].n_same_pid, 1);
}

#[test]
fn display_filter_failure_returns_empty() {
    let wins = vec![win(7, 1, "only", 0.0, 0.0, 800.0, 600.0)];
    let display = area(2000.0, 0.0, 1000.0, 800.0);
    let items = scope_and_annotate(wins, Mode::Space, Some(display), None, 9999);
    assert!(items.is_empty());
}

#[test]
fn app_mode_lists_the_front_app_only() {
    let wins = || {
        vec![
            win(7, 1, "a", 0.0, 0.0, 800.0, 600.0),
            win(8, 2, "b", 0.0, 0.0, 700.0, 600.0),
            win(7, 3, "c", 900.0, 0.0, 800.0, 600.0),
        ]
    };
    let ids = |front: Option<i32>| -> Vec<u32> {
        scope_and_annotate(wins(), Mode::App, None, front, 9999).iter().map(|i| i.id).collect()
    };
    assert_eq!(ids(Some(7)), vec![1, 3]);
    assert_eq!(ids(Some(8)), vec![2]);
    assert!(ids(Some(9999)).is_empty(), "the switcher itself");
    assert!(ids(None).is_empty());
    assert!(ids(Some(0)).is_empty());
}

#[test]
fn aspect_is_clamped() {
    let wins = vec![
        win(1, 1, "wide", 0.0, 0.0, 2000.0, 100.0),
        win(2, 2, "tall", 0.0, 0.0, 100.0, 2000.0),
        win(3, 3, "plain", 0.0, 0.0, 1600.0, 1000.0),
        win(4, 4, "flat", 0.0, 0.0, 800.0, 1.0),
    ];
    let items = scope_and_annotate(wins, Mode::Space, None, None, 9999);
    let aspects: Vec<u32> = items.iter().map(|i| i.aspect).collect();
    assert_eq!(aspects, vec![3_000_000, 400_000, 1_600_000, 1_000_000]);
}

#[test]
fn basic_filter_drops_what_is_no_window() {
    let cfg = Config::default();
    let mut layer = win(1, 1, "menu", 0.0, 0.0, 800.0, 600.0);
    layer.layer = 25;
    let mut off = win(2, 2, "off", 0.0, 0.0, 800.0, 600.0);
    off.onscreen = false;
    let mut faint = win(3, 3, "faint", 0.0, 0.0, 800.0, 600.0);
    faint.alpha = 940_000;
    let small = win(4, 4, "small", 0.0, 0.0, 119.0, 600.0);
    let low = win(5, 5, "low", 0.0, 0.0, 800.0, 79.0);
    let mut dock = win(6, 6, "dock", 0.0, 0.0, 800.0, 600.0);
    dock.owner = "dock".to_string();
    let fine = win(7, 7, "fine", 0.0, 0.0, 120.0, 80.0);
    let mut wins = vec![layer, off, faint, small, low, dock, fine];
    sanitize(&mut wins, &cfg);
    assert_eq!(wins.iter().map(|w| w.id).collect::<Vec<u32>>(), vec![7]);
}

#[test]
fn filter_terms_match_owner_or_title() {
    let mut cfg = Config::default();
    cfg.filter_terms = vec!["Secret".to_string()];
    let mut wins = vec![
        win(1, 1, "My Secret notes", 0.0, 0.0, 800.0, 600.0),
        win(2, 2, "secret", 0.0, 0.0, 800.0, 600.0),
    ];
    sanitize(&mut wins, &cfg);
    assert_eq!(wins.iter().map(|w| w.id).collect::<Vec<u32>>(), vec![2]);
}

#[test]
fn translucent_window_of_an_app_is_dropped() {
    let mut wins = vec![
        win(1, 1, "main", 0.0, 0.0, 800.0, 600.0),
        win(1, 2, "veil", 50.0, 0.0, 800.0, 600.0),
    ];
    wins[1].alpha = 970_000;
    sanitize(&mut wins, &Config::default());
    assert_eq!(wins.iter().map(|w| w.id).collect::<Vec<u32>>(), vec![1]);
}

#[test]
fn noise_owners_ignore_case() {
    for name in ["Window Server", "DOCK", "control center", "Spotlight", "Siri", "loginwindow"] {
        assert!(is_noise_owner(name), "{}", name);
    }
    assert!(!is_noise_owner("Docker"));
    assert!(!is_noise_owner(""));
}

fn raw(number: Option<i32>) -> RawWin {
    RawWin {
        number,
        pid: Some(5),
        owner: Some("App".to_string()),
        title: None,
        bounds: Some((1, 2, 3, 4)),
        layer: None,
        alpha: None,
        onscreen: Some(true),
    }
}

#[test]
fn window_list_is_parsed() {
    let list = vec![Some(raw(Some(17))), None, Some(raw(None))];
    let wins = all_windows(&list);
    assert_eq!(wins.len(), 2);
    assert_eq!(wins[0].id, 17);
    assert_eq!(wins[0].title, "");
    assert_eq!((wins[0].x, wins[0].y, wins[0].w, wins[0].h), (1, 2, 3, 4));
    assert_eq!(wins[0].layer, 0);
    assert_eq!(wins[0].alpha, 1_000_000);
    assert!(wins[0].onscreen);
    assert_eq!(wins[1].id, 0);
    let ids = window_ids_all(&list);
    assert!(ids.contains(&17));
    assert_eq!(ids.len(), 1);
}

#[test]
fn own_windows_are_left_out() {
    let wins =
        vec![win(9999, 1, "mine", 0.0, 0.0, 800.0, 600.0), win(7, 2, "other", 0.0, 0.0, 800.0, 600.0)];
    let items = collect(&wins, &Config::default(), Mode::Space, 9999, None, None);
    assert_eq!(items.iter().map(|i| i.id).collect::<Vec<u32>>(), vec![2]);
    assert_eq!(onscreen_window_ids(&wins, &Config::default(), 9999), vec![2]);
}

#[test]
fn warm_ids_are_sorted_and_unique() {
    let wins = vec![
        win(1, 30, "a", 0.0, 0.0, 800.0, 600.0),
        win(1, 10, "b", 0.0, 0.0, 800.0, 600.0),
        win(1, 30, "c", 0.0, 0.0, 800.0, 600.0),
        win(1, 20, "d", 0.0, 0.0, 10.0, 10.0),
    ];
    assert_eq!(onscreen_window_ids(&wins, &Config::default(), 9999), vec![10, 30]);
}

#[test]
fn fingerprint_lists_windows_by_centre() {
    let wins = vec![
        win(1, 3, "a", 0.0, 0.0, 800.0, 600.0),
        win(1, 1, "b", 900.0, 0.0, 800.0, 600.0),
        win(1, 2, "c", 2000.0, 0.0, 800.0, 600.0),
    ];
    let display = area(0.0, 0.0, 1400.0, 900.0);
    assert_eq!(display_window_ids(&wins, display), vec![1, 3]);
    assert!(center_in_bounds(&wins[0], display));
    assert!(!center_in_bounds(&wins[2], display));
}
