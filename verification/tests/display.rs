use winflow::accessibility::{
    activation_options, bounds_match, target_by_details, target_by_id, AxWin, ACTIVATE_ALL_WINDOWS,
    ACTIVATE_APP,
};
use winflow::config::Config;
use winflow::display::{
    active_space, cursor_display, display_bounds, screen_scale, target_screen_frame, thumb_px_h,
    thumb_size, Display, Screen,
};
use winflow::state::Item;
use winflow::util::{decimal, tail_chars, trim, truncate};

fn displays() -> Vec<Display> {
    vec![
        Display { id: 1, x: 0, y: 0, w: 1_000_000, h: 800_000 },
        Display { id: 2, x: 1_000_000, y: 0, w: 1_000_000, h: 800_000 },
    ]
}

#[test]
fn pointer_is_on_one_display() {
    assert_eq!(cursor_display(Some((999_999, 0)), &displays(), 9), 1);
    assert_eq!(cursor_display(Some((1_000_000, 0)), &displays(), 9), 2);
    assert_eq!(cursor_display(Some((0, 800_000)), &displays(), 9), 9);
    assert_eq!(cursor_display(Some((-1, 0)), &displays(), 9), 9);
    assert_eq!(cursor_display(None, &displays(), 9), 9);
}

#[test]
fn empty_displays_have_no_bounds() {
    assert_eq!(display_bounds(1, 2, 3, 4), Some((1, 2, 3, 4)));
    assert_eq!(display_bounds(1, 2, 0, 4), None);
    assert_eq!(display_bounds(1, 2, 3, -4), None);
    assert_eq!(active_space(3), Some(3));
    assert_eq!(active_space(0), None);
}

#[test]
fn screen_of_a_display() {
    let screens = vec![
        Screen { id: None, frame: (1, 1, 1, 1) },
        Screen { id: Some(5), frame: (2, 2, 2, 2) },
        Screen { id: Some(5), frame: (3, 3, 3, 3) },
        Screen { id: Some(0), frame: (4, 4, 4, 4) },
    ];
    assert_eq!(target_screen_frame(5, &screens, None), (2, 2, 2, 2));
    assert_eq!(target_screen_frame(6, &screens, Some((9, 9, 9, 9))), (9, 9, 9, 9));
    assert_eq!(target_screen_frame(0, &screens, Some((9, 9, 9, 9))), (9, 9, 9, 9));
    assert_eq!(target_screen_frame(6, &screens, None), (0, 0, 1_440_000, 900_000));
}

#[test]
fn thumbnails_match_the_sharpest_screen() {
    assert_eq!(screen_scale(&vec![]), 1000);
    assert_eq!(screen_scale(&vec![500]), 1000);
    assert_eq!(screen_scale(&vec![1000, 2000, 1500]), 2000);
    let mut cfg = Config::default();
    assert_eq!(thumb_px_h(&cfg, 2000), 400);
    assert_eq!(thumb_px_h(&cfg, 1000), 200);
    cfg.thumb_px_scale = 1_250_000;
    assert_eq!(thumb_px_h(&cfg, 1500), 375);
    cfg.thumb_height = -1;
    assert_eq!(thumb_px_h(&cfg, 1500), 0);
}

#[test]
fn thumbnail_sizes() {
    assert_eq!(thumb_size(1920, 1080, 400), Some((711, 400)));
    assert_eq!(thumb_size(3, 2, 1), Some((2, 1)));
    assert_eq!(thumb_size(1, 1000, 10), Some((1, 10)));
    assert_eq!(thumb_size(10, 10, 0), Some((1, 1)));
    assert_eq!(thumb_size(0, 10, 5), None);
    assert_eq!(thumb_size(10, 0, 5), None);
}

fn item(title: &str) -> Item {
    Item {
        id: 7,
        pid: 3,
        owner: "o".to_string(),
        title: title.to_string(),
        aspect: 1_000_000,
        x: 10_000,
        y: 20_000,
        w: 800_000,
        h: 600_000,
        n_same_pid: 2,
    }
}

fn ax(pid: Option<i32>, x: i32, title: Option<&str>) -> AxWin {
    AxWin {
        pid,
        bounds: Some((x, 20_000, 800_000, 600_000)),
        title: title.map(|t| t.to_string()),
    }
}

#[test]
fn window_id_is_authoritative() {
    assert_eq!(target_by_id(&item("a"), &vec![None, Some(7), Some(7)]), Some(1));
    assert_eq!(target_by_id(&item("a"), &vec![None, Some(8)]), None);
}

#[test]
fn details_prefer_process_place_and_title() {
    let wins = vec![
        ax(Some(9), 10_000, Some("doc")),
        ax(Some(3), 10_000, Some("other")),
        ax(None, 10_000, Some(" doc ")),
    ];
    assert_eq!(target_by_details(&item("doc"), &wins), Some(2));
    // Without a title, or without a match, process and place decide.
    assert_eq!(target_by_details(&item(""), &wins), Some(1));
    assert_eq!(target_by_details(&item("none"), &wins), Some(1));
    // Last of all the place alone.
    let wins = vec![ax(Some(3), 90_000, None), ax(Some(9), 16_000, None)];
    assert_eq!(target_by_details(&item("doc"), &wins), Some(1));
    let wins = vec![AxWin { pid: Some(3), bounds: None, title: Some("doc".to_string()) }];
    assert_eq!(target_by_details(&item("doc"), &wins), None);
}

#[test]
fn bounds_have_some_slack() {
    let i = item("a");
    assert!(bounds_match(&i, 16_000, 14_000, 808_000, 592_000));
    assert!(!bounds_match(&i, 16_001, 20_000, 800_000, 600_000));
    assert!(!bounds_match(&i, 10_000, 20_000, 808_001, 600_000));
}

#[test]
fn activation_brings_one_window_if_it_can() {
    let mut i = item("a");
    assert_eq!(activation_options(&i, true, false), ACTIVATE_APP);
    assert_eq!(activation_options(&i, false, true), ACTIVATE_APP);
    assert_eq!(activation_options(&i, false, false), ACTIVATE_ALL_WINDOWS);
    i.n_same_pid = 1;
    assert_eq!(activation_options(&i, true, true), ACTIVATE_ALL_WINDOWS);
}

#[test]
fn texts_are_shortened_by_characters() {
    assert_eq!(truncate("窗口标题", 4), "窗口标题");
    assert_eq!(truncate("窗口标题", 2), "窗口…");
    assert_eq!(truncate("abc", 0), "…");
    assert_eq!(tail_chars("窗口标题", 2), "标题");
    assert_eq!(tail_chars("ab", 5), "ab");
    assert_eq!(trim("\u{3000} a b\t\n"), "a b");
    assert_eq!(decimal(0), "0");
    assert_eq!(decimal(u64::MAX), "18446744073709551615");
}
