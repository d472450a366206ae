use winflow::config::Config;
use winflow::layout::{compute, pack, Dir, Rect};
use winflow::state::Item;

/// An aspect ratio in millionths.
fn aspect(a: f64) -> u32 {
    (a * 1_000_000.0).round() as u32
}

/// Points as milli-points.
fn pt(v: f64) -> i32 {
    (v * 1000.0).round() as i32
}

fn item(id: u32, a: f64) -> Item {
    Item {
        id,
        pid: 1,
        owner: "t".to_string(),
        title: "t".to_string(),
        aspect: aspect(a),
        x: 0,
        y: 0,
        w: pt(a * 100.0),
        h: pt(100.0),
        n_same_pid: 1,
    }
}

#[test]
fn pack_respects_width() {
    let items = vec![item(1, 1.6), item(2, 1.6), item(3, 1.6)];
    let l = compute(&items, pt(1000.0), pt(800.0), &Config::default());
    assert_eq!(l.rows.len(), 2);
    assert_eq!(l.rows[0].len(), 2);
    assert_eq!(l.rows[1].len(), 1);
}

#[test]
fn pack_multiple_rows() {
    let items = vec![item(1, 1.6), item(2, 1.6), item(3, 1.6), item(4, 1.6), item(5, 1.6)];
    let l = compute(&items, pt(800.0), pt(800.0), &Config::default());
    assert_eq!(l.rows.len(), 3);
    assert_eq!(l.rows[0].len(), 2);
    assert_eq!(l.rows[1].len(), 2);
    assert_eq!(l.rows[2].len(), 1);
}

#[test]
fn nav_wraps_edges() {
    let items = vec![item(1, 1.6), item(2, 1.6), item(3, 1.6), item(4, 1.6), item(5, 1.6)];
    let l = compute(&items, pt(800.0), pt(800.0), &Config::default());
    assert_eq!(l.nav(0, Dir::Left, true), 1);
    assert_eq!(l.nav(1, Dir::Right, true), 0);
    assert_eq!(l.nav(0, Dir::Up, true), 4);
    // The last card is equally far from both cards of the first row.
    assert_eq!(l.nav(4, Dir::Down, true), 0);
    assert_eq!(l.nav(4, Dir::Next, true), 0);
    assert_eq!(l.nav(0, Dir::Prev, true), 4);
    assert_eq!(l.nav(0, Dir::Left, false), 0);
    assert_eq!(l.nav(0, Dir::Up, false), 0);
}

#[test]
fn hit_testing() {
    let items = vec![item(1, 1.6), item(2, 1.6)];
    let l = compute(&items, pt(800.0), pt(800.0), &Config::default());
    let r = &l.rects[0].thumb;
    assert_eq!(l.hit(r.x + 1000, r.y + 1000), Some(0));
    assert_eq!(l.hit(0, 0), None);
}

#[test]
fn empty_layout_has_a_fixed_size() {
    let l = compute(&Vec::new(), pt(1440.0), pt(900.0), &Config::default());
    assert_eq!((l.total_w, l.total_h), (360_000, 84_000));
    assert!(l.rows.is_empty());
    assert!(l.rects.is_empty());
    assert_eq!(l.nav(0, Dir::Next, true), 0);
    assert_eq!(l.hit(1000, 1000), None);
}

#[test]
fn single_card_is_centred() {
    let items = vec![item(1, 1.6)];
    let l = compute(&items, pt(1000.0), pt(800.0), &Config::default());
    // 80 % of the screen; margins of 20 points; a title of 24 points.
    assert_eq!(l.total_w, 800_000);
    assert_eq!(l.total_h, 264_000);
    assert_eq!(l.rects[0].thumb, Rect { x: 240_000, y: 44_000, w: 320_000, h: 200_000 });
    assert_eq!(l.rects[0].label, Rect { x: 240_000, y: 20_000, w: 320_000, h: 24_000 });
}

#[test]
fn cards_shrink_until_they_fit_the_screen() {
    let items: Vec<Item> = (0..12).map(|i| item(i, 1.6)).collect();
    let l = compute(&items, pt(800.0), pt(600.0), &Config::default());
    assert!(l.rects[0].thumb.h < 200_000);
    assert!(l.total_h * 100 <= 600_000 * 86 || l.rects[0].thumb.h <= 70_000);
    assert_eq!(l.rects.len(), 12);
    assert!(l.rects.iter().all(|r| r.thumb.h == l.rects[0].thumb.h));
}

#[test]
fn rows_list_every_card_once() {
    let items: Vec<Item> = (0..9).map(|i| item(i, 0.5 + i as f64 * 0.3)).collect();
    let rows = pack(&items, 700_000, 150_000);
    let flat: Vec<usize> = rows.iter().flatten().copied().collect();
    assert_eq!(flat, (0..9).collect::<Vec<usize>>());
}

#[test]
fn horizontal_steps_undo_each_other() {
    let items: Vec<Item> = (0..7).map(|i| item(i, 1.6)).collect();
    let l = compute(&items, pt(1000.0), pt(900.0), &Config::default());
    for i in 0..7 {
        assert_eq!(l.nav(l.nav(i, Dir::Left, true), Dir::Right, true), i);
        assert_eq!(l.nav(l.nav(i, Dir::Next, true), Dir::Prev, true), i);
    }
}

#[test]
fn vertical_steps_take_the_nearest_card() {
    let items: Vec<Item> = (0..5).map(|i| item(i, 1.6)).collect();
    let l = compute(&items, pt(800.0), pt(800.0), &Config::default());
    assert_eq!(l.nav(0, Dir::Down, true), 2);
    assert_eq!(l.nav(1, Dir::Down, true), 3);
    assert_eq!(l.nav(2, Dir::Down, true), 4);
    assert_eq!(l.nav(3, Dir::Up, true), 1);
    assert_eq!(l.nav(4, Dir::Down, false), 4);
}

#[test]
fn vertical_steps_without_another_row_stay() {
    let one_row = compute(&vec![item(1, 1.6)], pt(800.0), pt(800.0), &Config::default());
    for idx in [0, 1, 7] {
        assert_eq!(one_row.nav(idx, Dir::Up, true), idx);
        assert_eq!(one_row.nav(idx, Dir::Down, true), idx);
    }
    // A card that is not there counts as the first one.
    let items: Vec<Item> = (0..5).map(|i| item(i, 1.6)).collect();
    let l = compute(&items, pt(800.0), pt(800.0), &Config::default());
    assert_eq!(l.nav(9, Dir::Up, false), 9);
}

#[test]
fn cards_stay_inside_and_apart() {
    let items: Vec<Item> = (0..8).map(|i| item(i, 1.3)).collect();
    let l = compute(&items, pt(900.0), pt(900.0), &Config::default());
    for (i, a) in l.rects.iter().enumerate() {
        assert!(a.thumb.x >= 20_000 && a.thumb.x + a.thumb.w <= l.total_w - 20_000);
        assert!(a.label.y >= 20_000 && a.thumb.y + a.thumb.h <= l.total_h - 20_000);
        for (j, b) in l.rects.iter().enumerate() {
            if i != j {
                assert!(!b.thumb.contains(a.thumb.x + a.thumb.w / 2, a.thumb.y + a.thumb.h / 2));
            }
        }
        assert_eq!(l.hit(a.thumb.x + 1, a.thumb.y + 1), Some(i));
    }
}
