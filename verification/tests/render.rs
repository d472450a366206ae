use winflow::config::Config;
use winflow::layout::Rect;
use winflow::overlay::{init_app, AppInner};
use winflow::render::{
    caption_text, centred, compose, fit_image, fit_label, hint_origin, hint_pill, label_text,
    needs_move, overlay_frame, Caption, Draw, Paint,
};
use winflow::state::{Core, Item, Mode, ShowData};

fn item(id: u32, title: &str) -> Item {
    Item {
        id,
        pid: 1,
        owner: "Owner".to_string(),
        title: title.to_string(),
        aspect: 1_600_000,
        x: 0,
        y: 0,
        w: 160_000,
        h: 100_000,
        n_same_pid: 1,
    }
}

fn shown(items: Vec<Item>) -> (AppInner, Core) {
    let mut core = Core::new(true, 0);
    let mut app = init_app(Config::default(), &mut core, 0);
    let data = ShowData {
        mode: Mode::Space,
        display_id: 1,
        items,
        front_window: None,
        last_window_ids: Vec::new(),
        require_cmd_held: false,
        backwards: false,
    };
    assert!(app.finish_show(&mut core, data, 1_000_000, 800_000));
    (app, core)
}

#[test]
fn hidden_overlay_is_not_drawn() {
    let (app, mut core) = shown(vec![item(1, "a")]);
    assert!(compose(&core, &app, 0).is_some());
    core.visible = false;
    assert!(compose(&core, &app, 0).is_none());
    core.visible = true;
    core.layout = None;
    assert!(compose(&core, &app, 0).is_none());
}

#[test]
fn empty_overlay_says_so() {
    let (app, core) = shown(Vec::new());
    let list = compose(&core, &app, 0).unwrap();
    let full = Rect { x: 0, y: 0, w: 360_000, h: 84_000 };
    assert_eq!(
        list,
        vec![
            Draw::Fill(full, 18_000, Paint::White(130, 940)),
            Draw::Text(Caption::NoWindows, 14_000, Paint::White(800, 1000), full),
        ]
    );
    assert_eq!(caption_text(Caption::NoWindows), "No windows here");
    assert_eq!(caption_text(Caption::Number(12)), "12");
}

#[test]
fn selected_and_tagged_card_is_drawn() {
    let (mut app, mut core) = shown(vec![item(1, "a")]);
    core.tags[1] = Some(1);
    app.set_hint("x".to_string(), 0);
    let list = compose(&core, &app, 5).unwrap();
    let thumb = Rect { x: 240_000, y: 44_000, w: 320_000, h: 200_000 };
    let label = Rect { x: 240_000, y: 20_000, w: 320_000, h: 24_000 };
    let card = Rect { x: 240_000, y: 20_000, w: 320_000, h: 224_000 };
    let divider = Rect { x: 248_000, y: 43_000, w: 304_000, h: 1_000 };
    let badge = Rect { x: 534_000, y: 220_000, w: 20_000, h: 18_000 };
    assert_eq!(
        list,
        vec![
            Draw::Fill(Rect { x: 0, y: 0, w: 800_000, h: 264_000 }, 18_000, Paint::White(130, 940)),
            Draw::Fill(card, 12_000, Paint::White(240, 950)),
            Draw::Thumb(0, thumb, card, 12_000, Paint::White(90, 900)),
            Draw::Stroke(card, 12_000, 1_000, Paint::White(550, 220)),
            Draw::Fill(divider, 0, Paint::White(900, 140)),
            Draw::Title(0, 13_000, Paint::White(900, 1000), label, 304_000),
            Draw::Stroke(card, 12_000, 3_000, Paint::Rgb(300, 600, 1000, 1000)),
            Draw::Fill(badge, 5_000, Paint::Rgb(950, 620, 50, 950)),
            Draw::Text(Caption::Number(2), 12_000, Paint::White(1000, 1000), badge),
            Draw::Hint,
        ]
    );
    // The hint is over.
    let list = compose(&core, &app, 2_000_000_000).unwrap();
    assert_eq!(list.last(), Some(&Draw::Text(Caption::Number(2), 12_000, Paint::White(1000, 1000), badge)));
}

#[test]
fn only_one_card_has_the_ring() {
    let (app, mut core) = shown(vec![item(1, "a"), item(2, "b"), item(3, "c")]);
    core.selection = 1;
    let list = compose(&core, &app, 0).unwrap();
    let rings: Vec<usize> = list
        .iter()
        .enumerate()
        .filter(|(_, d)| matches!(d, Draw::Stroke(_, _, 3_000, _)))
        .map(|(i, _)| i)
        .collect();
    assert_eq!(rings.len(), 1);
    assert!(matches!(list[rings[0] - 1], Draw::Title(1, _, Paint::White(900, 1000), _, _)));
}

#[test]
fn title_falls_back_to_the_owner() {
    assert_eq!(label_text(&item(1, "a")), "a");
    assert_eq!(label_text(&item(1, "")), "Owner");
}

#[test]
fn label_keeps_its_end() {
    // Ten milli-points for every character.
    let measure = |s: &str| s.chars().count() as i64 * 10;
    assert_eq!(fit_label("short", 50, measure), "short");
    assert_eq!(fit_label("a long title", 50, measure), "…itle");
    assert_eq!(fit_label("窗口标题文字", 30, measure), "…文字");
    assert_eq!(fit_label("nothing fits", 9, measure), "…");
    assert_eq!(fit_label("", 0, measure), "");
}

#[test]
fn texts_are_centred() {
    let r = Rect { x: 10, y: 20, w: 100, h: 50 };
    assert_eq!(centred(&r, 40, 10), (40, 40));
    // A text that is too wide sticks out on both sides.
    assert_eq!(centred(&r, 111, 50), (4, 20));
}

#[test]
fn images_keep_their_shape() {
    let area = Rect { x: 100, y: 200, w: 320_000, h: 200_000 };
    assert_eq!(
        fit_image(&area, 640_000, 200_000),
        Some(Rect { x: 100, y: 50_200, w: 320_000, h: 100_000 })
    );
    assert_eq!(
        fit_image(&area, 100_000, 400_000),
        Some(Rect { x: 135_100, y: 200, w: 50_000, h: 200_000 })
    );
    assert_eq!(fit_image(&area, 1_000, 400_000), None);
    assert_eq!(fit_image(&area, 400_000, 0), None);
}

#[test]
fn hint_stands_at_the_lower_edge() {
    let pill = hint_pill(800_000, 100_000);
    assert_eq!(pill, Rect { x: 339_000, y: 2_000, w: 122_000, h: 18_000 });
    assert_eq!(hint_origin(&pill, 14_000), (350_000, 4_000));
}

#[test]
fn overlay_stands_in_the_middle_of_its_screen() {
    let (_, core) = shown(vec![item(1, "a")]);
    let l = core.layout.as_ref().unwrap();
    let want = overlay_frame((-500_000, 100_000, 1_000_000, 800_000), l);
    assert_eq!(want, Rect { x: -400_000, y: 368_000, w: 800_000, h: 264_000 });
    assert!(!needs_move(&want, &want));
    let near = Rect { x: want.x + 500, y: want.y - 500, w: want.w, h: want.h };
    assert!(!needs_move(&near, &want));
    let moved = Rect { x: want.x + 501, y: want.y, w: want.w, h: want.h };
    assert!(needs_move(&moved, &want));
    let smaller = Rect { x: want.x, y: want.y, w: want.w, h: want.h - 501 };
    assert!(needs_move(&smaller, &want));
}
