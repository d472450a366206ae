//! Laws of what is seen: the overlay's drawing, the pixels of thumbnails, the
//! choice of displays and windows, and the dialog about permissions.

use crate::accessibility;
use crate::accessibility::AxWin;
use crate::config::Config;
use crate::display;
use crate::display::Display;
use crate::layout::{ItemRect, Layout, Rect};
use crate::permissions;
use crate::permissions::{Pane, PermStatus};
use crate::render;
use crate::render::{Caption, Draw, Paint};
use crate::state::{Core, Item};
use crate::tags;
use crate::tags_laws;
use crate::util;
use vstd::prelude::*;

verus! {

// ---------- the overlay's drawing ----------

/// What one card contributes to the drawing.
spec fn draws_of(
    items: Seq<Item>,
    rects: Seq<ItemRect>,
    selection: usize,
    slots: Seq<Option<u32>>,
    i: int,
) -> Seq<Draw> {
    render::card_draws(
        i as usize,
        rects[i],
        i == selection,
        render::tag_of_window(slots, items[i].id),
    )
}

/// What the cards contribute to the drawing comes from one of them, and
/// everything that one of them contributes is there.
proof fn lemma_cards_draws(
    items: Seq<Item>,
    rects: Seq<ItemRect>,
    selection: usize,
    slots: Seq<Option<u32>>,
    n: int,
    d: Draw,
)
    requires
        0 <= n,
    ensures
        render::cards_draws(items, rects, selection, slots, n).contains(d) <==> exists|i: int|
            0 <= i < n && (#[trigger] draws_of(items, rects, selection, slots, i)).contains(d),
    decreases n,
{
    if n > 0 {
        lemma_cards_draws(items, rects, selection, slots, n - 1, d);
        let head = render::cards_draws(items, rects, selection, slots, n - 1);
        let one = draws_of(items, rects, selection, slots, n - 1);
        lemma_either(head, one, d);
        if exists|i: int|
            0 <= i < n && (#[trigger] draws_of(items, rects, selection, slots, i)).contains(d) {
            let i = choose|i: int|
                0 <= i < n && (#[trigger] draws_of(items, rects, selection, slots, i)).contains(d);
            if i < n - 1 {
                assert(draws_of(items, rects, selection, slots, i).contains(d));
            }
        }
    }
}

/// What stands in two lists put together stands in one of them.
proof fn lemma_either(a: Seq<Draw>, b: Seq<Draw>, d: Draw)
    ensures
        (a + b).contains(d) <==> a.contains(d) || b.contains(d),
{
    if (a + b).contains(d) {
        let k = choose|k: int| 0 <= k < (a + b).len() && (a + b)[k] == d;
        if k < a.len() {
            assert(a[k] == d);
        } else {
            assert(b[k - a.len()] == d);
        }
    }
    if a.contains(d) {
        let k = choose|k: int| 0 <= k < a.len() && a[k] == d;
        assert((a + b)[k] == d);
    }
    if b.contains(d) {
        let k = choose|k: int| 0 <= k < b.len() && b[k] == d;
        assert((a + b)[a.len() + k] == d);
    }
}

/// What the whole drawing holds.
proof fn lemma_overlay_draws(core: Core, layout: Layout, hint: bool, d: Draw)
    ensures
        render::overlay_draws(core, layout, hint).contains(d) <==> {
            let full = Rect { x: 0, y: 0, w: layout.total_w, h: layout.total_h };
            ||| d == Draw::Fill(full, 18_000, Paint::White(130, 940))
            ||| core.items@.len() == 0 && d == Draw::Text(
                Caption::NoWindows,
                14_000,
                Paint::White(800, 1000),
                full,
            )
            ||| exists|i: int|
                0 <= i < core.items@.len() && (#[trigger] draws_of(
                    core.items@,
                    layout.rects@,
                    core.selection,
                    core.tags@,
                    i,
                )).contains(d)
            ||| hint && d == Draw::Hint
        },
{
    let full = Rect { x: 0, y: 0, w: layout.total_w, h: layout.total_h };
    let n = core.items@.len() as int;
    let a = seq![Draw::Fill(full, 18_000, Paint::White(130, 940))];
    let b = if core.items@.len() == 0 {
        seq![Draw::Text(Caption::NoWindows, 14_000, Paint::White(800, 1000), full)]
    } else {
        Seq::empty()
    };
    let c = render::cards_draws(core.items@, layout.rects@, core.selection, core.tags@, n);
    let e = if hint {
        seq![Draw::Hint]
    } else {
        Seq::empty()
    };
    lemma_cards_draws(core.items@, layout.rects@, core.selection, core.tags@, n, d);
    lemma_either(a + b + c, e, d);
    lemma_either(a + b, c, d);
    lemma_either(a, b, d);
    lemma_one(Draw::Fill(full, 18_000, Paint::White(130, 940)), d);
    lemma_one(Draw::Text(Caption::NoWindows, 14_000, Paint::White(800, 1000), full), d);
    lemma_one(Draw::Hint, d);
    assert(!Seq::<Draw>::empty().contains(d));
}

proof fn lemma_one(x: Draw, d: Draw)
    ensures
        seq![x].contains(d) <==> d == x,
{
    if d == x {
        assert(seq![x][0] == d);
    }
}

/// What one card holds.
proof fn lemma_card_draws(index: usize, r: ItemRect, selected: bool, tag: Option<usize>, d: Draw)
    ensures
        render::card_draws(index, r, selected, tag).contains(d) <==> {
            let card = render::card_area(r);
            let white: u32 = if selected {
                900
            } else {
                800
            };
            ||| d == Draw::Fill(card, 12_000, Paint::White(240, 950))
            ||| d == Draw::Thumb(index, r.thumb, card, 12_000, Paint::White(90, 900))
            ||| d == Draw::Stroke(card, 12_000, 1_000, Paint::White(550, 220))
            ||| d == Draw::Fill(render::divider_area(r), 0, Paint::White(900, 140))
            ||| d == Draw::Title(
                index,
                13_000,
                Paint::White(white, 1000),
                r.label,
                render::title_room(r),
            )
            ||| selected && d == Draw::Stroke(card, 12_000, 3_000, Paint::Rgb(300, 600, 1000, 1000))
            ||| tag is Some && d == Draw::Fill(
                render::badge_area(r),
                5_000,
                Paint::Rgb(950, 620, 50, 950),
            )
            ||| tag is Some && d == Draw::Text(
                Caption::Number(tag->0),
                12_000,
                Paint::White(1000, 1000),
                render::badge_area(r),
            )
        },
{
    let all = render::card_draws(index, r, selected, tag);
    let n: int = if selected {
        6
    } else {
        5
    };
    assert(all.len() == n + (if tag is Some {
        2int
    } else {
        0int
    }));
    if all.contains(d) {
        let k = choose|k: int| 0 <= k < all.len() && all[k] == d;
        assert(k == 0 || k == 1 || k == 2 || k == 3 || k == 4 || k == 5 || k == 6 || k == 7);
    }
    assert(all.contains(all[0]) && all.contains(all[1]) && all.contains(all[2]) && all.contains(
        all[3],
    ) && all.contains(all[4]));
    if selected {
        assert(all.contains(all[5]));
    }
    if tag is Some {
        assert(all.contains(all[n]) && all.contains(all[n + 1]));
    }
}

/// The area of a card: its thumbnail and the title under it.
pub open spec fn around(area: Rect, r: ItemRect) -> bool {
    &&& area.x == r.thumb.x
    &&& area.w == r.thumb.w
    &&& area.y == r.label.y
    &&& area.h == r.thumb.h + r.label.h
}

/// The ring marks the selected card and no other: the thick line is drawn around
/// the thumbnail and the title of the selected entry, once and nowhere else.
pub proof fn law_ring_marks_the_selection(core: Core, layout: Layout, hint: bool, area: Rect)
    requires
        core.wf(),
        layout.wf(),
        layout.rects@.len() == core.items@.len(),
        core.items@.len() > 0,
    ensures
        render::overlay_draws(core, layout, hint).contains(
            Draw::Stroke(area, 12_000, 3_000, Paint::Rgb(300, 600, 1000, 1000)),
        ) <==> around(area, layout.rects@[core.selection as int]),
{
    let d = Draw::Stroke(area, 12_000, 3_000, Paint::Rgb(300, 600, 1000, 1000));
    lemma_overlay_draws(core, layout, hint, d);
    let s = core.selection as int;
    let r = layout.rects@[s];
    assert(layout.inside(r.thumb) && layout.inside(r.label));
    if render::overlay_draws(core, layout, hint).contains(d) {
        let i = choose|i: int|
            0 <= i < core.items@.len() && (#[trigger] draws_of(
                core.items@,
                layout.rects@,
                core.selection,
                core.tags@,
                i,
            )).contains(d);
        lemma_card_draws(
            i as usize,
            layout.rects@[i],
            i == s,
            render::tag_of_window(core.tags@, core.items@[i].id),
            d,
        );
    }
    if around(area, r) {
        lemma_card_draws(
            s as usize,
            r,
            true,
            render::tag_of_window(core.tags@, core.items@[s].id),
            d,
        );
        assert(draws_of(core.items@, layout.rects@, core.selection, core.tags@, s).contains(d));
    }
}

/// Every entry is drawn in its place: its image inside the thumbnail's area and
/// its title under it, shortened so that 8 points stay free on each side.
pub proof fn law_entries_are_drawn_in_their_places(
    core: Core,
    layout: Layout,
    hint: bool,
    i: int,
)
    requires
        core.wf(),
        layout.wf(),
        layout.rects@.len() == core.items@.len(),
        0 <= i < core.items@.len(),
        layout.rects@[i].label.w >= 16_000,
    ensures
        exists|area: Rect| #[trigger]
            around(area, layout.rects@[i]) && render::overlay_draws(core, layout, hint).contains(
                Draw::Thumb(
                    i as usize,
                    layout.rects@[i].thumb,
                    area,
                    12_000,
                    Paint::White(90, 900),
                ),
            ),
        ({
            let white: u32 = if i == core.selection {
                900
            } else {
                800
            };
            render::overlay_draws(core, layout, hint).contains(
                Draw::Title(
                    i as usize,
                    13_000,
                    Paint::White(white, 1000),
                    layout.rects@[i].label,
                    (layout.rects@[i].label.w - 16_000) as i64,
                ),
            )
        }),
{
    let r = layout.rects@[i];
    assert(layout.inside(r.thumb) && layout.inside(r.label));
    let sel = i == core.selection;
    let tag = render::tag_of_window(core.tags@, core.items@[i].id);
    let area = render::card_area(r);
    let white: u32 = if sel {
        900
    } else {
        800
    };
    let thumb = Draw::Thumb(i as usize, r.thumb, area, 12_000, Paint::White(90, 900));
    let title = Draw::Title(
        i as usize,
        13_000,
        Paint::White(white, 1000),
        r.label,
        (r.label.w - 16_000) as i64,
    );
    lemma_card_draws(i as usize, r, sel, tag, thumb);
    lemma_card_draws(i as usize, r, sel, tag, title);
    assert(draws_of(core.items@, layout.rects@, core.selection, core.tags@, i).contains(thumb));
    assert(draws_of(core.items@, layout.rects@, core.selection, core.tags@, i).contains(title));
    lemma_overlay_draws(core, layout, hint, thumb);
    lemma_overlay_draws(core, layout, hint, title);
    assert(around(area, r));
}

/// A tagged window has a badge with its tag's number in the upper right corner
/// of its thumbnail, and there are no other badges.
pub proof fn law_badges_show_the_tags(core: Core, layout: Layout, hint: bool, n: usize, area: Rect)
    requires
        core.wf(),
        layout.wf(),
        layout.rects@.len() == core.items@.len(),
    ensures
        render::overlay_draws(core, layout, hint).contains(
            Draw::Text(Caption::Number(n), 12_000, Paint::White(1000, 1000), area),
        ) <==> exists|i: int|
            0 <= i < core.items@.len() && 1 <= n <= 3 && core.tags@[n - 1] == Some(
                (#[trigger] core.items@[i]).id,
            ) && area.x == layout.rects@[i].thumb.x + layout.rects@[i].thumb.w - 26_000 && area.y
                == layout.rects@[i].thumb.y + layout.rects@[i].thumb.h - 24_000 && area.w == 20_000
                && area.h == 18_000,
{
    let d = Draw::Text(Caption::Number(n), 12_000, Paint::White(1000, 1000), area);
    lemma_overlay_draws(core, layout, hint, d);
    assert(core.tags@.len() == 3);
    if render::overlay_draws(core, layout, hint).contains(d) {
        let i = choose|i: int|
            0 <= i < core.items@.len() && (#[trigger] draws_of(
                core.items@,
                layout.rects@,
                core.selection,
                core.tags@,
                i,
            )).contains(d);
        let r = layout.rects@[i];
        assert(layout.inside(r.thumb) && layout.inside(r.label));
        let tag = render::tag_of_window(core.tags@, core.items@[i].id);
        lemma_card_draws(i as usize, r, i == core.selection, tag, d);
        tags_laws::law_badge_number_switches_to_its_window(core.tags@, core.items@[i].id);
        assert(core.tags@[n - 1] == Some(core.items@[i].id));
    }
    if exists|i: int|
        0 <= i < core.items@.len() && 1 <= n <= 3 && core.tags@[n - 1] == Some(
            (#[trigger] core.items@[i]).id,
        ) && area.x == layout.rects@[i].thumb.x + layout.rects@[i].thumb.w - 26_000 && area.y
            == layout.rects@[i].thumb.y + layout.rects@[i].thumb.h - 24_000 && area.w == 20_000
            && area.h == 18_000 {
        let i = choose|i: int|
            0 <= i < core.items@.len() && 1 <= n <= 3 && core.tags@[n - 1] == Some(
                (#[trigger] core.items@[i]).id,
            ) && area.x == layout.rects@[i].thumb.x + layout.rects@[i].thumb.w - 26_000 && area.y
                == layout.rects@[i].thumb.y + layout.rects@[i].thumb.h - 24_000 && area.w == 20_000
                && area.h == 18_000;
        let r = layout.rects@[i];
        assert(layout.inside(r.thumb) && layout.inside(r.label));
        let id = core.items@[i].id;
        let tag = render::tag_of_window(core.tags@, id);
        tags_laws::law_badge_number_switches_to_its_window(core.tags@, id);
        assert(tag is Some);
        let m = tag->0;
        assert(core.tags@[m - 1] == Some(id));
        assert(m == n);
        lemma_card_draws(i as usize, r, i == core.selection, tag, d);
        assert(draws_of(core.items@, layout.rects@, core.selection, core.tags@, i).contains(d));
    }
}

/// The overlay says that there are no windows exactly if there are none, and
/// shows the hint exactly if there is one to be seen.
pub proof fn law_notices_on_the_overlay(core: Core, layout: Layout, hint: bool)
    ensures
        ({
            let full = Rect { x: 0, y: 0, w: layout.total_w, h: layout.total_h };
            let notice = Draw::Text(Caption::NoWindows, 14_000, Paint::White(800, 1000), full);
            &&& render::overlay_draws(core, layout, hint).contains(notice) <==> core.items@.len()
                == 0
            &&& render::overlay_draws(core, layout, hint).contains(Draw::Hint) <==> hint
            &&& render::overlay_draws(core, layout, hint)[0] == Draw::Fill(
                full,
                18_000,
                Paint::White(130, 940),
            )
        }),
{
    let full = Rect { x: 0, y: 0, w: layout.total_w, h: layout.total_h };
    let notice = Draw::Text(Caption::NoWindows, 14_000, Paint::White(800, 1000), full);
    lemma_overlay_draws(core, layout, hint, notice);
    lemma_overlay_draws(core, layout, hint, Draw::Hint);
    assert forall|i: int| 0 <= i < core.items@.len() implies !(#[trigger] draws_of(
        core.items@,
        layout.rects@,
        core.selection,
        core.tags@,
        i,
    )).contains(notice) && !draws_of(
        core.items@,
        layout.rects@,
        core.selection,
        core.tags@,
        i,
    ).contains(Draw::Hint) by {
        let tag = render::tag_of_window(core.tags@, core.items@[i].id);
        let sel = i == core.selection;
        lemma_card_draws(i as usize, layout.rects@[i], sel, tag, notice);
        lemma_card_draws(i as usize, layout.rects@[i], sel, tag, Draw::Hint);
    }
}

/// An entry is called by its window's title, and by its app's name only if the
/// window has none.
pub proof fn law_entries_are_called_by_their_titles(item: Item)
    ensures
        item.title@.len() > 0 ==> render::name_of(item) == item.title@,
        item.title@.len() == 0 ==> render::name_of(item) == item.owner@,
{
}

/// A shortened title keeps its end, behind an ellipsis.
pub proof fn law_shortened_titles_keep_their_end(s: Seq<char>, n: int)
    requires
        0 <= n <= s.len(),
    ensures
        render::shortened(s, n) == seq!['…'] + s.skip(s.len() - n),
{
    reveal_strlit("…");
    assert("…"@ =~= seq!['…']);
    if n == s.len() {
        assert(s.skip(0) =~= s);
    }
}

/// An image keeps its shape when it is fitted into its area, to the last
/// milli-point.
pub proof fn law_fitted_images_keep_their_shape(area: Rect, img_w: int, img_h: int)
    requires
        area.w >= 0,
        area.h >= 0,
        img_w > 0,
        img_h > 0,
    ensures
        ({
            let (w, h) = render::fitted(area, img_w, img_h);
            ||| w == area.w && h * img_w <= w * img_h < (h + 1) * img_w
            ||| h == area.h && w * img_h <= h * img_w < (w + 1) * img_h
        }),
{
    let (w, h) = render::fitted(area, img_w, img_h);
    let aw = area.w as int;
    let ah = area.h as int;
    if aw * img_h <= ah * img_w {
        vstd::arithmetic::div_mod::lemma_fundamental_div_mod(img_h * aw, img_w);
        assert(h * img_w <= w * img_h < (h + 1) * img_w) by (nonlinear_arith)
            requires
                w == aw,
                img_h * aw == img_w * h + (img_h * aw) % img_w,
                0 <= (img_h * aw) % img_w < img_w,
        ;
    } else {
        vstd::arithmetic::div_mod::lemma_fundamental_div_mod(img_w * ah, img_h);
        assert(w * img_h <= h * img_w < (w + 1) * img_h) by (nonlinear_arith)
            requires
                h == ah,
                img_w * ah == img_h * w + (img_w * ah) % img_h,
                0 <= (img_w * ah) % img_h < img_h,
        ;
    }
}

/// The overlay's window is moved only by more than half a point.
pub proof fn law_small_moves_do_not_count(a: i64, b: i64)
    ensures
        render::apart(a, b) <==> a > b + 500 || b > a + 500,
{
}

// ---------- displays and pixels ----------

/// A point on the border between two displays belongs to the right or lower one
/// alone.
pub proof fn law_neighbouring_displays_share_no_point(a: Display, b: Display, x: i32, y: i32)
    requires
        b.x == a.x + a.w || b.y == a.y + a.h,
        a.has(x, y),
    ensures
        !b.has(x, y),
{
}

/// Every point between the edges of a display lies on it.
pub proof fn law_display_has_its_points(a: Display, x: i32, y: i32)
    ensures
        a.has(x, y) <==> a.x <= x && x < a.x + a.w && a.y <= y && y < a.y + a.h,
{
}

/// Rounding goes to the nearest whole number, and up from the middle.
pub proof fn law_rounding_is_to_the_nearest(a: int, b: int)
    requires
        b > 0,
    ensures
        ({
            let r = display::rounded(a, b);
            2 * b * r <= 2 * a + b && 2 * a < 2 * b * r + b
        }),
{
    let r = display::rounded(a, b);
    vstd::arithmetic::div_mod::lemma_fundamental_div_mod(2 * a + b, 2 * b);
    assert(2 * b * r <= 2 * a + b && 2 * a < 2 * b * r + b) by (nonlinear_arith)
        requires
            2 * a + b == (2 * b) * r + (2 * a + b) % (2 * b),
            0 <= (2 * a + b) % (2 * b) < 2 * b,
    ;
}

/// Thumbnails have as many pixels as their height in points takes on the screen:
/// on a screen of scale one, with no extra crispness, one pixel per point.
pub proof fn law_thumbnail_pixels(cfg: &Config, scale: u32)
    requires
        cfg.thumb_height > 0,
        cfg.thumb_px_scale == 1_000_000,
    ensures
        ({
            let px = display::pixel_height(cfg, scale);
            let exact = cfg.thumb_height * scale;
            2 * px * 1_000_000 <= 2 * exact + 1_000_000 && 2 * exact < 2 * px * 1_000_000
                + 1_000_000
        }),
{
    law_rounding_is_to_the_nearest(
        cfg.thumb_height * scale * cfg.thumb_px_scale,
        1_000_000_000_000,
    );
}

// ---------- the window to raise ----------

/// The window that is raised for an entry stands where the entry's window is: its
/// place differs by at most 6 points and its size by at most 8.
pub proof fn law_raised_window_is_in_place(item: Item, wins: Seq<AxWin>, found: usize)
    requires
        accessibility::is_target(item, wins, Some(found)),
    ensures
        found < wins.len(),
        wins[found as int].bounds matches Some(b) && {
            &&& -6_000 <= b.0 - item.x <= 6_000
            &&& -6_000 <= b.1 - item.y <= 6_000
            &&& -8_000 <= b.2 - item.w <= 8_000
            &&& -8_000 <= b.3 - item.h <= 8_000
        },
{
}

/// A window in place is found if there is one.
pub proof fn law_window_in_place_is_found(item: Item, wins: Seq<AxWin>, found: Option<usize>, k: int)
    requires
        accessibility::is_target(item, wins, found),
        0 <= k < wins.len(),
        wins[k].bounds matches Some(b) && {
            &&& -6_000 <= b.0 - item.x <= 6_000
            &&& -6_000 <= b.1 - item.y <= 6_000
            &&& -8_000 <= b.2 - item.w <= 8_000
            &&& -8_000 <= b.3 - item.h <= 8_000
        },
    ensures
        found is Some,
{
    assert(accessibility::at_place(item, wins[k]));
    let n = wins.len() as int;
    let here = |k: int| accessibility::at_place(item, wins[k]);
    let own = |k: int|
        accessibility::at_place(item, wins[k]) && accessibility::own_process(item, wins[k]);
    let full = |k: int| accessibility::full_match(item, wins[k]);
    if found is None {
        if item.title@.len() > 0 && exists|k: int|
            0 <= k < n && accessibility::full_match(item, #[trigger] wins[k]) {
            let m = choose|m: int| 0 <= m < n && accessibility::full_match(item, #[trigger] wins[m]);
            assert(full(m));
        } else if exists|k: int|
            0 <= k < n && accessibility::at_place(item, #[trigger] wins[k])
                && accessibility::own_process(item, wins[k]) {
            let m = choose|m: int|
                0 <= m < n && accessibility::at_place(item, #[trigger] wins[m])
                    && accessibility::own_process(item, wins[m]);
            assert(own(m));
        } else {
            assert(here(k));
        }
    }
}

/// Of several windows in place the one with the entry's title is raised, if it
/// is not known to belong to another process; the title's surrounding white
/// space does not count.
pub proof fn law_title_decides_between_windows_in_place(
    item: Item,
    wins: Seq<AxWin>,
    found: usize,
    k: int,
)
    requires
        accessibility::is_target(item, wins, Some(found)),
        item.title@.len() > 0,
        0 <= k < wins.len(),
        wins[k].pid is None || wins[k].pid == Some(item.pid),
        wins[k].title matches Some(t) && util::trimmed(t@) == util::trimmed(item.title@),
        wins[k].bounds matches Some(b) && {
            &&& -6_000 <= b.0 - item.x <= 6_000
            &&& -6_000 <= b.1 - item.y <= 6_000
            &&& -8_000 <= b.2 - item.w <= 8_000
            &&& -8_000 <= b.3 - item.h <= 8_000
        },
    ensures
        found <= k,
        wins[found as int].title matches Some(t) && util::trimmed(t@) == util::trimmed(item.title@),
        wins[found as int].pid is None || wins[found as int].pid == Some(item.pid),
{
    assert(accessibility::full_match(item, wins[k]));
    let full = |k: int| accessibility::full_match(item, wins[k]);
    assert(full(k));
    assert(full(found as int));
}

// ---------- permissions ----------

/// The buttons of the dialog count from 1000. With both permissions missing the
/// first opens Accessibility and the second Screen Recording; with one missing
/// the first opens that one. The button for later, and any other answer, opens
/// nothing.
pub proof fn law_answers_open_their_panes(status: PermStatus, response: i64)
    ensures
        !status.accessibility && response == 1000 ==> permissions::answered(status, response)
            == Some(Pane::Accessibility),
        status.accessibility && !status.screen_recording && response == 1000
            ==> permissions::answered(status, response) == Some(Pane::ScreenRecording),
        !status.screen_recording && response == 1001 ==> permissions::answered(status, response)
            == Some(Pane::ScreenRecording),
        status.screen_recording && response == 1001 ==> permissions::answered(status, response)
            is None,
        status.accessibility && status.screen_recording ==> permissions::answered(status, response)
            is None,
        response < 1000 || response > 1001 ==> permissions::answered(status, response) is None,
{
}

/// The dialog names each permission that is missing, on a line of its own, and
/// none that is granted.
pub proof fn law_dialog_names_what_is_missing(status: PermStatus)
    ensures
        ({
            let ax = "• 辅助功能 — 拦截 ⌘Tab / ⌘` 并置前窗口"@;
            let screen = "• 屏幕录制 — 显示窗口缩略图与标题"@;
            let lines = permissions::missing_lines(status);
            &&& !status.accessibility && status.screen_recording ==> lines == ax
            &&& status.accessibility && !status.screen_recording ==> lines == screen
            &&& !status.accessibility && !status.screen_recording ==> lines == ax + "\n"@ + screen
            &&& status.accessibility && status.screen_recording ==> lines.len() == 0
        }),
{
}

/// The tag of a window, by the slots: the badge's number is one more than the
/// slot's position.
pub proof fn law_tag_number_is_the_slot_plus_one(slots: Seq<Option<u32>>, id: u32, i: int)
    requires
        slots.len() == 3,
        0 <= i < 3,
        slots[i] == Some(id),
        forall|k: int| 0 <= k < i ==> #[trigger] slots[k] != Some(id),
    ensures
        render::tag_of_window(slots, id) is Some,
        render::tag_of_window(slots, id)->0 == i + 1,
{
    let has_id = |t: Option<u32>| t == Some(id);
    tags::lemma_first_slot(slots, has_id, Some(i as usize));
}

/// How an app is activated: only if it has several windows and the right one
/// could be raised or focused do the others stay where they are.
pub proof fn law_other_windows_stay_behind(item: Item, raise_ok: bool, focus_ok: bool)
    ensures
        item.n_same_pid <= 1 ==> accessibility::options_for(item, raise_ok, focus_ok) == 3,
        !raise_ok && !focus_ok ==> accessibility::options_for(item, raise_ok, focus_ok) == 3,
        item.n_same_pid >= 2 && raise_ok ==> accessibility::options_for(item, raise_ok, focus_ok)
            == 2,
        item.n_same_pid >= 2 && focus_ok ==> accessibility::options_for(item, raise_ok, focus_ok)
            == 2,
{
}

/// A screen is known by its display's number; the number zero is no display's.
pub proof fn law_screens_go_by_their_display(s: display::Screen, id: u32)
    ensures
        display::is_screen_of(s, id) ==> s.id == Some(id) && id > 0,
        s.id == Some(id) && id > 0 ==> display::is_screen_of(s, id),
{
}

} // verus!
