//! What holds of every layout and of every step in it.

use crate::config::Config;
use crate::layout;
use crate::layout::{Dir, ItemRect, Layout, GAP, LABEL_H, PAD, SMALLEST_H};
use crate::state::Item;
use vstd::prelude::*;

verus! {

/// The place of item `i` in rows that list `0..n` in order.
pub proof fn lemma_place(rows: Seq<Seq<usize>>, n: int, i: int, upto: int) -> (place: (int, int))
    requires
        layout::rows_in_order(rows, n),
        0 <= upto <= rows.len(),
        0 <= i < layout::row_start(rows, upto),
    ensures
        0 <= place.0 < upto,
        0 <= place.1 < rows[place.0].len(),
        rows[place.0][place.1] == i,
        layout::row_start(rows, place.0) + place.1 == i,
    decreases upto,
{
    if i >= layout::row_start(rows, upto - 1) {
        let c = i - layout::row_start(rows, upto - 1);
        assert(rows[upto - 1][c] == layout::row_start(rows, upto - 1) + c);
        (upto - 1, c)
    } else {
        lemma_place(rows, n, i, upto - 1)
    }
}

/// Rows further down start later.
proof fn lemma_starts_grow(rows: Seq<Seq<usize>>, a: int, b: int)
    requires
        0 <= a <= b <= rows.len(),
    ensures
        layout::row_start(rows, a) <= layout::row_start(rows, b),
    decreases b - a,
{
    if a < b {
        lemma_starts_grow(rows, a, b - 1);
    }
}

/// Every item has exactly one place in a layout, and that is its position.
pub proof fn lemma_position_is_unique(layout: Layout, idx: usize, r: int, c: int)
    requires
        layout.wf(),
        layout.at(r, c, idx),
    ensures
        layout.pos(idx) == (r as usize, c as usize),
        layout.pos(idx).0 == r,
        layout.pos(idx).1 == c,
{
    let rows = layout::rows_view(layout.rows@);
    assert forall|q: int, k: int| layout.at(q, k, idx) implies q == r && k == c by {
        assert(rows[q] == layout.rows@[q]@);
        assert(rows[r] == layout.rows@[r]@);
        assert(rows[q][k] == layout::row_start(rows, q) + k);
        assert(rows[r][c] == layout::row_start(rows, r) + c);
        if q < r {
            lemma_starts_grow(rows, q + 1, r);
        }
        if r < q {
            lemma_starts_grow(rows, r + 1, q);
        }
    }
    assert(layout.rows.len() == layout.rows@.len());
    assert(layout.rows@[r].len() == layout.rows@[r]@.len());
    assert(layout.is_pos(idx, (r as usize, c as usize)));
}

/// The position of an item of the layout is a place where it stands.
pub proof fn lemma_position_exists(layout: Layout, idx: usize)
    requires
        layout.wf(),
        idx < layout.rects@.len(),
    ensures
        layout.at(layout.pos(idx).0 as int, layout.pos(idx).1 as int, idx),
{
    let rows = layout::rows_view(layout.rows@);
    let place = lemma_place(rows, layout.rects@.len() as int, idx as int, rows.len() as int);
    assert(rows[place.0] == layout.rows@[place.0]@);
    assert(layout.at(place.0, place.1, idx));
    lemma_position_is_unique(layout, idx, place.0, place.1);
}

/// With wrapping, a step to the right undoes a step to the left, and a step to
/// the left undoes a step to the right.
pub proof fn law_horizontal_steps_undo(layout: Layout, idx: usize, there: usize, back: usize)
    requires
        layout.wf(),
        idx < layout.rects@.len(),
        ({
            ||| layout.leads_to(idx, Dir::Left, true, there) && layout.leads_to(
                there,
                Dir::Right,
                true,
                back,
            )
            ||| layout.leads_to(idx, Dir::Right, true, there) && layout.leads_to(
                there,
                Dir::Left,
                true,
                back,
            )
        }),
    ensures
        back == idx,
{
    lemma_position_exists(layout, idx);
    let r = layout.pos(idx).0 as int;
    let c = layout.pos(idx).1 as int;
    let row = layout.rows@[r]@;
    assert forall|k: int| 0 <= k < row.len() && there == #[trigger] row[k] implies layout.pos(there).0
        == r && layout.pos(there).1 == k by {
        assert(layout.at(r, k, there));
        lemma_position_is_unique(layout, there, r, k);
    }
    if row.len() > 1 {
        if c > 0 {
            assert(layout.at(r, c - 1, row[c - 1]));
        }
        if c + 1 < row.len() {
            assert(layout.at(r, c + 1, row[c + 1]));
        }
        assert(layout.at(r, row.len() - 1, row.last()));
        assert(layout.at(r, 0, row[0]));
    }
}

/// One step forwards and one step backwards in a circle of `n`.
pub proof fn lemma_turn(i: int, n: int)
    requires
        0 <= i < n,
    ensures
        (i + 1) % n == (if i + 1 < n {
            i + 1
        } else {
            0
        }),
        (i + n - 1) % n == (if i > 0 {
            i - 1
        } else {
            n - 1
        }),
{
    if i + 1 < n {
        vstd::arithmetic::div_mod::lemma_small_mod((i + 1) as nat, n as nat);
    } else {
        vstd::arithmetic::div_mod::lemma_mod_self_0(n);
    }
    if i > 0 {
        vstd::arithmetic::div_mod::lemma_mod_add_multiples_vanish(i - 1, n);
        vstd::arithmetic::div_mod::lemma_small_mod((i - 1) as nat, n as nat);
    } else {
        vstd::arithmetic::div_mod::lemma_small_mod((n - 1) as nat, n as nat);
    }
}

/// The steps to the next and to the previous item undo each other.
pub proof fn law_linear_steps_undo(
    layout: Layout,
    idx: usize,
    wrap: bool,
    there: usize,
    back: usize,
)
    requires
        idx < layout.rects@.len(),
        ({
            ||| layout.leads_to(idx, Dir::Next, wrap, there) && layout.leads_to(
                there,
                Dir::Prev,
                wrap,
                back,
            )
            ||| layout.leads_to(idx, Dir::Prev, wrap, there) && layout.leads_to(
                there,
                Dir::Next,
                wrap,
                back,
            )
        }),
    ensures
        back == idx,
{
    let n = layout.rects@.len() as int;
    lemma_turn(idx as int, n);
    lemma_turn(there as int, n);
}

/// A horizontal step stays in its row.
pub proof fn law_horizontal_step_keeps_row(
    layout: Layout,
    idx: usize,
    dir: Dir,
    wrap: bool,
    to: usize,
)
    requires
        layout.wf(),
        idx < layout.rects@.len(),
        dir is Left || dir is Right,
        layout.leads_to(idx, dir, wrap, to),
    ensures
        layout.pos(to).0 == layout.pos(idx).0,
{
    lemma_position_exists(layout, idx);
    let r = layout.pos(idx).0 as int;
    let c = layout.pos(idx).1 as int;
    let row = layout.rows@[r]@;
    assert(exists|k: int| 0 <= k < row.len() && to == #[trigger] row[k]) by {
        assert(row[c] == idx);
        if row.len() > 1 {
            assert(row.last() == row[row.len() - 1]);
        }
    }
    let k = choose|k: int| 0 <= k < row.len() && to == #[trigger] row[k];
    assert(layout.at(r, k, to));
    lemma_position_is_unique(layout, to, r, k);
}

/// A vertical step leads to the neighbouring row, at the grid's edge to the
/// opposite row when wrapping and nowhere when not.
pub proof fn law_vertical_step_changes_row(
    layout: Layout,
    idx: usize,
    dir: Dir,
    wrap: bool,
    to: usize,
)
    requires
        layout.wf(),
        idx < layout.rects@.len(),
        dir is Up || dir is Down,
        layout.leads_to(idx, dir, wrap, to),
    ensures
        layout.pos(to).0 == (if dir is Up {
            layout.row_above(layout.pos(idx).0 as int, wrap)
        } else {
            layout.row_below(layout.pos(idx).0 as int, wrap)
        }),
{
    lemma_position_exists(layout, idx);
    let r = layout.pos(idx).0 as int;
    let nr = if dir is Up {
        layout.row_above(r, wrap)
    } else {
        layout.row_below(r, wrap)
    };
    if nr != r {
        let row = layout.rows@[nr]@;
        assert(layout.is_nearest(nr, idx, to));
        let k = choose|k: int| 0 <= k < row.len() && to == #[trigger] row[k];
        assert(layout.at(nr, k, to));
        lemma_position_is_unique(layout, to, nr, k);
    }
}

// ---------- geometry ----------

proof fn lemma_fitted_height_positive(items: Seq<Item>, max_w: int, screen_h: int, h: int)
    requires
        h > 0,
    ensures
        0 < layout::fitted_height(items, max_w, screen_h, h) <= h,
    decreases h,
{
    if !(layout::grid_fits(items, max_w, screen_h, h) || h <= SMALLEST_H) {
        lemma_fitted_height_positive(items, max_w, screen_h, h * 92 / 100);
    }
}

/// The search for the thumbnails' height ends when the grid fits or when they
/// are as small as they get.
proof fn lemma_fitted_height_fits(items: Seq<Item>, max_w: int, screen_h: int, h: int)
    ensures
        ({
            let fitted = layout::fitted_height(items, max_w, screen_h, h);
            layout::grid_fits(items, max_w, screen_h, fitted) || fitted <= SMALLEST_H
        }),
    decreases h,
{
    if !(layout::grid_fits(items, max_w, screen_h, h) || h <= SMALLEST_H) {
        lemma_fitted_height_fits(items, max_w, screen_h, h * 92 / 100);
    }
}

proof fn lemma_span_steps(widths: Seq<int>, s: int, a: int, b: int, e: int)
    requires
        0 <= s <= a <= b <= e <= widths.len(),
        forall|i: int| 0 <= i < widths.len() ==> #[trigger] widths[i] >= 0,
    ensures
        layout::span(widths, s, a) <= layout::span(widths, s, b) <= layout::span(widths, s, e),
        layout::span(widths, s, a) >= 0,
    decreases e - s,
{
    if b < e {
        lemma_span_steps(widths, s, a, b, e - 1);
    } else if a < b {
        lemma_span_steps(widths, s, a, b - 1, b - 1);
    } else if s < a {
        lemma_span_steps(widths, s, a - 1, a - 1, a - 1);
    }
}

/// The horizontal extent of the card in row `r`, column `c`.
proof fn lemma_card_extent(
    layout: Layout,
    widths: Seq<int>,
    max_w: int,
    h: int,
    r: int,
    c: int,
    rect: ItemRect,
)
    requires
        layout.is_grid(widths, max_w, h),
        forall|i: int| 0 <= i < widths.len() ==> #[trigger] widths[i] >= 0,
        0 <= r < layout.rows@.len(),
        0 <= c < layout.rows@[r]@.len(),
        h >= 0,
        layout::card_at(layout::rows_view(layout.rows@), widths, max_w, h, r, c, rect),
    ensures
        PAD <= rect.thumb.x,
        rect.thumb.x + rect.thumb.w <= layout.total_w - PAD,
        PAD <= rect.label.y,
        rect.thumb.y + rect.thumb.h <= layout.total_h - PAD,
        r == 0 ==> rect.thumb.y + rect.thumb.h == layout.total_h - PAD,
        r == layout.rows@.len() - 1 ==> rect.label.y == PAD,
{
    let rows = layout::rows_view(layout.rows@);
    let s = layout::row_start(rows, r);
    assert(rows[r] == layout.rows@[r]@);
    lemma_starts_grow(rows, 0, r);
    lemma_starts_grow(rows, r + 1, rows.len() as int);
    assert(layout::row_start(rows, r + 1) == s + rows[r].len());
    assert(layout::row_width(widths, rows, r) <= max_w - 2 * PAD);
    lemma_span_steps(widths, s, s + c, s + c + 1, s + rows[r].len());
    assert(layout::span(widths, s, s + c + 1) == layout::span(widths, s, s + c) + widths[s + c] + GAP);
    let n = rows.len() as int;
    assert((n - 1 - r) * (h + LABEL_H + GAP) >= 0 && (n - 1 - r) * (h + LABEL_H + GAP) <= (n - 1)
        * (h + LABEL_H + GAP)) by (nonlinear_arith)
        requires
            0 <= r < n,
            h >= 0,
            LABEL_H >= 0,
            GAP >= 0,
    ;
    assert((n - 1) * (h + LABEL_H + GAP) + (h + LABEL_H) == n * (h + LABEL_H) + (n - 1) * GAP)
        by (nonlinear_arith);
    if r == n - 1 {
        assert((n - 1 - r) * (h + LABEL_H + GAP) == 0) by (nonlinear_arith)
            requires
                r == n - 1,
        ;
    }
    if r == 0 {
        assert((n - 1 - r) * (h + LABEL_H + GAP) == (n - 1) * (h + LABEL_H + GAP))
            by (nonlinear_arith)
            requires
                r == 0,
        ;
    }
}

/// Two cards keep a gap between them: side by side in one row, or one above
/// the other.
pub open spec fn cards_apart(a: ItemRect, b: ItemRect) -> bool {
    ||| a.thumb.x + a.thumb.w + GAP <= b.thumb.x
    ||| b.thumb.x + b.thumb.w + GAP <= a.thumb.x
    ||| a.thumb.y + a.thumb.h + GAP <= b.label.y
    ||| b.thumb.y + b.thumb.h + GAP <= a.label.y
}

proof fn lemma_grid_facts(
    layout: Layout,
    items: Seq<Item>,
    screen_w: i32,
    screen_h: i32,
    cfg: &Config,
) -> (g: (Seq<int>, int, int))
    requires
        items.len() > 0,
        layout.lays_out(items, screen_w, screen_h, cfg),
    ensures
        layout.is_grid(g.0, g.1, g.2),
        forall|i: int| 0 <= i < g.0.len() ==> #[trigger] g.0[i] >= 0,
        g.2 > 0,
        g.1 == layout::overlay_width(screen_w as int, cfg.max_width_frac as int),
        g.2 == layout::fitted_height(items, g.1, screen_h as int, layout::start_height(cfg)),
        g.0 == layout::card_widths(items, g.2, g.1 - 2 * PAD),
{
    let max_w = layout::overlay_width(screen_w as int, cfg.max_width_frac as int);
    lemma_fitted_height_positive(items, max_w, screen_h as int, layout::start_height(cfg));
    let h = layout::fitted_height(items, max_w, screen_h as int, layout::start_height(cfg));
    (layout::card_widths(items, h, max_w - 2 * PAD), max_w, h)
}

/// Every card lies inside the overlay's margin, and the margin above the top
/// row equals the margin below the bottom row.
pub proof fn law_cards_inside_margin(
    layout: Layout,
    items: Seq<Item>,
    screen_w: i32,
    screen_h: i32,
    cfg: &Config,
    i: int,
)
    requires
        layout.lays_out(items, screen_w, screen_h, cfg),
        0 <= i < items.len(),
    ensures
        PAD <= layout.rects@[i].thumb.x,
        layout.rects@[i].thumb.x + layout.rects@[i].thumb.w <= layout.total_w - PAD,
        PAD <= layout.rects@[i].label.y,
        layout.rects@[i].thumb.y + layout.rects@[i].thumb.h <= layout.total_h - PAD,
        layout.rects@[i].thumb.w >= 0,
        layout.rects@[i].thumb.h > 0,
        layout.rects@[i].label.x == layout.rects@[i].thumb.x,
        layout.rects@[i].label.w == layout.rects@[i].thumb.w,
        layout.rects@[i].label.y + layout.rects@[i].label.h == layout.rects@[i].thumb.y,
        layout.rects@[i].label.h == LABEL_H,
        i == 0 ==> layout.rects@[i].thumb.y + layout.rects@[i].thumb.h == layout.total_h - PAD,
        i == items.len() - 1 ==> layout.rects@[i].label.y == PAD,
{
    let g = lemma_grid_facts(layout, items, screen_w, screen_h, cfg);
    let rows = layout::rows_view(layout.rows@);
    let place = lemma_place(rows, items.len() as int, i, rows.len() as int);
    let r = place.0;
    let c = place.1;
    assert(rows[r] == layout.rows@[r]@);
    assert(layout::card_at(rows, g.0, g.1, g.2, r, c, layout.rects@[rows[r][c] as int]));
    lemma_card_extent(layout, g.0, g.1, g.2, r, c, layout.rects@[i]);
    if i == 0 && r > 0 {
        lemma_starts_grow(rows, 1, r);
        assert(rows[0].len() > 0);
        assert(layout::row_start(rows, 1) == layout::row_start(rows, 0) + rows[0].len());
    }
    if i == items.len() - 1 && r < rows.len() - 1 {
        lemma_starts_grow(rows, r + 2, rows.len() as int);
        assert(rows[r + 1].len() > 0);
        assert(layout::row_start(rows, r + 2) == layout::row_start(rows, r + 1) + rows[r + 1].len());
        assert(layout::row_start(rows, r + 1) == layout::row_start(rows, r) + rows[r].len());
    }
}

proof fn lemma_apart_in_order(
    layout: Layout,
    g: (Seq<int>, int, int),
    r1: int,
    c1: int,
    r2: int,
    c2: int,
    a: ItemRect,
    b: ItemRect,
)
    requires
        layout.is_grid(g.0, g.1, g.2),
        forall|i: int| 0 <= i < g.0.len() ==> #[trigger] g.0[i] >= 0,
        g.2 > 0,
        0 <= r1 <= r2 < layout.rows@.len(),
        0 <= c1 < layout.rows@[r1]@.len(),
        0 <= c2 < layout.rows@[r2]@.len(),
        r1 == r2 ==> c1 < c2,
        layout::card_at(layout::rows_view(layout.rows@), g.0, g.1, g.2, r1, c1, a),
        layout::card_at(layout::rows_view(layout.rows@), g.0, g.1, g.2, r2, c2, b),
    ensures
        cards_apart(a, b),
{
    let rows = layout::rows_view(layout.rows@);
    let widths = g.0;
    let h = g.2;
    assert(rows[r1] == layout.rows@[r1]@);
    assert(rows[r2] == layout.rows@[r2]@);
    if r1 == r2 {
        let s = layout::row_start(rows, r1);
        lemma_starts_grow(rows, 0, r1);
        lemma_starts_grow(rows, r1 + 1, rows.len() as int);
        assert(layout::row_start(rows, r1 + 1) == s + rows[r1].len());
        lemma_span_steps(widths, s, s + c1 + 1, s + c2, s + rows[r1].len());
        assert(layout::span(widths, s, s + c1 + 1) == layout::span(widths, s, s + c1) + widths[s + c1] + GAP);
    } else {
        let n = rows.len() as int;
        assert((n - 1 - r1) * (h + LABEL_H + GAP) >= (n - 1 - r2) * (h + LABEL_H + GAP) + (h
            + LABEL_H + GAP)) by (nonlinear_arith)
            requires
                r1 + 1 <= r2,
                h >= 0,
                LABEL_H >= 0,
                GAP >= 0,
        ;
    }
}

/// No two cards of a layout touch.
pub proof fn law_cards_do_not_touch(
    layout: Layout,
    items: Seq<Item>,
    screen_w: i32,
    screen_h: i32,
    cfg: &Config,
    i: int,
    j: int,
)
    requires
        layout.lays_out(items, screen_w, screen_h, cfg),
        0 <= i < items.len(),
        0 <= j < items.len(),
        i != j,
    ensures
        cards_apart(layout.rects@[i], layout.rects@[j]),
{
    let first = if i < j {
        i
    } else {
        j
    };
    let second = if i < j {
        j
    } else {
        i
    };
    let g = lemma_grid_facts(layout, items, screen_w, screen_h, cfg);
    let rows = layout::rows_view(layout.rows@);
    let p = lemma_place(rows, items.len() as int, first, rows.len() as int);
    let q = lemma_place(rows, items.len() as int, second, rows.len() as int);
    assert(rows[p.0] == layout.rows@[p.0]@);
    assert(rows[q.0] == layout.rows@[q.0]@);
    assert(layout::card_at(rows, g.0, g.1, g.2, p.0, p.1, layout.rects@[rows[p.0][p.1] as int]));
    assert(layout::card_at(rows, g.0, g.1, g.2, q.0, q.1, layout.rects@[rows[q.0][q.1] as int]));
    if q.0 < p.0 {
        lemma_starts_grow(rows, q.0 + 1, p.0);
        assert(layout::row_start(rows, q.0 + 1) == layout::row_start(rows, q.0) + rows[q.0].len());
    }
    lemma_apart_in_order(
        layout,
        g,
        p.0,
        p.1,
        q.0,
        q.1,
        layout.rects@[first],
        layout.rects@[second],
    );
}

/// A point on a thumbnail lies on no other thumbnail: hit testing is
/// unambiguous.
pub proof fn law_hit_is_unambiguous(
    layout: Layout,
    items: Seq<Item>,
    screen_w: i32,
    screen_h: i32,
    cfg: &Config,
    px: int,
    py: int,
    i: int,
    j: int,
)
    requires
        layout.lays_out(items, screen_w, screen_h, cfg),
        0 <= i < items.len(),
        0 <= j < items.len(),
        layout.rects@[i].thumb.covers(px, py),
        layout.rects@[j].thumb.covers(px, py),
    ensures
        i == j,
{
    if i != j {
        law_cards_do_not_touch(layout, items, screen_w, screen_h, cfg, i, j);
        let g = lemma_grid_facts(layout, items, screen_w, screen_h, cfg);
        let rows = layout::rows_view(layout.rows@);
        let p = lemma_place(rows, items.len() as int, i, rows.len() as int);
        let q = lemma_place(rows, items.len() as int, j, rows.len() as int);
        assert(layout::card_at(rows, g.0, g.1, g.2, p.0, p.1, layout.rects@[rows[p.0][p.1] as int]));
        assert(layout::card_at(rows, g.0, g.1, g.2, q.0, q.1, layout.rects@[rows[q.0][q.1] as int]));
    }
}

/// All thumbnails have the same height, whatever their windows look like.
pub proof fn law_thumbnails_have_equal_height(
    layout: Layout,
    items: Seq<Item>,
    screen_w: i32,
    screen_h: i32,
    cfg: &Config,
    i: int,
    j: int,
)
    requires
        layout.lays_out(items, screen_w, screen_h, cfg),
        0 <= i < items.len(),
        0 <= j < items.len(),
    ensures
        layout.rects@[i].thumb.h == layout.rects@[j].thumb.h,
{
    let g = lemma_grid_facts(layout, items, screen_w, screen_h, cfg);
    let rows = layout::rows_view(layout.rows@);
    let p = lemma_place(rows, items.len() as int, i, rows.len() as int);
    let q = lemma_place(rows, items.len() as int, j, rows.len() as int);
    assert(layout::card_at(rows, g.0, g.1, g.2, p.0, p.1, layout.rects@[rows[p.0][p.1] as int]));
    assert(layout::card_at(rows, g.0, g.1, g.2, q.0, q.1, layout.rects@[rows[q.0][q.1] as int]));
}

/// The overlay takes at most 86 % of the screen's height, unless its thumbnails
/// are as small as they get.
pub proof fn law_overlay_fits_the_screen(
    layout: Layout,
    items: Seq<Item>,
    screen_w: i32,
    screen_h: i32,
    cfg: &Config,
)
    requires
        layout.lays_out(items, screen_w, screen_h, cfg),
        items.len() > 0,
    ensures
        layout.total_h * 100 <= screen_h * 86 || layout.rects@[0].thumb.h <= SMALLEST_H,
        layout.total_h * 100 <= screen_h * 86 || layout.rects@[0].thumb.h <= 70_000,
{
    let g = lemma_grid_facts(layout, items, screen_w, screen_h, cfg);
    let rows = layout::rows_view(layout.rows@);
    let p = lemma_place(rows, items.len() as int, 0, rows.len() as int);
    assert(layout::card_at(rows, g.0, g.1, g.2, p.0, p.1, layout.rects@[rows[p.0][p.1] as int]));
    lemma_fitted_height_fits(items, g.1, screen_h as int, layout::start_height(cfg));
    layout::lemma_packing_unique(
        layout::packing(g.0, g.1 - 2 * PAD),
        rows,
        g.0,
        g.1 - 2 * PAD,
    );
}

// ---------- the grid in numbers ----------

/// The row and the column of card `i`, and what the grid says about the card.
proof fn lemma_card_of(
    layout: Layout,
    items: Seq<Item>,
    screen_w: i32,
    screen_h: i32,
    cfg: &Config,
    i: int,
) -> (p: (int, int))
    requires
        layout.lays_out(items, screen_w, screen_h, cfg),
        0 <= i < items.len(),
    ensures
        ({
            let max_w = layout::overlay_width(screen_w as int, cfg.max_width_frac as int);
            let h = layout::fitted_height(
                items,
                max_w,
                screen_h as int,
                layout::start_height(cfg),
            );
            let rows = layout::rows_view(layout.rows@);
            &&& 0 <= p.0 < rows.len()
            &&& 0 <= p.1 < rows[p.0].len()
            &&& rows[p.0] == layout.rows@[p.0]@
            &&& rows[p.0][p.1] == i
            &&& layout::row_start(rows, p.0) + p.1 == i
            &&& layout.rects@[i].thumb.h == h
            &&& h > 0
            &&& layout.total_w == max_w
            &&& layout.rects@[i].thumb.w == layout::card_width(items[i].aspect, h, max_w - 2 * PAD)
            &&& layout.rects@[i].thumb.y == PAD + LABEL_H + (rows.len() - 1 - p.0) * (h + LABEL_H
                + GAP)
            &&& layout.rects@[i].thumb.x == (max_w - layout::row_width(
                layout::card_widths(items, h, max_w - 2 * PAD),
                rows,
                p.0,
            )) / 2 + layout::span(
                layout::card_widths(items, h, max_w - 2 * PAD),
                layout::row_start(rows, p.0),
                i,
            )
        }),
{
    let g = lemma_grid_facts(layout, items, screen_w, screen_h, cfg);
    let rows = layout::rows_view(layout.rows@);
    let p = lemma_place(rows, items.len() as int, i, rows.len() as int);
    assert(rows[p.0] == layout.rows@[p.0]@);
    assert(layout::card_at(rows, g.0, g.1, g.2, p.0, p.1, layout.rects@[rows[p.0][p.1] as int]));
    p
}

/// A card is as wide as its window's shape asks at the height that all
/// thumbnails have: the width is the height times the aspect ratio, in whole
/// milli-points. Only a card that would be narrower than 90 points, or wider
/// than the grid, has that width instead.
pub proof fn law_cards_keep_their_windows_shape(
    layout: Layout,
    items: Seq<Item>,
    screen_w: i32,
    screen_h: i32,
    cfg: &Config,
    i: int,
)
    requires
        layout.lays_out(items, screen_w, screen_h, cfg),
        0 <= i < items.len(),
    ensures
        ({
            let w = layout.rects@[i].thumb.w;
            let shape = layout.rects@[i].thumb.h * items[i].aspect;
            let room = layout.total_w - 40_000;
            &&& 90_000 <= w <= room
            &&& 90_000 < w < room ==> w * 1_000_000 <= shape < (w + 1) * 1_000_000
            &&& w == 90_000 ==> shape < 90_001 * 1_000_000
            &&& w == room ==> shape >= room * 1_000_000
        }),
{
    lemma_card_of(layout, items, screen_w, screen_h, cfg, i);
}

/// Of two cards the one whose window is wider for its height is not narrower.
pub proof fn law_wider_windows_have_wider_cards(
    layout: Layout,
    items: Seq<Item>,
    screen_w: i32,
    screen_h: i32,
    cfg: &Config,
    i: int,
    j: int,
)
    requires
        layout.lays_out(items, screen_w, screen_h, cfg),
        0 <= i < items.len(),
        0 <= j < items.len(),
        items[i].aspect <= items[j].aspect,
    ensures
        layout.rects@[i].thumb.w <= layout.rects@[j].thumb.w,
{
    lemma_card_of(layout, items, screen_w, screen_h, cfg, i);
    lemma_card_of(layout, items, screen_w, screen_h, cfg, j);
    let h = layout.rects@[i].thumb.h as int;
    let a = items[i].aspect as int;
    let b = items[j].aspect as int;
    assert(h * a <= h * b) by (nonlinear_arith)
        requires
            h > 0,
            a <= b,
    ;
}

/// The overlay takes the configured share of the screen's width, in whole
/// milli-points, but is never narrower than 420 points.
pub proof fn law_overlay_takes_its_share_of_the_width(
    layout: Layout,
    items: Seq<Item>,
    screen_w: i32,
    screen_h: i32,
    cfg: &Config,
)
    requires
        layout.lays_out(items, screen_w, screen_h, cfg),
        items.len() > 0,
    ensures
        ({
            let share = screen_w * cfg.max_width_frac;
            &&& layout.total_w >= 420_000
            &&& layout.total_w > 420_000 ==> layout.total_w * 1_000_000 <= share < (layout.total_w
                + 1) * 1_000_000
            &&& layout.total_w == 420_000 ==> share < 420_001 * 1_000_000
        }),
{
}

/// The row of a card decides its height above the lower edge: cards of one row
/// stand level, and each row is one card and one gap lower than the row above.
proof fn lemma_rows_and_levels(
    layout: Layout,
    items: Seq<Item>,
    screen_w: i32,
    screen_h: i32,
    cfg: &Config,
    i: int,
    j: int,
) -> (p: ((int, int), (int, int)))
    requires
        layout.lays_out(items, screen_w, screen_h, cfg),
        0 <= i < items.len(),
        0 <= j < items.len(),
    ensures
        ({
            let rows = layout::rows_view(layout.rows@);
            let a = layout.rects@[i].thumb;
            let b = layout.rects@[j].thumb;
            &&& 0 <= p.0.0 < rows.len() && 0 <= p.0.1 < rows[p.0.0].len()
            &&& 0 <= p.1.0 < rows.len() && 0 <= p.1.1 < rows[p.1.0].len()
            &&& rows[p.0.0] == layout.rows@[p.0.0]@ && rows[p.0.0][p.0.1] == i
            &&& rows[p.1.0] == layout.rows@[p.1.0]@ && rows[p.1.0][p.1.1] == j
            &&& layout::row_start(rows, p.0.0) + p.0.1 == i
            &&& layout::row_start(rows, p.1.0) + p.1.1 == j
            &&& (a.y == b.y <==> p.0.0 == p.1.0)
            &&& (a.y > b.y <==> p.0.0 < p.1.0)
            &&& (p.1.0 == p.0.0 + 1 <==> b.y + b.h + 36_000 == a.y)
        }),
{
    let p = lemma_card_of(layout, items, screen_w, screen_h, cfg, i);
    let q = lemma_card_of(layout, items, screen_w, screen_h, cfg, j);
    let n = layout.rows@.len() as int;
    let step = layout.rects@[i].thumb.h + LABEL_H + GAP;
    let u = n - 1 - p.0;
    let v = n - 1 - q.0;
    assert((u == v ==> u * step == v * step) && (u > v ==> u * step >= v * step + step) && (v > u
        ==> v * step >= u * step + step) && (u == v + 1 ==> u * step == v * step + step) && (u > v
        + 1 ==> u * step >= v * step + 2 * step)) by (nonlinear_arith)
        requires
            step > 0,
    ;
    (p, q)
}

/// Side by side cards of one row stand a gap of 12 points apart; a card that
/// begins a new row stands in the row right below, and it did not fit behind
/// the row before it.
pub proof fn law_rows_are_filled_in_order(
    layout: Layout,
    items: Seq<Item>,
    screen_w: i32,
    screen_h: i32,
    cfg: &Config,
    i: int,
)
    requires
        layout.lays_out(items, screen_w, screen_h, cfg),
        0 <= i < items.len() - 1,
    ensures
        ({
            let a = layout.rects@[i].thumb;
            let b = layout.rects@[i + 1].thumb;
            ||| b.y == a.y && b.x == a.x + a.w + 12_000
            ||| {
                &&& b.y + b.h + 36_000 == a.y
                &&& exists|f: int|
                    0 <= f <= i && (#[trigger] layout.rects@[f]).thumb.y == a.y && a.x + a.w
                        - layout.rects@[f].thumb.x + 12_000 + b.w > layout.total_w - 40_000
            }
        }),
{
    let g = lemma_grid_facts(layout, items, screen_w, screen_h, cfg);
    let rows = layout::rows_view(layout.rows@);
    let pq = lemma_rows_and_levels(layout, items, screen_w, screen_h, cfg, i, i + 1);
    let (r, c) = pq.0;
    let (r2, c2) = pq.1;
    lemma_card_of(layout, items, screen_w, screen_h, cfg, i);
    lemma_card_of(layout, items, screen_w, screen_h, cfg, i + 1);
    let s = layout::row_start(rows, r);
    assert(layout::row_start(rows, r + 1) == s + rows[r].len());
    if r2 < r {
        lemma_starts_grow(rows, r2 + 1, r);
        assert(layout::row_start(rows, r2 + 1) == layout::row_start(rows, r2) + rows[r2].len());
    }
    if r2 > r + 1 {
        lemma_starts_grow(rows, r + 2, r2);
        assert(layout::row_start(rows, r + 2) == layout::row_start(rows, r + 1) + rows[r
            + 1].len());
        assert(rows[r + 1].len() > 0);
    }
    let q = lemma_place(rows, items.len() as int, i + 1, rows.len() as int);
    if r2 == r {
        assert(c2 == c + 1);
        assert(layout::card_at(rows, g.0, g.1, g.2, r, c, layout.rects@[rows[r][c] as int]));
        assert(layout::card_at(rows, g.0, g.1, g.2, r, c + 1, layout.rects@[rows[r][c + 1] as int]));
        assert(layout::span(g.0, s, s + c + 1) == layout::span(g.0, s, s + c) + g.0[s + c] + GAP);
    } else {
        assert(r2 == r + 1);
        assert(i + 1 == layout::row_start(rows, r + 1));
        assert(c2 == 0);
        assert(rows[r].len() == c + 1);
        assert(rows[r][0] == s);
        assert(layout::card_at(rows, g.0, g.1, g.2, r, 0, layout.rects@[rows[r][0] as int]));
        assert(layout::card_at(rows, g.0, g.1, g.2, r, c, layout.rects@[rows[r][c] as int]));
        assert(layout::card_at(rows, g.0, g.1, g.2, r2, 0, layout.rects@[rows[r2][0] as int]));
        assert(layout::span(g.0, s, s + 0) == 0);
        assert(layout::span(g.0, s, s + c + 1) == layout::span(g.0, s, s + c) + g.0[s + c] + GAP);
        assert(layout::row_width(g.0, rows, r) + GAP + g.0[layout::row_start(rows, r + 1)] > g.1
            - 2 * PAD);
        let y = layout.rects@[i].thumb.y;
        assert(layout.rects@[s].thumb.y == y);
    }
}

/// A row stands in the middle of the overlay: the space left of its first card
/// and the space right of its last card are the same, give or take the last
/// milli-point.
pub proof fn law_rows_are_centred(
    layout: Layout,
    items: Seq<Item>,
    screen_w: i32,
    screen_h: i32,
    cfg: &Config,
    first: int,
    last: int,
)
    requires
        layout.lays_out(items, screen_w, screen_h, cfg),
        0 <= first <= last < items.len(),
        layout.rects@[first].thumb.y == layout.rects@[last].thumb.y,
        first == 0 || layout.rects@[first - 1].thumb.y != layout.rects@[first].thumb.y,
        last == items.len() - 1 || layout.rects@[last + 1].thumb.y != layout.rects@[last].thumb.y,
    ensures
        ({
            let left = layout.rects@[first].thumb.x;
            let right = layout.total_w - (layout.rects@[last].thumb.x
                + layout.rects@[last].thumb.w);
            0 <= right - left <= 1
        }),
{
    let g = lemma_grid_facts(layout, items, screen_w, screen_h, cfg);
    let rows = layout::rows_view(layout.rows@);
    let pq = lemma_rows_and_levels(layout, items, screen_w, screen_h, cfg, first, last);
    let r = pq.0.0;
    let s = layout::row_start(rows, r);
    let c = pq.1.1;
    assert(layout::row_start(rows, r + 1) == s + rows[r].len());
    lemma_starts_grow(rows, 0, r);
    lemma_starts_grow(rows, r + 1, rows.len() as int);
    if pq.0.1 > 0 {
        let before = lemma_rows_and_levels(layout, items, screen_w, screen_h, cfg, first - 1, first);
        assert(rows[r][pq.0.1 - 1] == s + (pq.0.1 - 1));
        lemma_same_place(rows, items.len() as int, first - 1, r, pq.0.1 - 1, before.0.0, before.0.1);
        lemma_same_place(rows, items.len() as int, first, r, pq.0.1, before.1.0, before.1.1);
    }
    if c + 1 < rows[r].len() {
        let after = lemma_rows_and_levels(layout, items, screen_w, screen_h, cfg, last, last + 1);
        assert(rows[r][c + 1] == s + (c + 1));
        lemma_same_place(rows, items.len() as int, last + 1, r, c + 1, after.1.0, after.1.1);
        lemma_same_place(rows, items.len() as int, last, r, c, after.0.0, after.0.1);
    }
    assert(layout::card_at(rows, g.0, g.1, g.2, r, 0, layout.rects@[rows[r][0] as int]));
    assert(layout::card_at(rows, g.0, g.1, g.2, r, c, layout.rects@[rows[r][c] as int]));
    assert(layout::span(g.0, s, s + 0) == 0);
    assert(layout::span(g.0, s, s + c + 1) == layout::span(g.0, s, s + c) + g.0[s + c] + GAP);
}

/// An item stands in one place only.
proof fn lemma_same_place(rows: Seq<Seq<usize>>, n: int, i: int, r: int, c: int, q: int, k: int)
    requires
        layout::rows_in_order(rows, n),
        0 <= r < rows.len(),
        0 <= c < rows[r].len(),
        0 <= q < rows.len(),
        0 <= k < rows[q].len(),
        rows[r][c] == i,
        rows[q][k] == i,
    ensures
        r == q,
        c == k,
{
    assert(rows[r][c] == layout::row_start(rows, r) + c);
    assert(rows[q][k] == layout::row_start(rows, q) + k);
    if q < r {
        lemma_starts_grow(rows, q + 1, r);
        assert(layout::row_start(rows, q + 1) == layout::row_start(rows, q) + rows[q].len());
    }
    if r < q {
        lemma_starts_grow(rows, r + 1, q);
        assert(layout::row_start(rows, r + 1) == layout::row_start(rows, r) + rows[r].len());
    }
}

/// Thumbnails start out as high as configured, but at least 80 points high, and
/// never grow.
pub proof fn law_thumbnails_are_at_most_as_high_as_configured(
    layout: Layout,
    items: Seq<Item>,
    screen_w: i32,
    screen_h: i32,
    cfg: &Config,
    i: int,
)
    requires
        layout.lays_out(items, screen_w, screen_h, cfg),
        0 <= i < items.len(),
    ensures
        layout.rects@[i].thumb.h <= cfg.thumb_height || layout.rects@[i].thumb.h <= 80_000,
{
    let g = lemma_grid_facts(layout, items, screen_w, screen_h, cfg);
    lemma_card_of(layout, items, screen_w, screen_h, cfg, i);
    lemma_fitted_height_positive(items, g.1, screen_h as int, layout::start_height(cfg));
}

proof fn lemma_last_shrink(items: Seq<Item>, max_w: int, screen_h: int, h: int) -> (from: int)
    requires
        h > 0,
        layout::fitted_height(items, max_w, screen_h, h) != h,
    ensures
        from > SMALLEST_H,
        from <= h,
        layout::fitted_height(items, max_w, screen_h, h) == from * 92 / 100,
        !layout::grid_fits(items, max_w, screen_h, from),
    decreases h,
{
    let next = h * 92 / 100;
    if layout::fitted_height(items, max_w, screen_h, next) == next {
        h
    } else {
        lemma_last_shrink(items, max_w, screen_h, next)
    }
}

/// Thumbnails are lowered by 8 % at a time, and only because the grid was too
/// high for the screen before: with cards of the height `from` the rows that
/// they fill take more than 86 % of the screen's height.
pub proof fn law_thumbnails_shrink_only_to_fit(
    layout: Layout,
    items: Seq<Item>,
    screen_w: i32,
    screen_h: i32,
    cfg: &Config,
    i: int,
) -> (from: int)
    requires
        layout.lays_out(items, screen_w, screen_h, cfg),
        0 <= i < items.len(),
        layout.rects@[i].thumb.h < cfg.thumb_height,
        cfg.thumb_height >= 80_000,
    ensures
        70_000 < from <= cfg.thumb_height,
        layout.rects@[i].thumb.h * 100 <= from * 92 < (layout.rects@[i].thumb.h + 1) * 100,
        ({
            let room = layout.total_w - 40_000;
            let rows = layout::packing(layout::card_widths(items, from, room), room).len();
            (40_000 + rows * (from + 24_000) + (rows - 1) * 12_000) * 100 > screen_h * 86
        }),
{
    let g = lemma_grid_facts(layout, items, screen_w, screen_h, cfg);
    lemma_card_of(layout, items, screen_w, screen_h, cfg, i);
    lemma_last_shrink(items, g.1, screen_h as int, layout::start_height(cfg))
}

/// The overlay is exactly as high as its rows of thumbnails and titles, the
/// gaps between them and the margins take.
pub proof fn law_overlay_height_holds_the_rows(
    layout: Layout,
    items: Seq<Item>,
    screen_w: i32,
    screen_h: i32,
    cfg: &Config,
)
    requires
        layout.lays_out(items, screen_w, screen_h, cfg),
        items.len() > 0,
    ensures
        ({
            let top = layout.rects@[0].thumb;
            let bottom = layout.rects@[items.len() - 1].thumb;
            layout.total_h == (top.y - bottom.y) + top.h + 24_000 + 40_000
        }),
{
    law_cards_inside_margin(layout, items, screen_w, screen_h, cfg, 0);
    law_cards_inside_margin(layout, items, screen_w, screen_h, cfg, items.len() - 1);
}

// ---------- steps in numbers ----------

/// Step right: the next card, if it stands in the same row; at the end of the
/// row the first card of the row when wrapping, and nowhere when not.
pub proof fn law_step_right(
    layout: Layout,
    items: Seq<Item>,
    screen_w: i32,
    screen_h: i32,
    cfg: &Config,
    idx: usize,
    wrap: bool,
    to: usize,
)
    requires
        layout.wf(),
        layout.lays_out(items, screen_w, screen_h, cfg),
        idx < items.len(),
        layout.leads_to(idx, Dir::Right, wrap, to),
    ensures
        ({
            let y = layout.rects@[idx as int].thumb.y;
            if idx + 1 < items.len() && layout.rects@[idx + 1].thumb.y == y {
                to == idx + 1
            } else if wrap {
                &&& to <= idx
                &&& layout.rects@[to as int].thumb.y == y
                &&& to == 0 || layout.rects@[to - 1].thumb.y != y
            } else {
                to == idx
            }
        }),
{
    let rows = layout::rows_view(layout.rows@);
    let p = lemma_card_of(layout, items, screen_w, screen_h, cfg, idx as int);
    let (r, c) = p;
    assert(layout.at(r, c, idx));
    lemma_position_is_unique(layout, idx, r, c);
    let s = layout::row_start(rows, r);
    assert(rows[r][0] == s);
    assert(layout::row_start(rows, r + 1) == s + rows[r].len());
    lemma_starts_grow(rows, r + 1, rows.len() as int);
    lemma_starts_grow(rows, 0, r);
    if idx + 1 < items.len() {
        let q = lemma_rows_and_levels(layout, items, screen_w, screen_h, cfg, idx as int, idx + 1);
        lemma_same_place(rows, items.len() as int, idx as int, r, c, q.0.0, q.0.1);
        if c + 1 < rows[r].len() {
            assert(rows[r][c + 1] == s + (c + 1));
            lemma_same_place(rows, items.len() as int, idx + 1, r, c + 1, q.1.0, q.1.1);
        }
    }
    if c + 1 == rows[r].len() && wrap {
        assert(to == s);
        let q = lemma_rows_and_levels(layout, items, screen_w, screen_h, cfg, idx as int, s);
        lemma_same_place(rows, items.len() as int, idx as int, r, c, q.0.0, q.0.1);
        lemma_same_place(rows, items.len() as int, s, r, 0, q.1.0, q.1.1);
        if s > 0 {
            let b = lemma_rows_and_levels(layout, items, screen_w, screen_h, cfg, idx as int, s - 1);
            lemma_same_place(rows, items.len() as int, idx as int, r, c, b.0.0, b.0.1);
        }
    }
}

/// Step left: the card before, if it stands in the same row; at the beginning
/// of the row the last card of the row when wrapping, and nowhere when not.
pub proof fn law_step_left(
    layout: Layout,
    items: Seq<Item>,
    screen_w: i32,
    screen_h: i32,
    cfg: &Config,
    idx: usize,
    wrap: bool,
    to: usize,
)
    requires
        layout.wf(),
        layout.lays_out(items, screen_w, screen_h, cfg),
        idx < items.len(),
        layout.leads_to(idx, Dir::Left, wrap, to),
    ensures
        ({
            let y = layout.rects@[idx as int].thumb.y;
            if idx > 0 && layout.rects@[idx - 1].thumb.y == y {
                to == idx - 1
            } else if wrap {
                &&& idx <= to < items.len()
                &&& layout.rects@[to as int].thumb.y == y
                &&& to == items.len() - 1 || layout.rects@[to + 1].thumb.y != y
            } else {
                to == idx
            }
        }),
{
    let rows = layout::rows_view(layout.rows@);
    let p = lemma_card_of(layout, items, screen_w, screen_h, cfg, idx as int);
    let (r, c) = p;
    assert(layout.at(r, c, idx));
    lemma_position_is_unique(layout, idx, r, c);
    let s = layout::row_start(rows, r);
    let last = s + rows[r].len() - 1;
    assert(rows[r][rows[r].len() - 1] == last);
    assert(layout::row_start(rows, r + 1) == s + rows[r].len());
    lemma_starts_grow(rows, r + 1, rows.len() as int);
    lemma_starts_grow(rows, 0, r);
    if idx > 0 {
        let q = lemma_rows_and_levels(layout, items, screen_w, screen_h, cfg, idx as int, idx - 1);
        lemma_same_place(rows, items.len() as int, idx as int, r, c, q.0.0, q.0.1);
        if c > 0 {
            assert(rows[r][c - 1] == s + (c - 1));
            lemma_same_place(rows, items.len() as int, idx - 1, r, c - 1, q.1.0, q.1.1);
        }
    }
    if c == 0 && wrap {
        assert(to == last);
        let q = lemma_rows_and_levels(layout, items, screen_w, screen_h, cfg, idx as int, last);
        lemma_same_place(rows, items.len() as int, idx as int, r, c, q.0.0, q.0.1);
        lemma_same_place(rows, items.len() as int, last, r, rows[r].len() - 1, q.1.0, q.1.1);
        if last + 1 < items.len() {
            let b = lemma_rows_and_levels(
                layout,
                items,
                screen_w,
                screen_h,
                cfg,
                idx as int,
                last + 1,
            );
            lemma_same_place(rows, items.len() as int, idx as int, r, c, b.0.0, b.0.1);
        }
    }
}

/// Horizontal distance between the centres of two cards, in half milli-points.
pub open spec fn twice_apart(a: ItemRect, b: ItemRect) -> int {
    let d = (2 * a.thumb.x + a.thumb.w) - (2 * b.thumb.x + b.thumb.w);
    if d >= 0 {
        d
    } else {
        -d
    }
}

/// What the nearest card of a row means in numbers.
proof fn lemma_nearest_in_numbers(
    layout: Layout,
    items: Seq<Item>,
    screen_w: i32,
    screen_h: i32,
    cfg: &Config,
    nr: int,
    idx: usize,
    to: usize,
)
    requires
        layout.wf(),
        layout.lays_out(items, screen_w, screen_h, cfg),
        idx < items.len(),
        0 <= nr < layout.rows@.len(),
        layout.is_nearest(nr, idx, to),
    ensures
        to < items.len(),
        layout.pos(to).0 == nr,
        forall|k: int|
            0 <= k < items.len() && (#[trigger] layout.rects@[k]).thumb.y
                == layout.rects@[to as int].thumb.y ==> twice_apart(
                layout.rects@[to as int],
                layout.rects@[idx as int],
            ) <= twice_apart(layout.rects@[k], layout.rects@[idx as int]) + 1,
        forall|k: int|
            0 <= k < to && (#[trigger] layout.rects@[k]).thumb.y == layout.rects@[to as int].thumb.y
                ==> twice_apart(layout.rects@[to as int], layout.rects@[idx as int]) < twice_apart(
                layout.rects@[k],
                layout.rects@[idx as int],
            ),
{
    let rows = layout::rows_view(layout.rows@);
    let row = layout.rows@[nr]@;
    assert(rows[nr] == row);
    let c = choose|c: int|
        {
            &&& 0 <= c < row.len()
            &&& to == #[trigger] row[c]
            &&& forall|k: int|
                0 <= k < row.len() ==> layout::centre_distance(
                    layout.rects@[to as int],
                    layout.rects@[idx as int],
                ) <= layout::centre_distance(
                    layout.rects@[#[trigger] row[k] as int],
                    layout.rects@[idx as int],
                )
            &&& forall|k: int|
                0 <= k < c ==> layout::centre_distance(
                    layout.rects@[to as int],
                    layout.rects@[idx as int],
                ) < layout::centre_distance(
                    layout.rects@[#[trigger] row[k] as int],
                    layout.rects@[idx as int],
                )
        };
    assert(layout.at(nr, c, to));
    lemma_position_is_unique(layout, to, nr, c);
    let s = layout::row_start(rows, nr);
    assert(rows[nr][c] == s + c);
    assert(layout::row_start(rows, nr + 1) == s + rows[nr].len());
    lemma_starts_grow(rows, nr + 1, rows.len() as int);
    lemma_starts_grow(rows, 0, nr);
    assert forall|k: int|
        0 <= k < items.len() && (#[trigger] layout.rects@[k]).thumb.y
            == layout.rects@[to as int].thumb.y implies s <= k < s + row.len() && row[k - s] == k by {
        let q = lemma_rows_and_levels(layout, items, screen_w, screen_h, cfg, to as int, k);
        lemma_same_place(rows, items.len() as int, to as int, nr, c, q.0.0, q.0.1);
        assert(rows[q.1.0][q.1.1] == s + q.1.1);
    }
}

/// Step down: into the row right below; from the bottom row into the top row
/// when wrapping, and nowhere when not. In that row it leads to the card whose
/// centre is horizontally nearest (to half a milli-point), of several to the
/// first.
pub proof fn law_step_down(
    layout: Layout,
    items: Seq<Item>,
    screen_w: i32,
    screen_h: i32,
    cfg: &Config,
    idx: usize,
    wrap: bool,
    to: usize,
)
    requires
        layout.wf(),
        layout.lays_out(items, screen_w, screen_h, cfg),
        idx < items.len(),
        layout.leads_to(idx, Dir::Down, wrap, to),
    ensures
        to < items.len(),
        ({
            let from = layout.rects@[idx as int].thumb;
            let there = layout.rects@[to as int].thumb;
            if exists|k: int| 0 <= k < items.len() && (#[trigger] layout.rects@[k]).thumb.y < from.y {
                there.y + there.h + 36_000 == from.y
            } else if wrap {
                forall|k: int|
                    0 <= k < items.len() ==> (#[trigger] layout.rects@[k]).thumb.y <= there.y
            } else {
                to == idx
            }
        }),
        layout.rects@[to as int].thumb.y == layout.rects@[idx as int].thumb.y ==> to == idx,
        layout.rects@[to as int].thumb.y != layout.rects@[idx as int].thumb.y ==> forall|k: int|
            0 <= k < items.len() && (#[trigger] layout.rects@[k]).thumb.y
                == layout.rects@[to as int].thumb.y ==> {
                &&& twice_apart(layout.rects@[to as int], layout.rects@[idx as int]) <= twice_apart(
                    layout.rects@[k],
                    layout.rects@[idx as int],
                ) + 1
                &&& k < to ==> twice_apart(layout.rects@[to as int], layout.rects@[idx as int])
                    < twice_apart(layout.rects@[k], layout.rects@[idx as int])
            },
{
    let rows = layout::rows_view(layout.rows@);
    let (r, c) = lemma_card_of(layout, items, screen_w, screen_h, cfg, idx as int);
    assert(layout.at(r, c, idx));
    lemma_position_is_unique(layout, idx, r, c);
    let nr = layout.row_below(r, wrap);
    if nr != r {
        assert(layout.is_nearest(nr, idx, to));
        lemma_nearest_in_numbers(layout, items, screen_w, screen_h, cfg, nr, idx, to);
    }
    lemma_levels_of_step(layout, items, screen_w, screen_h, cfg, idx, to, r, nr);
}

/// Step up: into the row right above; from the top row into the bottom row when
/// wrapping, and nowhere when not. In that row it leads to the card whose
/// centre is horizontally nearest (to half a milli-point), of several to the
/// first.
pub proof fn law_step_up(
    layout: Layout,
    items: Seq<Item>,
    screen_w: i32,
    screen_h: i32,
    cfg: &Config,
    idx: usize,
    wrap: bool,
    to: usize,
)
    requires
        layout.wf(),
        layout.lays_out(items, screen_w, screen_h, cfg),
        idx < items.len(),
        layout.leads_to(idx, Dir::Up, wrap, to),
    ensures
        to < items.len(),
        ({
            let from = layout.rects@[idx as int].thumb;
            let there = layout.rects@[to as int].thumb;
            if exists|k: int| 0 <= k < items.len() && (#[trigger] layout.rects@[k]).thumb.y > from.y {
                there.y == from.y + from.h + 36_000
            } else if wrap {
                forall|k: int|
                    0 <= k < items.len() ==> (#[trigger] layout.rects@[k]).thumb.y >= there.y
            } else {
                to == idx
            }
        }),
        layout.rects@[to as int].thumb.y == layout.rects@[idx as int].thumb.y ==> to == idx,
        layout.rects@[to as int].thumb.y != layout.rects@[idx as int].thumb.y ==> forall|k: int|
            0 <= k < items.len() && (#[trigger] layout.rects@[k]).thumb.y
                == layout.rects@[to as int].thumb.y ==> {
                &&& twice_apart(layout.rects@[to as int], layout.rects@[idx as int]) <= twice_apart(
                    layout.rects@[k],
                    layout.rects@[idx as int],
                ) + 1
                &&& k < to ==> twice_apart(layout.rects@[to as int], layout.rects@[idx as int])
                    < twice_apart(layout.rects@[k], layout.rects@[idx as int])
            },
{
    let rows = layout::rows_view(layout.rows@);
    let (r, c) = lemma_card_of(layout, items, screen_w, screen_h, cfg, idx as int);
    assert(layout.at(r, c, idx));
    lemma_position_is_unique(layout, idx, r, c);
    let nr = layout.row_above(r, wrap);
    if nr != r {
        assert(layout.is_nearest(nr, idx, to));
        lemma_nearest_in_numbers(layout, items, screen_w, screen_h, cfg, nr, idx, to);
    }
    lemma_levels_of_step(layout, items, screen_w, screen_h, cfg, idx, to, r, nr);
}

/// The levels of the cards that a vertical step goes from and to, and of all
/// other cards.
proof fn lemma_levels_of_step(
    layout: Layout,
    items: Seq<Item>,
    screen_w: i32,
    screen_h: i32,
    cfg: &Config,
    idx: usize,
    to: usize,
    r: int,
    nr: int,
)
    requires
        layout.wf(),
        layout.lays_out(items, screen_w, screen_h, cfg),
        idx < items.len(),
        to < items.len(),
        layout.pos(idx).0 == r,
        layout.pos(to).0 == nr,
    ensures
        layout.rects@[to as int].thumb.h == layout.rects@[idx as int].thumb.h,
        layout.rects@[to as int].thumb.y == layout.rects@[idx as int].thumb.y <==> r == nr,
        nr == r + 1 <==> layout.rects@[to as int].thumb.y + layout.rects@[to as int].thumb.h
            + 36_000 == layout.rects@[idx as int].thumb.y,
        r == nr + 1 <==> layout.rects@[idx as int].thumb.y + layout.rects@[idx as int].thumb.h
            + 36_000 == layout.rects@[to as int].thumb.y,
        r + 1 < layout.rows@.len() <==> exists|k: int|
            0 <= k < items.len() && (#[trigger] layout.rects@[k]).thumb.y
                < layout.rects@[idx as int].thumb.y,
        r > 0 <==> exists|k: int|
            0 <= k < items.len() && (#[trigger] layout.rects@[k]).thumb.y
                > layout.rects@[idx as int].thumb.y,
        nr == 0 ==> forall|k: int|
            0 <= k < items.len() ==> (#[trigger] layout.rects@[k]).thumb.y
                <= layout.rects@[to as int].thumb.y,
        nr == layout.rows@.len() - 1 ==> forall|k: int|
            0 <= k < items.len() ==> (#[trigger] layout.rects@[k]).thumb.y
                >= layout.rects@[to as int].thumb.y,
{
    let rows = layout::rows_view(layout.rows@);
    let n = items.len() as int;
    law_thumbnails_have_equal_height(layout, items, screen_w, screen_h, cfg, idx as int, to as int);
    let a = lemma_rows_and_levels(layout, items, screen_w, screen_h, cfg, idx as int, to as int);
    let b = lemma_rows_and_levels(layout, items, screen_w, screen_h, cfg, to as int, idx as int);
    assert(layout.at(a.0.0, a.0.1, idx));
    lemma_position_is_unique(layout, idx, a.0.0, a.0.1);
    assert(layout.at(a.1.0, a.1.1, to));
    lemma_position_is_unique(layout, to, a.1.0, a.1.1);
    lemma_same_place(rows, n, to as int, a.1.0, a.1.1, b.0.0, b.0.1);
    lemma_same_place(rows, n, idx as int, a.0.0, a.0.1, b.1.0, b.1.1);
    assert forall|k: int| 0 <= k < n implies {
        let y = (#[trigger] layout.rects@[k]).thumb.y;
        &&& (y < layout.rects@[idx as int].thumb.y ==> r + 1 < rows.len())
        &&& (y > layout.rects@[idx as int].thumb.y ==> r > 0)
        &&& (y > layout.rects@[to as int].thumb.y ==> nr > 0)
        &&& (y < layout.rects@[to as int].thumb.y ==> nr < rows.len() - 1)
    } by {
        let p = lemma_rows_and_levels(layout, items, screen_w, screen_h, cfg, idx as int, k);
        let p2 = lemma_rows_and_levels(layout, items, screen_w, screen_h, cfg, k, idx as int);
        let q = lemma_rows_and_levels(layout, items, screen_w, screen_h, cfg, to as int, k);
        let q2 = lemma_rows_and_levels(layout, items, screen_w, screen_h, cfg, k, to as int);
        lemma_same_place(rows, n, idx as int, a.0.0, a.0.1, p.0.0, p.0.1);
        lemma_same_place(rows, n, idx as int, a.0.0, a.0.1, p2.1.0, p2.1.1);
        lemma_same_place(rows, n, to as int, a.1.0, a.1.1, q.0.0, q.0.1);
        lemma_same_place(rows, n, to as int, a.1.0, a.1.1, q2.1.0, q2.1.1);
    }
    if r + 1 < rows.len() {
        let k = layout::row_start(rows, r + 1);
        assert(rows[r + 1].len() > 0);
        assert(rows[r + 1][0] == k);
        lemma_starts_grow(rows, r + 2, rows.len() as int);
        assert(layout::row_start(rows, r + 2) == k + rows[r + 1].len());
        lemma_starts_grow(rows, 0, r + 1);
        let p = lemma_rows_and_levels(layout, items, screen_w, screen_h, cfg, idx as int, k);
        lemma_same_place(rows, n, k, r + 1, 0, p.1.0, p.1.1);
        lemma_same_place(rows, n, idx as int, a.0.0, a.0.1, p.0.0, p.0.1);
        assert(layout.rects@[k].thumb.y < layout.rects@[idx as int].thumb.y);
    }
    if r > 0 {
        assert(rows[0].len() > 0);
        assert(rows[0][0] == 0);
        let p = lemma_rows_and_levels(layout, items, screen_w, screen_h, cfg, 0, idx as int);
        lemma_same_place(rows, n, 0, 0, 0, p.0.0, p.0.1);
        lemma_same_place(rows, n, idx as int, a.0.0, a.0.1, p.1.0, p.1.1);
        assert(layout.rects@[0].thumb.y > layout.rects@[idx as int].thumb.y);
    }
}

/// The next and the previous card in reading order, in a circle.
pub proof fn law_steps_along_the_list(layout: Layout, idx: usize, wrap: bool, next: usize, prev: usize)
    requires
        idx < layout.rects@.len(),
        layout.leads_to(idx, Dir::Next, wrap, next),
        layout.leads_to(idx, Dir::Prev, wrap, prev),
    ensures
        next == (if idx + 1 < layout.rects@.len() {
            idx + 1
        } else {
            0
        }),
        prev == (if idx > 0 {
            idx - 1
        } else {
            layout.rects@.len() - 1
        }),
{
    lemma_turn(idx as int, layout.rects@.len() as int);
}

/// A point is on a card exactly if it lies between the edges of the card's
/// thumbnail, edges included.
pub proof fn law_point_is_on_the_card_around_it(
    layout: Layout,
    px: int,
    py: int,
    found: Option<usize>,
    i: int,
)
    requires
        layout.hits(px, py, found),
        0 <= i < layout.rects@.len(),
    ensures
        ({
            let t = layout.rects@[i].thumb;
            let on = t.x <= px && px <= t.x + t.w && t.y <= py && py <= t.y + t.h;
            &&& on ==> found is Some && found->0 <= i
            &&& (found matches Some(f) && f == i) ==> on
        }),
{
    let t = layout.rects@[i].thumb;
    if t.x <= px && px <= t.x + t.w && t.y <= py && py <= t.y + t.h {
        assert(t.covers(px, py));
        match found {
            Some(f) => {
                if f > i {
                    assert(!layout.rects@[i].thumb.covers(px, py));
                }
            },
            None => {
                assert(!layout.rects@[i].thumb.covers(px, py));
            },
        }
    }
}

/// With nothing to show the overlay is a small strip without cards.
pub proof fn law_empty_overlay(
    layout: Layout,
    items: Seq<Item>,
    screen_w: i32,
    screen_h: i32,
    cfg: &Config,
)
    requires
        layout.lays_out(items, screen_w, screen_h, cfg),
    ensures
        layout.rects@.len() == items.len(),
        items.len() == 0 ==> layout.total_w == 360_000 && layout.total_h == 84_000,
{
}

} // verus!
